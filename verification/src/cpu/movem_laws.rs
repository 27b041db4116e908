//! The laws of MOVEM: registers saved with a predecrementing store and restored with
//! a postincrementing load under the mirrored mask come back as they were, and the
//! address ends where it started; stated over the register walks and over the two
//! instructions.

use vstd::prelude::*;

use crate::alu::areg;
use crate::cpu::movem::{load_regs, mask_bit, movem_spec, reg_value, store_regs};
use crate::cpu::CpuModel;
use crate::decoder::{AddrReg, AddressingMode, DataDir, EffectiveAddress, Movem, Size};
use crate::error::CpuError;
use crate::memory::{
    be_u32, lemma_be_u32_roundtrip, lemma_read_after_write, lemma_write_frame, mem_read, mem_write, u32_be_bytes,
    SegmentView,
};

verus! {

/// How many of the first `k` bits of `mask` are set.
pub open spec fn set_bits(mask: u16, k: int) -> int
    decreases k,
{
    if k <= 0 {
        0
    } else {
        set_bits(mask, k - 1) + if mask_bit(mask, k - 1) {
            1int
        } else {
            0
        }
    }
}

/// A count of set bits is never negative.
proof fn lemma_set_bits_nonneg(mask: u16, k: int)
    ensures
        set_bits(mask, k) >= 0,
    decreases k,
{
    if k > 0 {
        lemma_set_bits_nonneg(mask, k - 1);
    }
}

/// A count of set bits grows by at most one a bit and never shrinks.
proof fn lemma_set_bits_monotone(mask: u16, i: int, k: int)
    requires
        0 <= i <= k,
    ensures
        0 <= set_bits(mask, i) <= set_bits(mask, k) <= set_bits(mask, i) + (k - i),
    decreases k - i,
{
    lemma_set_bits_nonneg(mask, i);
    if i < k {
        lemma_set_bits_monotone(mask, i, k - 1);
    }
}

/// The set bits of a mask and of its mirror image add up.
proof fn lemma_mirror_count(store: u16, load: u16, i: int)
    requires
        0 <= i <= 16,
        forall|j: int| 0 <= j < 16 ==> mask_bit(load, j) == mask_bit(store, 15 - j),
    ensures
        set_bits(load, i) + set_bits(store, 16 - i) == set_bits(store, 16),
    decreases i,
{
    if i > 0 {
        lemma_mirror_count(store, load, i - 1);
        assert(mask_bit(load, i - 1) == mask_bit(store, 15 - (i - 1)));
    }
}

/// What the first `k` bits of a predecrementing long store from `top` leave: the
/// address moved down four bytes for each register stored, the registers as they
/// were, and each register stored (for bit `b`, register `15 - b`) just below the
/// address reached before it.
pub open spec fn stored_prefix(m: CpuModel, top: usize, mask: u16, k: nat, mk: CpuModel, ak: usize) -> bool {
    &&& ak == top - 4 * set_bits(mask, k as int)
    &&& mk.d == m.d
    &&& mk.a == m.a
    &&& forall|b: int|
        0 <= b < k && mask_bit(mask, b) ==> #[trigger] mem_read(mk.mem, top - 4 * (set_bits(mask, b) + 1), 4)
            == Some(u32_be_bytes(reg_value(m, 15 - b)))
}

/// One more register stored below the others keeps the others in place.
proof fn lemma_store_step(m: CpuModel, top: usize, mask: u16, k: nat, m1: CpuModel, a1: usize, data: Seq<u8>)
    requires
        1 <= k <= 16,
        top >= 4 * set_bits(mask, 16),
        stored_prefix(m, top, mask, (k - 1) as nat, m1, a1),
        mask_bit(mask, k - 1),
        data == u32_be_bytes(reg_value(m, 15 - (k - 1))),
        mem_write(m1.mem, a1 - 4, data) is Some,
    ensures
        stored_prefix(
            m,
            top,
            mask,
            k,
            m1.with_mem(mem_write(m1.mem, a1 - 4, data).unwrap()),
            (a1 - 4) as usize,
        ),
{
    let b0 = k - 1;
    let mem2 = mem_write(m1.mem, a1 - 4, data).unwrap();
    lemma_set_bits_monotone(mask, 0, b0);
    lemma_set_bits_monotone(mask, k as int, 16);
    lemma_read_after_write(m1.mem, a1 - 4, data);
    lemma_be_u32_roundtrip(reg_value(m, 15 - b0));
    assert forall|b: int| 0 <= b < k && mask_bit(mask, b) implies #[trigger] mem_read(
        mem2,
        top - 4 * (set_bits(mask, b) + 1),
        4,
    ) == Some(u32_be_bytes(reg_value(m, 15 - b))) by {
        if b < b0 {
            lemma_set_bits_monotone(mask, b + 1, b0);
            lemma_write_frame(m1.mem, a1 - 4, data, top - 4 * (set_bits(mask, b) + 1), 4);
        }
    }
}

/// The first `k` bits of a predecrementing long store from `top` leave what
/// `stored_prefix` says.
proof fn lemma_store_prefix(m: CpuModel, top: usize, mask: u16, k: nat)
    requires
        k <= 16,
        top >= 4 * set_bits(mask, 16),
        store_regs(m, top, Size::Long, mask, true, k) is Ok,
    ensures
        stored_prefix(
            m,
            top,
            mask,
            k,
            store_regs(m, top, Size::Long, mask, true, k).unwrap().0,
            store_regs(m, top, Size::Long, mask, true, k).unwrap().1,
        ),
    decreases k,
{
    if k > 0 {
        let b0 = k - 1;
        assert(store_regs(m, top, Size::Long, mask, true, (k - 1) as nat) is Ok);
        lemma_store_prefix(m, top, mask, (k - 1) as nat);
        lemma_set_bits_monotone(mask, 0, b0);
        lemma_set_bits_monotone(mask, b0, 16);
        lemma_set_bits_monotone(mask, k as int, 16);
        let p = store_regs(m, top, Size::Long, mask, true, (k - 1) as nat).unwrap();
        let m1 = p.0;
        let a1 = p.1;
        if mask_bit(mask, b0) {
            assert(a1.wrapping_sub(4usize) == (a1 - 4) as usize);
            assert(reg_value(m1, 15 - b0) == reg_value(m, 15 - b0));
            let data = u32_be_bytes(reg_value(m, 15 - b0));
            lemma_store_step(m, top, mask, k, m1, a1, data);
        }
    }
}

/// After the first `k` bits of a postincrementing long load from `start`, the
/// address has moved up four bytes for each register loaded, memory is as it was,
/// and each register loaded holds the long read where the address stood for it.
proof fn lemma_load_prefix(m: CpuModel, start: usize, mask: u16, k: nat)
    requires
        k <= 16,
        m.d.len() == 8,
        m.a.len() == 8,
        start + 64 <= usize::MAX,
        load_regs(m, start, Size::Long, mask, k) is Ok,
    ensures
        ({
            let (mk, ak) = load_regs(m, start, Size::Long, mask, k).unwrap();
            &&& ak == start + 4 * set_bits(mask, k as int)
            &&& mk.mem == m.mem
            &&& mk.d.len() == 8 && mk.a.len() == 8
            &&& forall|i: int|
                0 <= i < k && mask_bit(mask, i) ==> (mem_read(m.mem, start + 4 * set_bits(mask, i), 4) matches Some(
                    bytes,
                ) && reg_value(mk, i) == be_u32(bytes))
        }),
    decreases k,
{
    if k > 0 {
        let i0 = k - 1;
        assert(load_regs(m, start, Size::Long, mask, (k - 1) as nat) is Ok);
        lemma_load_prefix(m, start, mask, (k - 1) as nat);
        lemma_set_bits_monotone(mask, 0, i0);
        lemma_set_bits_monotone(mask, i0, 16);
        let (m1, a1) = load_regs(m, start, Size::Long, mask, (k - 1) as nat).unwrap();
        if mask_bit(mask, i0) {
            assert(a1.wrapping_add(4usize) == a1 + 4);
        }
    }
}

/// Registers saved by a predecrementing long MOVEM from `top` and restored by a
/// postincrementing long MOVEM under the mirrored mask (bit `j` of the load mask is
/// bit `15 - j` of the store mask) come back as they were, and the address returns
/// to `top`.
pub proof fn law_movem_restore(m: CpuModel, top: usize, store_mask: u16, load_mask: u16)
    requires
        m.d.len() == 8,
        m.a.len() == 8,
        4 * set_bits(store_mask, 16) <= top <= usize::MAX - 64,
        forall|j: int| 0 <= j < 16 ==> mask_bit(load_mask, j) == mask_bit(store_mask, 15 - j),
        store_regs(m, top, Size::Long, store_mask, true, 16) is Ok,
        ({
            let (m1, a1) = store_regs(m, top, Size::Long, store_mask, true, 16).unwrap();
            load_regs(m1, a1, Size::Long, load_mask, 16) is Ok
        }),
    ensures
        ({
            let (m1, a1) = store_regs(m, top, Size::Long, store_mask, true, 16).unwrap();
            let (m2, a2) = load_regs(m1, a1, Size::Long, load_mask, 16).unwrap();
            &&& a2 == top
            &&& forall|j: int| 0 <= j < 16 && mask_bit(load_mask, j) ==> reg_value(m2, j) == reg_value(m, j)
        }),
{
    let (m1, a1) = store_regs(m, top, Size::Long, store_mask, true, 16).unwrap();
    lemma_store_prefix(m, top, store_mask, 16);
    assert(stored_prefix(m, top, store_mask, 16, m1, a1));
    lemma_set_bits_monotone(store_mask, 0, 16);
    lemma_load_prefix(m1, a1, load_mask, 16);
    let (m2, a2) = load_regs(m1, a1, Size::Long, load_mask, 16).unwrap();
    lemma_mirror_count(store_mask, load_mask, 16);
    assert forall|j: int| 0 <= j < 16 && mask_bit(load_mask, j) implies reg_value(m2, j) == reg_value(m, j) by {
        let b = 15 - j;
        assert(mask_bit(store_mask, b));
        lemma_mirror_count(store_mask, load_mask, j);
        lemma_set_bits_monotone(store_mask, b, 16);
        assert(set_bits(store_mask, 16 - j) == set_bits(store_mask, b) + 1);
        assert(a1 + 4 * set_bits(load_mask, j) == top - 4 * (set_bits(store_mask, b) + 1));
        lemma_be_u32_roundtrip(reg_value(m, 15 - b));
        assert(mem_read(m1.mem, top - 4 * (set_bits(store_mask, b) + 1), 4) == Some(
            u32_be_bytes(reg_value(m, 15 - b)),
        ));
    }
}

/// A load of registers from memory gives the same loaded registers and the same end
/// address whatever the registers held before.
proof fn lemma_load_regs_same_mem(m: CpuModel, n: CpuModel, addr: usize, size: Size, mask: u16, k: nat)
    requires
        m.mem == n.mem,
        m.d.len() == 8,
        m.a.len() == 8,
        n.d.len() == 8,
        n.a.len() == 8,
        k <= 16,
    ensures
        (load_regs(m, addr, size, mask, k) is Ok) == (load_regs(n, addr, size, mask, k) is Ok),
        load_regs(m, addr, size, mask, k) is Ok ==> ({
            let (m2, a2) = load_regs(m, addr, size, mask, k).unwrap();
            let (n2, b2) = load_regs(n, addr, size, mask, k).unwrap();
            &&& a2 == b2
            &&& m2.mem == n2.mem
            &&& m2.d.len() == 8 && m2.a.len() == 8 && n2.d.len() == 8 && n2.a.len() == 8
            &&& forall|j: int| 0 <= j < k && mask_bit(mask, j) ==> reg_value(m2, j) == reg_value(n2, j)
        }),
    decreases k,
{
    if k > 0 {
        lemma_load_regs_same_mem(m, n, addr, size, mask, (k - 1) as nat);
    }
}

/// A postincrementing long load whose longs can all be read succeeds, and leaves the
/// registers it does not load as they were.
proof fn lemma_load_succeeds(m: CpuModel, start: usize, mask: u16, k: nat)
    requires
        k <= 16,
        m.d.len() == 8,
        m.a.len() == 8,
        start + 64 <= usize::MAX,
        forall|i: int|
            0 <= i < k && mask_bit(mask, i) ==> (#[trigger] mem_read(m.mem, start + 4 * set_bits(mask, i), 4)) is Some,
    ensures
        load_regs(m, start, Size::Long, mask, k) is Ok,
        forall|i: int|
            0 <= i < 16 && !(i < k && mask_bit(mask, i)) ==> reg_value(load_regs(m, start, Size::Long, mask, k).unwrap().0, i)
                == reg_value(m, i),
    decreases k,
{
    if k > 0 {
        let i0 = k - 1;
        lemma_load_succeeds(m, start, mask, (k - 1) as nat);
        lemma_load_prefix(m, start, mask, (k - 1) as nat);
        lemma_set_bits_monotone(mask, 0, i0);
        lemma_set_bits_monotone(mask, i0, 16);
        if mask_bit(mask, i0) {
            assert(mem_read(m.mem, start + 4 * set_bits(mask, i0), 4) is Some);
        }
    }
}

/// MOVEM.L of registers to -(An) followed by MOVEM.L from (An)+ to the registers of
/// the mirrored mask (bit `j` of the load mask is bit `15 - j` of the store mask):
/// wherever the save succeeds, so does the restore, and every data and address
/// register, An included, holds its old value again. An must leave room below it for
/// the saved longs, so that the predecrement does not wrap.
pub proof fn law_movem_save_restore(m: CpuModel, inst_addr: usize, ar: AddrReg, store_mask: u16, load_mask: u16)
    requires
        m.d.len() == 8,
        m.a.len() == 8,
        4 * set_bits(store_mask, 16) <= m.a[areg(ar)] <= usize::MAX - 64,
        forall|j: int| 0 <= j < 16 ==> mask_bit(load_mask, j) == mask_bit(store_mask, 15 - j),
        movem_spec(
            m,
            inst_addr,
            Movem {
                size: Size::Long,
                direction: DataDir::RegToMem,
                mode: AddressingMode { ea: EffectiveAddress::AddrPreDecr(ar), data: None },
                register_mask: store_mask,
            },
        ) is Ok,
    ensures
        ({
            let save = Movem {
                size: Size::Long,
                direction: DataDir::RegToMem,
                mode: AddressingMode { ea: EffectiveAddress::AddrPreDecr(ar), data: None },
                register_mask: store_mask,
            };
            let restore = Movem {
                size: Size::Long,
                direction: DataDir::MemToReg,
                mode: AddressingMode { ea: EffectiveAddress::AddrPostIncr(ar), data: None },
                register_mask: load_mask,
            };
            let r = movem_spec(movem_spec(m, inst_addr, save)->Ok_0, inst_addr, restore);
            &&& r is Ok
            &&& r->Ok_0.d == m.d
            &&& r->Ok_0.a == m.a
        }),
{
    let i = areg(ar);
    let top = m.a[i] as usize;
    let (m1, a1) = store_regs(m, top, Size::Long, store_mask, true, 16).unwrap();
    let m1x = m1.with_a(i, a1 as u32);
    lemma_store_prefix(m, top, store_mask, 16);
    lemma_set_bits_monotone(store_mask, 0, 16);
    assert(a1 as u32 as usize == a1);
    lemma_mirror_count(store_mask, load_mask, 16);
    // Every long the restore reads was written by the save.
    assert forall|j: int| 0 <= j < 16 && mask_bit(load_mask, j) implies (#[trigger] mem_read(
        m1x.mem,
        a1 + 4 * set_bits(load_mask, j),
        4,
    )) is Some by {
        let b = 15 - j;
        assert(mask_bit(store_mask, b));
        lemma_mirror_count(store_mask, load_mask, j);
        lemma_set_bits_monotone(store_mask, b, 16);
        assert(set_bits(store_mask, 16 - j) == set_bits(store_mask, b) + 1);
        assert(a1 + 4 * set_bits(load_mask, j) == top - 4 * (set_bits(store_mask, b) + 1));
    }
    lemma_load_succeeds(m1x, a1, load_mask, 16);
    lemma_load_succeeds(m1, a1, load_mask, 16);
    lemma_load_regs_same_mem(m1x, m1, a1, Size::Long, load_mask, 16);
    law_movem_restore(m, top, store_mask, load_mask);
    let (l1, la) = load_regs(m1x, a1, Size::Long, load_mask, 16).unwrap();
    let m2 = l1.with_a(i, la as u32);
    assert forall|j: int| 0 <= j < 16 implies reg_value(m2, j) == reg_value(m, j) by {
        if j != 8 + i && !mask_bit(load_mask, j) {
            assert(reg_value(l1, j) == reg_value(m1x, j));
        }
    }
    assert forall|j: int| 0 <= j < 8 implies m2.d[j] == m.d[j] by {
        assert(reg_value(m2, j) == reg_value(m, j));
    }
    assert forall|j: int| 0 <= j < 8 implies m2.a[j] == m.a[j] by {
        assert(reg_value(m2, j + 8) == reg_value(m, j + 8));
    }
    assert(m2.d =~= m.d);
    assert(m2.a =~= m.a);
}

} // verus!
