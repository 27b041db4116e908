//! The laws of bit fields: a field read back after it was stored holds the stored
//! value, cut to the field's width, in memory and in a register, and from one
//! instruction to the next.

use vstd::prelude::*;

use crate::alu::{bf_width, dreg, insert_spec, low_mask, rotl};
use crate::cpu::bitfield::bf_sr;
use crate::alu_laws::{law_extract_after_insert, law_insert_extracted, law_insert_twice};
use crate::cpu::bitfield::{
    be_value, bf_bit_addr, bf_complement, bf_field_spec, bf_offset, bf_rewrite_spec, bf_shift, bf_span,
    bf_store_spec, bf_width_of, bfext_spec,
    bfins_spec, inserted_bytes, lemma_be_value_bound, low_mask64, mem_extract_spec, mem_insert_spec, pow256,
    read_each, write_each,
};
use crate::cpu::operand::{ea_spec, index_value};
use crate::cpu::CpuModel;
use crate::decoder::{AddressingMode, BitFieldParam, DataReg, EffectiveAddress, ExtensionData};
use crate::error::CpuError;
use crate::memory::{
    find_cover, lemma_find_cover_from, lemma_find_cover_same_layout, lemma_read_after_write, lemma_write_frame,
    lemma_write_same_layout, mem_read, mem_write, seg_covers, splice, SegmentView,
};

verus! {

/// A write outside `[start, start + k)` leaves the bytes there as they were.
proof fn lemma_read_each_frame(mem: Seq<SegmentView>, start: int, k: nat, waddr: int, data: Seq<u8>)
    requires
        mem_write(mem, waddr, data) is Some,
        waddr + data.len() <= start || start + k <= waddr,
    ensures
        read_each(mem_write(mem, waddr, data).unwrap(), start, k) == read_each(mem, start, k),
    decreases k,
{
    if k > 0 {
        lemma_read_each_frame(mem, start, (k - 1) as nat, waddr, data);
        lemma_write_frame(mem, waddr, data, start + k - 1, 1);
    }
}

/// Bytes written one by one read back as written.
proof fn lemma_write_each_read_back(mem: Seq<SegmentView>, start: int, data: Seq<u8>)
    requires
        write_each(mem, start, data) is Ok,
    ensures
        read_each(write_each(mem, start, data).unwrap(), start, data.len()) == Ok::<Seq<u8>, CpuError>(data),
    decreases data.len(),
{
    if data.len() > 0 {
        let front = data.drop_last();
        let b = seq![data.last()];
        let a = start + data.len() - 1;
        assert(write_each(mem, start, front) is Ok);
        let m1 = write_each(mem, start, front).unwrap();
        assert(mem_write(m1, a, b) is Some);
        lemma_write_each_read_back(mem, start, front);
        lemma_read_each_frame(m1, start, front.len(), a, b);
        lemma_read_after_write(m1, a, b);
        assert(mem_read(mem_write(m1, a, b).unwrap(), a, 1) == Some(b));
        assert(front.push(data.last()) =~= data);
    } else {
        assert(data =~= Seq::<u8>::empty());
    }
}

/// Shifting right by whole bytes.
proof fn lemma_byte_shifts(d: u64, k: u64)
    by (bit_vector)
    requires
        k <= 48,
    ensures
        d >> (k + 8) == (d >> 8u64) >> k,
        d >> 8u64 == d / 256,
        (d >> 0u64) as u8 == d % 256,
{
}

/// The bytes of a value below 256 to the power `n`, most significant first, decode
/// to the value.
proof fn lemma_be_value_of_bytes(d: u64, n: nat)
    requires
        n <= 6,
        d < pow256(n),
    ensures
        be_value(Seq::new(n, |i: int| (d >> (((n - 1 - i) * 8) as u64)) as u8)) == d,
    decreases n,
{
    let s = Seq::new(n, |i: int| (d >> (((n - 1 - i) * 8) as u64)) as u8);
    if n == 0 {
        assert(d == 0);
    } else {
        let e = d >> 8u64;
        lemma_byte_shifts(d, 0);
        assert(pow256(n) == pow256((n - 1) as nat) * 256);
        assert(e < pow256((n - 1) as nat));
        let t = Seq::new((n - 1) as nat, |i: int| (e >> (((n - 2 - i) * 8) as u64)) as u8);
        assert forall|i: int| 0 <= i < n - 1 implies s.drop_last()[i] == t[i] by {
            lemma_byte_shifts(d, ((n - 2 - i) * 8) as u64);
            assert(((n - 1 - i) * 8) as u64 == ((n - 2 - i) * 8) as u64 + 8);
        }
        assert(s.drop_last() =~= t);
        lemma_be_value_of_bytes(e, (n - 1) as nat);
        assert(s.last() == (d >> 0u64) as u8);
    }
}

/// Storing the low bits of `value` into bits `[shift, shift + w)` of a value below
/// `lim` keeps it below `lim`, and the field reads back as `value` cut to `w` bits.
proof fn lemma_field_store_load(old: u64, value: u32, shift: u64, w: u64, lim: u64, mask: u64, m32: u32)
    by (bit_vector)
    requires
        1 <= w <= 32,
        shift <= 7,
        old < lim,
        (lim == 0x100 && shift + w <= 8) || (lim == 0x1_0000 && shift + w <= 16) || (lim == 0x100_0000 && shift + w
            <= 24) || (lim == 0x1_0000_0000 && shift + w <= 32) || (lim == 0x100_0000_0000 && shift + w <= 40),
        mask == (if w >= 32 {
            0xFFFF_FFFFu64
        } else {
            ((1u64 << w) - 1) as u64
        }),
        m32 == (if w >= 32 {
            0xFFFF_FFFFu32
        } else {
            ((1u32 << (w as u32)) - 1) as u32
        }),
    ensures
        (old & !(mask << shift)) | (((value as u64) & mask) << shift) < lim,
        ((((old & !(mask << shift)) | (((value as u64) & mask) << shift)) >> shift) as u32) & m32 == value & m32,
{
}

/// A bit field stored into memory reads back as the stored value, cut to the
/// field's width.
pub proof fn law_memory_extract_after_insert(mem: Seq<SegmentView>, base: u32, offset: i32, width: u32, value: u32)
    requires
        mem_insert_spec(mem, base, offset, width, value) is Ok,
    ensures
        mem_extract_spec(mem_insert_spec(mem, base, offset, width, value).unwrap(), base, offset, width) == Ok::<
            u32,
            CpuError,
        >(value & low_mask(bf_width(width))),
{
    let (start, bit, n) = bf_span(base, offset, width);
    let w = bf_width(width);
    let shift = bf_shift(base, offset, width);
    assert(bf_bit_addr(base, offset) >= 0);
    assert(0 <= bit < 8);
    assert(1 <= w <= 32);
    assert(1 <= n <= 5);
    assert(shift <= 7);
    let bytes = read_each(mem, start, n as nat).unwrap();
    lemma_read_each_len(mem, start, n as nat);
    lemma_be_value_bound(bytes);
    let ib = inserted_bytes(bytes, base, offset, width, value);
    let m2 = write_each(mem, start, ib).unwrap();
    lemma_write_each_read_back(mem, start, ib);
    assert(ib.len() == n);
    reveal_with_fuel(pow256, 6);
    let lim: u64 = if n == 1 {
        0x100
    } else if n == 2 {
        0x1_0000
    } else if n == 3 {
        0x100_0000
    } else if n == 4 {
        0x1_0000_0000
    } else {
        0x100_0000_0000
    };
    assert(lim == pow256(n as nat));
    let old = be_value(bytes) as u64;
    let mask = low_mask64(w);
    let data = (old & !(mask << shift)) | (((value as u64) & mask) << shift);
    lemma_field_store_load(old, value, shift as u64, w as u64, lim, mask, low_mask(w));
    assert(ib =~= Seq::new(n as nat, |i: int| (data >> (((n - 1 - i) * 8) as u64)) as u8));
    lemma_be_value_of_bytes(data, n as nat);
}

/// What `read_each` reads holds as many bytes as asked for.
proof fn lemma_read_each_len(mem: Seq<SegmentView>, start: int, k: nat)
    ensures
        read_each(mem, start, k) matches Ok(s) ==> s.len() == k,
    decreases k,
{
    if k > 0 {
        lemma_read_each_len(mem, start, (k - 1) as nat);
    }
}

/// The offset and width parameters do not name the data register a field is stored in.
pub open spec fn params_apart(mode: AddressingMode, offset: BitFieldParam, width: BitFieldParam) -> bool {
    match mode.ea {
        EffectiveAddress::Dr(r) => (offset matches BitFieldParam::Register(o) ==> o != r) && (
        width matches BitFieldParam::Register(w) ==> w != r),
        _ => true,
    }
}

/// An effective address other than a PC-relative indexed one, which may read a
/// pointer from memory, depends on the registers alone.
proof fn lemma_ea_keeps(m: CpuModel, m1: CpuModel, mode: AddressingMode, inst_addr: usize)
    requires
        !(mode.ea is PCIndex),
        m1.a == m.a,
        m1.d == m.d,
    ensures
        ea_spec(m1, mode, inst_addr) == ea_spec(m, mode, inst_addr),
{
    if let Some(ExtensionData::Index { ext_word, base_disp }) = mode.data {
        assert(index_value(m1, ext_word) == index_value(m, ext_word));
    }
}

/// BFEXTU right after BFINS, on the same operand, offset and width, reads back the
/// inserted bits: the low `width` bits of the source register, with condition codes
/// from them (Z where they are 0, V and C cleared). This holds for a data
/// register and for memory, wherever BFINS succeeds, as long as the offset and width
/// do not come from the register the field is stored in and the operand is not
/// PC-relative indexed (whose memory-indirect forms read the address from memory that
/// BFINS may just have overwritten).
#[verifier::rlimit(40)]
pub proof fn law_bfextu_reads_bfins(
    m: CpuModel,
    inst_addr: usize,
    src: DataReg,
    mode: AddressingMode,
    out: DataReg,
    offset: BitFieldParam,
    width: BitFieldParam,
)
    requires
        m.d.len() == 8,
        !(mode.ea is PCIndex),
        bf_width_of(m, width) <= 32,
        params_apart(mode, offset, width),
        bfins_spec(m, inst_addr, src, mode, offset, width) is Ok,
    ensures
        ({
            let m1 = bfins_spec(m, inst_addr, src, mode, offset, width)->Ok_0;
            let r = bfext_spec(m1, inst_addr, mode, out, offset, width, false);
            let v = m.d[dreg(src)] & low_mask(bf_width_of(m, width));
            &&& r is Ok
            &&& r->Ok_0.d[dreg(out)] == v
            &&& r->Ok_0.sr == bf_sr(m1.sr, v, bf_width_of(m, width))
        }),
{
    let off = bf_offset(m, offset);
    let w = bf_width_of(m, width);
    let v = m.d[dreg(src)];
    let m0 = bf_store_spec(m, inst_addr, mode, off, w, v)->Ok_0;
    let m1 = bfins_spec(m, inst_addr, src, mode, offset, width)->Ok_0;
    assert(bf_width(w) == w);
    assert(bf_offset(m1, offset) == off);
    assert(bf_width_of(m1, width) == w);
    match mode.ea {
        EffectiveAddress::Dr(r) => {
            law_extract_after_insert(m.d[dreg(r)], v, (off as u32) % 32, w);
        },
        _ => {
            assert(m1.a == m.a && m1.d == m.d);
            lemma_ea_keeps(m, m1, mode, inst_addr);
            let addr = ea_spec(m, mode, inst_addr)->Ok_0;
            law_memory_extract_after_insert(m.mem, addr as u32, off, w, v);
        },
    }
}

/// Masking twice is masking once, and complementing twice within a mask gives the
/// masked value back.
proof fn lemma_mask_twice(x: u32, m: u32)
    by (bit_vector)
    ensures
        (x & m) & m == x & m,
        !((!x & m) & m) & m == x & m,
{
}

/// A field as read holds no bits above its width.
proof fn lemma_field_within_width(m: CpuModel, inst_addr: usize, mode: AddressingMode, off: i32, w: u32)
    requires
        bf_field_spec(m, inst_addr, mode, off, w) is Ok,
    ensures
        bf_field_spec(m, inst_addr, mode, off, w)->Ok_0 & low_mask(bf_width(w)) == bf_field_spec(
            m,
            inst_addr,
            mode,
            off,
            w,
        )->Ok_0,
{
    let lm = low_mask(bf_width(w));
    match mode.ea {
        EffectiveAddress::Dr(r) => {
            let o = ((off as u32) % 32) % 32;
            lemma_mask_twice(rotl(m.d[dreg(r)], o) >> ((32 - bf_width(w)) as u32), lm);
        },
        _ => {
            let addr = ea_spec(m, mode, inst_addr)->Ok_0;
            let (start, bit, n) = bf_span(addr as u32, off, w);
            let bytes = read_each(m.mem, start, n as nat)->Ok_0;
            lemma_mask_twice(((be_value(bytes) as u64) >> bf_shift(addr as u32, off, w)) as u32, lm);
        },
    }
}

/// The field of an operand after a store into that operand's field is the stored value
/// cut to the width; the condition codes do not matter.
proof fn lemma_field_after_store(m: CpuModel, inst_addr: usize, mode: AddressingMode, off: i32, w: u32, value: u32, sr: u16)
    requires
        m.d.len() == 8,
        !(mode.ea is PCIndex),
        1 <= w <= 32,
        bf_store_spec(m, inst_addr, mode, off, w, value) is Ok,
    ensures
        bf_field_spec(bf_store_spec(m, inst_addr, mode, off, w, value)->Ok_0.with_sr(sr), inst_addr, mode, off, w)
            == Ok::<u32, CpuError>(value & low_mask(w)),
{
    let m1 = bf_store_spec(m, inst_addr, mode, off, w, value)->Ok_0.with_sr(sr);
    assert(bf_width(w) == w);
    match mode.ea {
        EffectiveAddress::Dr(r) => {
            law_extract_after_insert(m.d[dreg(r)], value, (off as u32) % 32, w);
        },
        _ => {
            assert(m1.a == m.a && m1.d == m.d);
            lemma_ea_keeps(m, m1, mode, inst_addr);
            let addr = ea_spec(m, mode, inst_addr)->Ok_0;
            law_memory_extract_after_insert(m.mem, addr as u32, off, w, value);
        },
    }
}

/// Writing one byte is updating one element of the segment that holds it.
proof fn lemma_byte_write(mem: Seq<SegmentView>, a: int, x: u8)
    requires
        mem_write(mem, a, seq![x]) is Some,
    ensures
        ({
            let i = find_cover(mem, a, 1).unwrap();
            let s = mem[i];
            &&& 0 <= i < mem.len()
            &&& seg_covers(s, a, 1)
            &&& mem_write(mem, a, seq![x]).unwrap() == mem.update(
                i,
                SegmentView { bytes: s.bytes.update(a - s.vaddr, x), ..s },
            )
        }),
{
    lemma_find_cover_from(mem, a, 1, 0);
    let i = find_cover(mem, a, 1).unwrap();
    let s = mem[i];
    assert(splice(s.bytes, a - s.vaddr, seq![x]) =~= s.bytes.update(a - s.vaddr, x));
}

/// A byte written twice holds the second value.
proof fn lemma_byte_overwrite(mem: Seq<SegmentView>, a: int, x: u8, y: u8)
    requires
        mem_write(mem, a, seq![x]) is Some,
    ensures
        mem_write(mem_write(mem, a, seq![x]).unwrap(), a, seq![y]) == mem_write(mem, a, seq![y]),
{
    let m1 = mem_write(mem, a, seq![x]).unwrap();
    lemma_write_same_layout(mem, a, seq![x]);
    lemma_find_cover_same_layout(mem, m1, a, 1, 0);
    lemma_byte_write(mem, a, x);
    lemma_byte_write(mem, a, y);
    lemma_byte_write(m1, a, y);
    let i = find_cover(mem, a, 1).unwrap();
    let s = mem[i];
    assert(s.bytes.update(a - s.vaddr, x).update(a - s.vaddr, y) =~= s.bytes.update(a - s.vaddr, y));
    assert(mem_write(m1, a, seq![y]).unwrap() =~= mem_write(mem, a, seq![y]).unwrap());
}

/// Writes of single bytes at two different addresses can be made in either order.
proof fn lemma_byte_writes_commute(mem: Seq<SegmentView>, a: int, x: u8, b: int, y: u8)
    requires
        a != b,
        mem_write(mem, a, seq![x]) is Some,
        mem_write(mem, b, seq![y]) is Some,
    ensures
        mem_write(mem_write(mem, a, seq![x]).unwrap(), b, seq![y]) is Some,
        mem_write(mem_write(mem, b, seq![y]).unwrap(), a, seq![x]) is Some,
        mem_write(mem_write(mem, a, seq![x]).unwrap(), b, seq![y]) == mem_write(
            mem_write(mem, b, seq![y]).unwrap(),
            a,
            seq![x],
        ),
{
    let ma = mem_write(mem, a, seq![x]).unwrap();
    let mb = mem_write(mem, b, seq![y]).unwrap();
    lemma_write_same_layout(mem, a, seq![x]);
    lemma_write_same_layout(mem, b, seq![y]);
    lemma_find_cover_same_layout(mem, ma, b, 1, 0);
    lemma_find_cover_same_layout(mem, mb, a, 1, 0);
    lemma_byte_write(mem, a, x);
    lemma_byte_write(mem, b, y);
    lemma_byte_write(ma, b, y);
    lemma_byte_write(mb, a, x);
    let i = find_cover(mem, a, 1).unwrap();
    let j = find_cover(mem, b, 1).unwrap();
    let si = mem[i];
    let sj = mem[j];
    if i == j {
        assert(si.bytes.update(a - si.vaddr, x).update(b - si.vaddr, y) =~= si.bytes.update(b - si.vaddr, y).update(
            a - si.vaddr,
            x,
        ));
    }
    assert(mem_write(ma, b, seq![y]).unwrap() =~= mem_write(mb, a, seq![x]).unwrap());
}

/// Writing back the byte a memory holds leaves it as it was.
proof fn lemma_byte_rewrite(mem: Seq<SegmentView>, a: int, r: Seq<u8>)
    requires
        mem_read(mem, a, 1) == Some(r),
    ensures
        mem_write(mem, a, seq![r[0]]) == Some(mem),
{
    lemma_find_cover_from(mem, a, 1, 0);
    lemma_byte_write(mem, a, r[0]);
    let i = find_cover(mem, a, 1).unwrap();
    let s = mem[i];
    assert(s.bytes.update(a - s.vaddr, r[0]) =~= s.bytes);
    assert(mem.update(i, SegmentView { bytes: s.bytes.update(a - s.vaddr, r[0]), ..s }) =~= mem);
}

/// Writing bytes one by one and then one of them again is writing the changed bytes.
proof fn lemma_write_each_then_byte(mem: Seq<SegmentView>, start: int, data: Seq<u8>, k: int, y: u8)
    requires
        write_each(mem, start, data) is Ok,
        0 <= k < data.len(),
    ensures
        mem_write(write_each(mem, start, data).unwrap(), start + k, seq![y]) is Some,
        write_each(mem, start, data.update(k, y)) == Ok::<Seq<SegmentView>, CpuError>(
            mem_write(write_each(mem, start, data).unwrap(), start + k, seq![y]).unwrap(),
        ),
    decreases data.len(),
{
    let n = data.len();
    let front = data.drop_last();
    let last = start + n - 1;
    assert(write_each(mem, start, front) is Ok);
    let w1 = write_each(mem, start, front).unwrap();
    let w = write_each(mem, start, data).unwrap();
    assert(w == mem_write(w1, last, seq![data.last()]).unwrap());
    lemma_write_same_layout(w1, last, seq![data.last()]);
    assert(data.update(k, y).drop_last() =~= if k == n - 1 { front } else { front.update(k, y) });
    if k == n - 1 {
        lemma_byte_write(w1, last, data.last());
        lemma_find_cover_same_layout(w1, w, last, 1, 0);
        lemma_byte_overwrite(w1, last, data.last(), y);
        lemma_byte_write(w, last, y);
        assert(data.update(k, y).last() == y);
    } else {
        lemma_write_each_then_byte(mem, start, front, k, y);
        let w2 = mem_write(w1, start + k, seq![y]).unwrap();
        lemma_byte_writes_commute(w1, last, data.last(), start + k, y);
        assert(data.update(k, y).last() == data.last());
        assert(write_each(mem, start, front.update(k, y)) == Ok::<Seq<SegmentView>, CpuError>(w2));
    }
}

/// Bytes written from `start` and then overwritten from `start` by a run no longer
/// than the first hold the second run followed by the rest of the first.
proof fn lemma_write_each_twice(mem: Seq<SegmentView>, start: int, first: Seq<u8>, second: Seq<u8>)
    requires
        write_each(mem, start, first) is Ok,
        second.len() <= first.len(),
    ensures
        write_each(write_each(mem, start, first).unwrap(), start, second) == write_each(
            mem,
            start,
            second + first.skip(second.len() as int),
        ),
        write_each(mem, start, second + first.skip(second.len() as int)) is Ok,
    decreases second.len(),
{
    if second.len() == 0 {
        assert(second + first.skip(0) =~= first);
    } else {
        let k = second.len() - 1;
        let front = second.drop_last();
        lemma_write_each_twice(mem, start, first, front);
        let d = front + first.skip(k);
        lemma_write_each_then_byte(mem, start, d, k, second.last());
        assert(d.update(k, second.last()) =~= second + first.skip(second.len() as int));
    }
}

/// Writing back, byte by byte, the bytes a memory holds leaves it as it was.
proof fn lemma_write_each_rewrite(mem: Seq<SegmentView>, start: int, n: nat)
    requires
        read_each(mem, start, n) is Ok,
    ensures
        write_each(mem, start, read_each(mem, start, n).unwrap()) == Ok::<Seq<SegmentView>, CpuError>(mem),
    decreases n,
{
    if n > 0 {
        let r = read_each(mem, start, n).unwrap();
        assert(read_each(mem, start, (n - 1) as nat) is Ok);
        lemma_write_each_rewrite(mem, start, (n - 1) as nat);
        let front = read_each(mem, start, (n - 1) as nat).unwrap();
        let b = mem_read(mem, start + n - 1, 1).unwrap();
        assert(r == front.push(b[0]));
        lemma_read_each_len(mem, start, n);
        assert(r.len() == n && r.last() == b[0]);
        assert(r.drop_last() =~= front);
        lemma_byte_rewrite(mem, start + n - 1, b);
        assert(write_each(mem, start, r.drop_last()) == Ok::<Seq<SegmentView>, CpuError>(mem));
    }
}

/// The bit facts of storing into a field of a 64-bit value: a second store replaces
/// the first, storing a value's own field leaves it as it was, and a store looks only
/// at the field's width of the stored value.
proof fn lemma_field_store_facts(old: u64, v1: u32, v2: u32, c: u32, f: u32, shift: u64, w: u64, mask: u64, m32: u32)
    by (bit_vector)
    requires
        1 <= w <= 32,
        shift <= 7,
        mask == (if w >= 32 {
            0xFFFF_FFFFu64
        } else {
            ((1u64 << w) - 1) as u64
        }),
        m32 == (if w >= 32 {
            0xFFFF_FFFFu32
        } else {
            ((1u32 << (w as u32)) - 1) as u32
        }),
        c & m32 == f & m32,
    ensures
        ((((old & !(mask << shift)) | (((v1 as u64) & mask) << shift)) & !(mask << shift)) | (((v2 as u64) & mask)
            << shift)) == (old & !(mask << shift)) | (((v2 as u64) & mask) << shift),
        (old & !(mask << shift)) | ((((((old >> shift) as u32) & m32) as u64) & mask) << shift) == old,
        (c as u64) & mask == (f as u64) & mask,
{
}

/// The big-endian bytes of the value of a short run of bytes are those bytes.
proof fn lemma_bytes_of_be_value(bytes: Seq<u8>)
    requires
        bytes.len() <= 6,
    ensures
        Seq::new(bytes.len(), |i: int| ((be_value(bytes) as u64) >> (((bytes.len() - 1 - i) * 8) as u64)) as u8)
            =~= bytes,
    decreases bytes.len(),
{
    let n = bytes.len();
    if n > 0 {
        let front = bytes.drop_last();
        lemma_bytes_of_be_value(front);
        lemma_be_value_bound(bytes);
        lemma_be_value_bound(front);
        reveal_with_fuel(pow256, 7);
        let d = be_value(bytes) as u64;
        let e = be_value(front) as u64;
        lemma_byte_shifts(d, 0);
        assert(e == d >> 8u64);
        assert forall|i: int| 0 <= i < n implies ((d >> (((n - 1 - i) * 8) as u64)) as u8) == bytes[i] by {
            if i < n - 1 {
                lemma_byte_shifts(d, ((n - 2 - i) * 8) as u64);
                assert(((n - 1 - i) * 8) as u64 == ((n - 2 - i) * 8) as u64 + 8);
                assert(front[i] == bytes[i]);
            } else {
                assert(((n - 1 - i) * 8) as u64 == 0u64);
            }
        }
    }
}

/// A memory bit field stored into, and then stored into again with the low bits of
/// its original value, leaves memory as it was.
proof fn lemma_mem_insert_restores(mem: Seq<SegmentView>, base: u32, offset: i32, width: u32, v1: u32, v2: u32)
    requires
        mem_insert_spec(mem, base, offset, width, v1) is Ok,
        mem_insert_spec(mem_insert_spec(mem, base, offset, width, v1).unwrap(), base, offset, width, v2) is Ok,
        v2 & low_mask(bf_width(width)) == mem_extract_spec(mem, base, offset, width)->Ok_0 & low_mask(
            bf_width(width),
        ),
    ensures
        mem_insert_spec(mem_insert_spec(mem, base, offset, width, v1).unwrap(), base, offset, width, v2) == Ok::<
            Seq<SegmentView>,
            CpuError,
        >(mem),
{
    let (start, bit, n) = bf_span(base, offset, width);
    let w = bf_width(width);
    let shift = bf_shift(base, offset, width);
    assert(bf_bit_addr(base, offset) >= 0);
    assert(1 <= w <= 32);
    assert(1 <= n <= 5);
    assert(shift <= 7);
    let bytes = read_each(mem, start, n as nat).unwrap();
    lemma_read_each_len(mem, start, n as nat);
    lemma_be_value_bound(bytes);
    reveal_with_fuel(pow256, 6);
    let lim: u64 = if n == 1 {
        0x100
    } else if n == 2 {
        0x1_0000
    } else if n == 3 {
        0x100_0000
    } else if n == 4 {
        0x1_0000_0000
    } else {
        0x100_0000_0000
    };
    assert(lim == pow256(n as nat));
    let old = be_value(bytes) as u64;
    let mask = low_mask64(w);
    let m32 = low_mask(w);
    let f = ((old >> shift as u64) as u32) & m32;
    let ib1 = inserted_bytes(bytes, base, offset, width, v1);
    let data1 = (old & !(mask << shift)) | (((v1 as u64) & mask) << shift);
    lemma_field_store_load(old, v1, shift as u64, w as u64, lim, mask, m32);
    assert(ib1 =~= Seq::new(n as nat, |i: int| (data1 >> (((n - 1 - i) * 8) as u64)) as u8));
    lemma_be_value_of_bytes(data1, n as nat);
    let mem1 = write_each(mem, start, ib1).unwrap();
    lemma_write_each_read_back(mem, start, ib1);
    assert(read_each(mem1, start, n as nat) == Ok::<Seq<u8>, CpuError>(ib1));
    let ib2 = inserted_bytes(ib1, base, offset, width, v2);
    lemma_field_store_facts(old, v1, v2, v2, f, shift as u64, w as u64, mask, m32);
    lemma_bytes_of_be_value(bytes);
    assert(ib2 =~= bytes);
    lemma_write_each_twice(mem, start, ib1, ib2);
    assert(ib2 + ib1.skip(ib2.len() as int) =~= bytes);
    lemma_write_each_rewrite(mem, start, n as nat);
}

/// BFCHG applied twice to the same operand, offset and width gives the field its
/// old value back and leaves every register and all of memory as it was; the second one's condition
/// codes describe the inverted field (V and C cleared). This holds wherever both
/// succeed, as long as the offset and width do not come from the register the field
/// is in and the operand is not PC-relative indexed.
#[verifier::rlimit(40)]
pub proof fn law_bfchg_twice_restores_field(
    m: CpuModel,
    inst_addr: usize,
    mode: AddressingMode,
    offset: BitFieldParam,
    width: BitFieldParam,
)
    requires
        m.d.len() == 8,
        !(mode.ea is PCIndex),
        bf_width_of(m, width) <= 32,
        params_apart(mode, offset, width),
        bf_rewrite_spec(m, inst_addr, mode, offset, width, |f: u32, w: u32| bf_complement(f, w)) is Ok,
        bf_rewrite_spec(
            bf_rewrite_spec(m, inst_addr, mode, offset, width, |f: u32, w: u32| bf_complement(f, w))->Ok_0,
            inst_addr,
            mode,
            offset,
            width,
            |f: u32, w: u32| bf_complement(f, w),
        ) is Ok,
    ensures
        ({
            let chg = |f: u32, w: u32| bf_complement(f, w);
            let m1 = bf_rewrite_spec(m, inst_addr, mode, offset, width, chg)->Ok_0;
            let m2 = bf_rewrite_spec(m1, inst_addr, mode, offset, width, chg)->Ok_0;
            let w = bf_width_of(m, width);
            let f = bf_field_spec(m, inst_addr, mode, bf_offset(m, offset), w)->Ok_0;
            &&& bf_field_spec(m2, inst_addr, mode, bf_offset(m2, offset), bf_width_of(m2, width)) == bf_field_spec(
                m,
                inst_addr,
                mode,
                bf_offset(m, offset),
                w,
            )
            &&& m2.d == m.d
            &&& m2.a == m.a
            &&& m2.mem == m.mem
            &&& m2.sr == bf_sr(m1.sr, bf_complement(f, w), w)
        }),
{
    let chg = |f: u32, w: u32| bf_complement(f, w);
    let off = bf_offset(m, offset);
    let w = bf_width_of(m, width);
    let lm = low_mask(w);
    let f0 = bf_field_spec(m, inst_addr, mode, off, w)->Ok_0;
    let c0 = bf_complement(f0, w);
    let s1 = bf_store_spec(m, inst_addr, mode, off, w, c0)->Ok_0;
    let m1 = bf_rewrite_spec(m, inst_addr, mode, offset, width, chg)->Ok_0;
    assert(m1 == s1.with_sr(bf_sr(s1.sr, f0, w)));
    assert(s1.d.len() == 8);
    assert(bf_offset(m1, offset) == off && bf_width_of(m1, width) == w);
    lemma_field_after_store(m, inst_addr, mode, off, w, c0, bf_sr(s1.sr, f0, w));
    let f1 = c0 & lm;
    let c1 = bf_complement(f1, w);
    let s2 = bf_store_spec(m1, inst_addr, mode, off, w, c1)->Ok_0;
    let m2 = bf_rewrite_spec(m1, inst_addr, mode, offset, width, chg)->Ok_0;
    assert(m2 == s2.with_sr(bf_sr(s2.sr, f1, w)));
    assert(m1.d.len() == 8);
    assert(bf_offset(m2, offset) == off && bf_width_of(m2, width) == w);
    lemma_field_after_store(m1, inst_addr, mode, off, w, c1, bf_sr(s2.sr, f1, w));
    lemma_mask_twice(f0, lm);
    lemma_mask_twice(!f0, lm);
    lemma_mask_twice(!(!f0 & lm), lm);
    assert(bf_width(w) == w);
    lemma_field_within_width(m, inst_addr, mode, off, w);
    assert(f1 == c0);
    assert(c1 & lm == f0);
    if let EffectiveAddress::Dr(r) = mode.ea {
        let i = dreg(r);
        let o = (off as u32) % 32;
        let d = m.d[i];
        law_insert_twice(d, c0, c1, o, w);
        law_insert_extracted(d, o, w);
        assert(insert_spec(d, c1, o, w) == insert_spec(d, f0, o, w));
        assert(m2.d =~= m.d);
    } else {
        assert(m1.a == m.a && m1.d == m.d);
        lemma_ea_keeps(m, m1, mode, inst_addr);
        let addr = ea_spec(m, mode, inst_addr)->Ok_0;
        lemma_mem_insert_restores(m.mem, addr as u32, off, w, c0, c1);
    }
}

} // verus!
