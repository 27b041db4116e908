//! Laws of the processor: what one operation undoes of another, what every
//! operation keeps, and how the condition codes of related instructions agree.

use vstd::prelude::*;

use crate::alu::{rotl, sized};
use crate::cpu::flags::{compare_sr, sub_borrow, sub_sr};
use crate::cpu::logic::{exg_spec, push_spec, swap_spec};
use crate::cpu::muldiv::{abs_int, trunc_div, trunc_rem};
use crate::cpu::operand::{read_sized_spec, wrap_add, wrap_sub, write_sized_spec};
use crate::cpu::guest_data::{kernel_result, open_flags_spec};
use crate::cpu::syscall::{brk_spec, alloc_spec, page_len};
use crate::cpu::{condition_holds, with_flag, CpuModel, FLAG_X};
use crate::decoder::{Condition, DataReg, Exg, Size};
use crate::memory::{
    be_u16, find_cover, find_cover_from, lemma_be_u16_roundtrip, lemma_be_u32_roundtrip, lemma_find_cover_from,
    lemma_read_after_write, mem_read, range_free, seg_covers, SegmentView,
};

verus! {

/// The condition that holds exactly where `c` does not.
pub open spec fn negated(c: Condition) -> Condition {
    match c {
        Condition::True => Condition::False,
        Condition::False => Condition::True,
        Condition::Higher => Condition::LowerOrSame,
        Condition::LowerOrSame => Condition::Higher,
        Condition::CarryClear => Condition::CarrySet,
        Condition::CarrySet => Condition::CarryClear,
        Condition::NotEqual => Condition::Equal,
        Condition::Equal => Condition::NotEqual,
        Condition::OverflowClear => Condition::OverflowSet,
        Condition::OverflowSet => Condition::OverflowClear,
        Condition::Plus => Condition::Minus,
        Condition::Minus => Condition::Plus,
        Condition::GreaterOrEqual => Condition::LessThan,
        Condition::LessThan => Condition::GreaterOrEqual,
        Condition::GreaterThan => Condition::LessOrEqual,
        Condition::LessOrEqual => Condition::GreaterThan,
    }
}

/// The sixteen branch conditions come in complementary pairs: for any status
/// register, a condition holds exactly where its partner does not.
pub proof fn law_condition_complement(sr: u16, c: Condition)
    ensures
        condition_holds(sr, negated(c)) == !condition_holds(sr, c),
        negated(negated(c)) == c,
{
}

/// A compare leaves the condition codes a subtraction of the same operands leaves,
/// except that it keeps X.
pub proof fn law_compare_is_subtract(sr: u16, dst: u32, src: u32, size: Size)
    ensures
        sub_sr(sr, dst, src, size) == with_flag(compare_sr(sr, dst, src, size), FLAG_X, sub_borrow(dst, src, size)),
{
}

/// A value written at a size reads back, at that size, as the low part of the value.
pub proof fn law_read_after_write(mem: Seq<SegmentView>, addr: usize, size: Size, value: u32)
    requires
        write_sized_spec(mem, addr, size, value) is Ok,
    ensures
        read_sized_spec(write_sized_spec(mem, addr, size, value)->Ok_0, addr, size) == Ok::<u32, crate::error::CpuError>(
            sized(value, size),
        ),
{
    let bytes = crate::cpu::operand::sized_bytes(value, size);
    lemma_read_after_write(mem, addr as int, bytes);
    match size {
        Size::Byte => {},
        Size::Word => {
            lemma_be_u16_roundtrip((value % 0x1_0000) as u16);
        },
        Size::Long => {
            lemma_be_u32_roundtrip(value);
        },
    }
}

/// Popping right after a push gives back the pushed long and the stack pointer as it
/// was.
pub proof fn law_pop_after_push(m: CpuModel, value: u32)
    requires
        m.a.len() == 8,
        push_spec(m, value) is Ok,
    ensures
        ({
            let m1 = push_spec(m, value)->Ok_0;
            &&& read_sized_spec(m1.mem, m1.a[7] as usize, Size::Long) == Ok::<u32, crate::error::CpuError>(value)
            &&& wrap_add(m1.a[7], 4) == m.a[7]
        }),
{
    let sp = wrap_sub(m.a[7], 4);
    law_read_after_write(m.mem, sp as usize, Size::Long, value);
}

/// SWAP twice gives the registers back.
pub proof fn law_swap_twice(m: CpuModel, reg: DataReg)
    requires
        m.d.len() == 8,
    ensures
        swap_spec(swap_spec(m, reg), reg).d == m.d,
{
    let i = crate::alu::dreg(reg);
    let v = m.d[i];
    assert(rotl(rotl(v, 16), 16) == v) by (bit_vector);
    assert(swap_spec(swap_spec(m, reg), reg).d =~= m.d);
}

/// EXG twice gives the state back.
pub proof fn law_exg_twice(m: CpuModel, exg: Exg)
    requires
        m.d.len() == 8,
        m.a.len() == 8,
    ensures
        exg_spec(exg_spec(m, exg), exg) == m,
{
    let m2 = exg_spec(exg_spec(m, exg), exg);
    assert(m2.d =~= m.d);
    assert(m2.a =~= m.a);
    assert(m2 =~= m);
}

/// Signed division rounds toward zero: quotient times divisor plus remainder is the
/// dividend, the remainder is smaller than the divisor and has the dividend's sign.
pub proof fn law_signed_division(a: int, b: int)
    requires
        b != 0,
    ensures
        trunc_div(a, b) * b + trunc_rem(a, b) == a,
        abs_int(trunc_rem(a, b)) < abs_int(b),
        trunc_rem(a, b) == 0 || (trunc_rem(a, b) < 0) == (a < 0),
{
    let x = abs_int(a);
    let y = abs_int(b);
    vstd::arithmetic::div_mod::lemma_fundamental_div_mod(x, y);
    vstd::arithmetic::div_mod::lemma_mod_bound(x, y);
    let q = x / y;
    let r = x % y;
    assert(x == y * q + r);
    if a < 0 && b < 0 {
        assert(q * b + (-r) == a) by (nonlinear_arith)
            requires
                x == y * q + r,
                x == -a,
                y == -b,
        ;
    } else if a < 0 {
        assert((-q) * b + (-r) == a) by (nonlinear_arith)
            requires
                x == y * q + r,
                x == -a,
                y == b,
        ;
    } else if b < 0 {
        assert((-q) * b + r == a) by (nonlinear_arith)
            requires
                x == y * q + r,
                x == a,
                y == -b,
        ;
    } else {
        assert(q * b + r == a) by (nonlinear_arith)
            requires
                x == y * q + r,
                x == a,
                y == b,
        ;
    }
}

/// The program break never goes below its start: brk keeps `brk >= brk_base`, leaves
/// the start where it is, and answers with the break it leaves.
pub proof fn law_brk_stays_above_base(m: CpuModel)
    requires
        m.brk >= m.brk_base,
        brk_spec(m) is Ok,
    ensures
        ({
            let (m1, r) = brk_spec(m)->Ok_0;
            &&& m1.brk >= m1.brk_base
            &&& m1.brk_base == m.brk_base
            &&& r == m1.brk as i64
        }),
{
}

/// The open flags the m68k and x86-64 ABIs share pass through unchanged.
pub proof fn law_open_flags_keep_common(f: i32)
    ensures
        open_flags_spec(f) & 0o037777 == f & 0o037777,
        open_flags_spec(f) & 0o2000000 == f & 0o2000000,
{
    assert(((f & 0o037777) | (if f & 0o040000 != 0 {
        0o200000i32
    } else {
        0
    }) | (if f & 0o100000 != 0 {
        0o400000i32
    } else {
        0
    }) | (if f & 0o200000 != 0 {
        0o040000i32
    } else {
        0
    }) | (if f & 0o400000 != 0 {
        0o100000i32
    } else {
        0
    }) | (f & 0o2000000)) & 0o037777 == f & 0o037777) by (bit_vector);
    assert(((f & 0o037777) | (if f & 0o040000 != 0 {
        0o200000i32
    } else {
        0
    }) | (if f & 0o100000 != 0 {
        0o400000i32
    } else {
        0
    }) | (if f & 0o200000 != 0 {
        0o040000i32
    } else {
        0
    }) | (if f & 0o400000 != 0 {
        0o100000i32
    } else {
        0
    }) | (f & 0o2000000)) & 0o2000000 == f & 0o2000000) by (bit_vector);
}

/// A host result other than -1 is kept; -1 with an error number `e` becomes `-e`.
pub proof fn law_kernel_result(result: i64, errno: Option<i32>)
    ensures
        result != -1 ==> kernel_result(result, errno) == result,
        result == -1 && errno is Some ==> kernel_result(result, errno) == -(errno->Some_0 as int),
{
}

/// Where no segment overlaps a range, the first segment holding it in a list with a
/// new segment appended is the new one.
proof fn lemma_cover_appended(segs: Seq<SegmentView>, s: SegmentView, addr: int, len: int, k: int)
    requires
        0 <= k <= segs.len(),
        len > 0,
        forall|i: int| 0 <= i < segs.len() ==> !crate::memory::overlaps(#[trigger] segs[i], addr, len),
        seg_covers(s, addr, len),
    ensures
        find_cover_from(segs.push(s), addr, len, k) == Some(segs.len() as int),
    decreases segs.len() - k,
{
    if k < segs.len() {
        assert(segs.push(s)[k] == segs[k]);
        assert(!crate::memory::overlaps(segs[k], addr, len));
        lemma_cover_appended(segs, s, addr, len, k + 1);
    } else {
        assert(segs.push(s)[k] == s);
    }
}

/// An anonymous mapping placed by the interpreter reads as zeros: the new range is
/// whole pages, free before, and every byte of it is 0.
pub proof fn law_fresh_mapping_is_zero(m: CpuModel, length: usize, prot: i32)
    requires
        alloc_spec(m, 0, length, prot) is Ok,
        page_len(length) > 0,
    ensures
        ({
            let (m1, a) = alloc_spec(m, 0, length, prot)->Ok_0;
            &&& range_free(m.mem, a as int, page_len(length))
            &&& mem_read(m1.mem, a as int, page_len(length)) == Some(Seq::new(page_len(length) as nat, |_i: int| 0u8))
        }),
{
    let len = page_len(length);
    crate::memory::lemma_free_range_from(m.mem, len, 0);
    let c = crate::memory::free_range_from(m.mem, len, 0)->Some_0;
    let s = SegmentView {
        vaddr: c,
        bytes: Seq::new(len as nat, |_i: int| 0u8),
        flags: crate::cpu::syscall::anon_flags(prot),
        align: 4096,
    };
    lemma_cover_appended(m.mem, s, c, len, 0);
    let (m1, a) = alloc_spec(m, 0, length, prot)->Ok_0;
    assert(m1.mem == m.mem.push(s));
    assert(a as int == c);
    assert(m1.mem[m.mem.len() as int] == s);
    assert(s.bytes.subrange(0, len) =~= s.bytes);
}

/// The first-cover search on a list with a segment appended finds what it found
/// before, where it found anything.
proof fn lemma_cover_kept(segs: Seq<SegmentView>, s: SegmentView, addr: int, len: int, k: int)
    requires
        0 <= k,
        find_cover_from(segs, addr, len, k) is Some,
    ensures
        find_cover_from(segs.push(s), addr, len, k) == find_cover_from(segs, addr, len, k),
    decreases segs.len() - k,
{
    if k < segs.len() {
        assert(segs.push(s)[k] == segs[k]);
        if !seg_covers(segs[k], addr, len) {
            lemma_cover_kept(segs, s, addr, len, k + 1);
        }
    }
}

/// Mapping a new segment leaves every readable range of the old address space
/// reading as before.
pub proof fn law_mapping_keeps_memory(segs: Seq<SegmentView>, s: SegmentView, addr: int, len: int)
    requires
        mem_read(segs, addr, len) is Some,
    ensures
        mem_read(segs.push(s), addr, len) == mem_read(segs, addr, len),
{
    lemma_cover_kept(segs, s, addr, len, 0);
    lemma_find_cover_from(segs, addr, len, 0);
    let i = find_cover(segs, addr, len)->Some_0;
    assert(segs.push(s)[i] == segs[i]);
}

} // verus!
