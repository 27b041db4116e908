//! Laws that say what instructions compute, stated in terms of the numbers they work
//! on: which comparisons the branch conditions decide after a compare, where DIVU
//! puts its quotient and remainder, which register an index word names, what EXT
//! extends, and which bit BFFFO finds.

use vstd::prelude::*;

use crate::alu::{dreg, modulus, msb, sized};
use crate::cpu::bitfield::{bf_sign_extend, first_one};
use crate::cpu::control::{branch_target, dbcc_spec};
use crate::alu::{bf_width, extract_spec, insert_spec, low_mask, rotl, rotr};
use crate::cpu::flags::{
    add_sr, add_value, addx_sr, addx_value, arith_sr, compare_sr, extend_sr, sub_borrow, sub_overflow, sub_sr,
    sub_value, subx_sr, subx_value,
};
use crate::cpu::logic::{ext_value, swap_spec};
use crate::cpu::muldiv::{divu_spec, divul_spec, muls_spec, mulu_spec};
use crate::cpu::operand::{index_value, read_operand_spec, read_word_spec};
use crate::cpu::{condition_holds, flag, law_flag_independent, with_flag, CpuModel, FLAG_C, FLAG_N, FLAG_V, FLAG_X, FLAG_Z};
use crate::decoder::{AddressingMode, Condition, DataReg, ExtMode, Instruction, Size};

verus! {

/// Each branch condition as the 68000 defines it over the condition-code bits of the
/// status register (C is bit 0, V bit 1, Z bit 2, N bit 3).
pub proof fn law_condition_tests(sr: u16)
    ensures
        ({
            let c = sr & 0x0001 != 0;
            let v = sr & 0x0002 != 0;
            let z = sr & 0x0004 != 0;
            let n = sr & 0x0008 != 0;
            &&& condition_holds(sr, Condition::True)
            &&& !condition_holds(sr, Condition::False)
            &&& condition_holds(sr, Condition::Higher) == (!c && !z)
            &&& condition_holds(sr, Condition::LowerOrSame) == (c || z)
            &&& condition_holds(sr, Condition::CarryClear) == !c
            &&& condition_holds(sr, Condition::CarrySet) == c
            &&& condition_holds(sr, Condition::NotEqual) == !z
            &&& condition_holds(sr, Condition::Equal) == z
            &&& condition_holds(sr, Condition::OverflowClear) == !v
            &&& condition_holds(sr, Condition::OverflowSet) == v
            &&& condition_holds(sr, Condition::Plus) == !n
            &&& condition_holds(sr, Condition::Minus) == n
            &&& condition_holds(sr, Condition::GreaterOrEqual) == (n == v)
            &&& condition_holds(sr, Condition::LessThan) == (n != v)
            &&& condition_holds(sr, Condition::GreaterThan) == (!z && n == v)
            &&& condition_holds(sr, Condition::LessOrEqual) == (z || n != v)
        }),
{
}

/// The condition codes a compare leaves.
proof fn lemma_compare_flags(sr: u16, dst: u32, src: u32, size: Size)
    ensures
        ({
            let s = compare_sr(sr, dst, src, size);
            let r = sub_value(dst, src, size);
            &&& flag(s, FLAG_N) == msb(r, size)
            &&& flag(s, FLAG_Z) == (r == 0)
            &&& flag(s, FLAG_V) == sub_overflow(dst, src, size)
            &&& flag(s, FLAG_C) == sub_borrow(dst, src, size)
        }),
{
    let r = sub_value(dst, src, size);
    let s1 = with_flag(sr, FLAG_N, msb(r, size));
    let s2 = with_flag(s1, FLAG_Z, r == 0);
    let s3 = with_flag(s2, FLAG_V, sub_overflow(dst, src, size));
    let c = sub_borrow(dst, src, size);
    law_flag_independent(s3, FLAG_C, c, FLAG_C);
    law_flag_independent(s3, FLAG_C, c, FLAG_V);
    law_flag_independent(s3, FLAG_C, c, FLAG_Z);
    law_flag_independent(s3, FLAG_C, c, FLAG_N);
    law_flag_independent(s2, FLAG_V, sub_overflow(dst, src, size), FLAG_V);
    law_flag_independent(s2, FLAG_V, sub_overflow(dst, src, size), FLAG_Z);
    law_flag_independent(s2, FLAG_V, sub_overflow(dst, src, size), FLAG_N);
    law_flag_independent(s1, FLAG_Z, r == 0, FLAG_Z);
    law_flag_independent(s1, FLAG_Z, r == 0, FLAG_N);
    law_flag_independent(sr, FLAG_N, msb(r, size), FLAG_N);
}

/// The low `size` part of a value read as a two's-complement number.
pub open spec fn signed_of(v: u32, size: Size) -> int {
    if sized(v, size) >= modulus(size) / 2 {
        sized(v, size) - modulus(size)
    } else {
        sized(v, size) as int
    }
}

/// After a compare of `dst` with `src`, the branch conditions decide the unsigned and
/// the signed comparisons of the two operands: HI is `dst > src` unsigned, LS is
/// `dst <= src`, CS is `dst < src`, CC is `dst >= src`, EQ and NE equality, and GT,
/// GE, LT, LE the signed comparisons.
pub proof fn law_compare_conditions(sr: u16, dst: u32, src: u32, size: Size)
    ensures
        ({
            let s = compare_sr(sr, dst, src, size);
            let u = sized(dst, size);
            let w = sized(src, size);
            let a = signed_of(dst, size);
            let b = signed_of(src, size);
            &&& condition_holds(s, Condition::Higher) == (u > w)
            &&& condition_holds(s, Condition::LowerOrSame) == (u <= w)
            &&& condition_holds(s, Condition::CarrySet) == (u < w)
            &&& condition_holds(s, Condition::CarryClear) == (u >= w)
            &&& condition_holds(s, Condition::Equal) == (u == w)
            &&& condition_holds(s, Condition::NotEqual) == (u != w)
            &&& condition_holds(s, Condition::GreaterThan) == (a > b)
            &&& condition_holds(s, Condition::GreaterOrEqual) == (a >= b)
            &&& condition_holds(s, Condition::LessThan) == (a < b)
            &&& condition_holds(s, Condition::LessOrEqual) == (a <= b)
        }),
{
    lemma_compare_flags(sr, dst, src, size);
    let u = sized(dst, size) as int;
    let w = sized(src, size) as int;
    let m = modulus(size);
    let r = sub_value(dst, src, size);
    assert(0 <= u < m && 0 <= w < m);
    if u >= w {
        assert(r == u - w);
    } else {
        assert(r == u - w + m);
    }
    assert(sized(r, size) == r);
}

/// DIVU by a word: the quotient lands in the low word of the register and the
/// remainder in the high word, where the quotient fits 16 bits; otherwise V is set
/// and the register is kept. A zero divisor is an error.
pub proof fn law_divu_quotient_remainder(m: CpuModel, inst_addr: usize, src: AddressingMode, dst: DataReg)
    requires
        m.d.len() == 8,
        read_operand_spec(m, src, Size::Word, inst_addr) is Ok,
    ensures
        ({
            let (m1, v) = read_operand_spec(m, src, Size::Word, inst_addr)->Ok_0;
            let d = v as u16 as int;
            let n = m1.d[dreg(dst)] as int;
            let r = divu_spec(m, inst_addr, src, dst);
            &&& d == 0 ==> r is Err
            &&& d != 0 && n / d <= 0xFFFF ==> r is Ok && r->Ok_0.d[dreg(dst)] % 0x1_0000 == n / d
                && r->Ok_0.d[dreg(dst)] / 0x1_0000 == n % d && !flag(r->Ok_0.sr, FLAG_V)
            &&& d != 0 && n / d > 0xFFFF ==> r is Ok && r->Ok_0.d == m1.d && flag(r->Ok_0.sr, FLAG_V)
        }),
{
    let (m1, v) = read_operand_spec(m, src, Size::Word, inst_addr)->Ok_0;
    let d = v as u16 as int;
    let n = m1.d[dreg(dst)] as int;
    assert(m1.d == m.d);
    if d != 0 {
        let q = n / d;
        let rem = n % d;
        assert(0 <= rem < d <= 0xFFFF) by (nonlinear_arith)
            requires
                0 < d <= 0xFFFF,
                rem == n % d,
        ;
        let r = divu_spec(m, inst_addr, src, dst)->Ok_0;
        if q <= 0xFFFF {
            assert(q >= 0) by (nonlinear_arith)
                requires
                    n >= 0,
                    d > 0,
                    q == n / d,
            ;
            let x = rem * 0x1_0000 + q;
            assert(0 <= x < 0x1_0000_0000);
            assert(x % 0x1_0000 == q && x / 0x1_0000 == rem) by (nonlinear_arith)
                requires
                    x == rem * 0x1_0000 + q,
                    0 <= q <= 0xFFFF,
                    0 <= rem,
            ;
            let sr0 = m1.sr;
            law_flag_independent(with_flag(with_flag(sr0, FLAG_N, q >= 0x8000), FLAG_Z, q == 0), FLAG_V, false, FLAG_V);
            law_flag_independent(
                with_flag(with_flag(with_flag(sr0, FLAG_N, q >= 0x8000), FLAG_Z, q == 0), FLAG_V, false),
                FLAG_C,
                false,
                FLAG_V,
            );
        } else {
            law_flag_independent(m1.sr, FLAG_V, true, FLAG_V);
            law_flag_independent(with_flag(m1.sr, FLAG_V, true), FLAG_C, false, FLAG_V);
        }
    }
}

/// The index register an index extension word names is a data register where bit 15
/// is clear and an address register where it is set: the index does not depend on
/// the registers of the other kind.
pub proof fn law_index_register_kind(m: CpuModel, m2: CpuModel, ext: u16)
    requires
        ext & 0x0100 == 0 || ext & 0x0040 == 0,
    ensures
        ext & 0x8000 == 0 && m.d == m2.d ==> index_value(m, ext) == index_value(m2, ext),
        ext & 0x8000 != 0 && m.a == m2.a ==> index_value(m, ext) == index_value(m2, ext),
{
}

/// A long index from a data register (bit 15 clear, bit 11 set) is that register,
/// read as a signed long, times the scale 2^((ext >> 9) & 3); a word index (bit 11
/// clear) is the register's low word read as a signed word, times the scale.
pub proof fn law_data_register_index(m: CpuModel, ext: u16)
    requires
        ext & 0x0100 == 0 || ext & 0x0040 == 0,
        ext & 0x8000 == 0,
    ensures
        ({
            let reg = m.d[((ext >> 12) & 0x7) as int];
            let scale_bits = (ext >> 9) & 0x3;
            let scale: int = if scale_bits == 0 {
                1
            } else if scale_bits == 1 {
                2
            } else if scale_bits == 2 {
                4
            } else {
                8
            };
            &&& ext & 0x0800 != 0 ==> index_value(m, ext) as int == (reg as i32) as int * scale
            &&& ext & 0x0800 == 0 ==> index_value(m, ext) as int == (reg as i16) as int * scale
        }),
{
}

/// Sign extension by casts, in arithmetic terms.
proof fn lemma_sign_casts(v: u32)
    by (bit_vector)
    ensures
        (v as i16 as i32 as u32) % 0x1_0000 == v % 0x1_0000,
        (v as i16 as i32 as u32) / 0x1_0000 == (if v % 0x1_0000 >= 0x8000 { 0xFFFFu32 } else { 0u32 }),
        (v as i8 as i32 as u32) % 0x100 == v % 0x100,
        (v as i8 as i32 as u32) / 0x100 == (if v % 0x100 >= 0x80 { 0xFF_FFFFu32 } else { 0u32 }),
{
}

/// Sign extension of a byte to a word by casts, in arithmetic terms.
proof fn lemma_byte_word_cast(v: u32)
    by (bit_vector)
    ensures
        ((v as i8 as i16 as u16) as u32) % 0x100 == v % 0x100,
        ((v as i8 as i16 as u16) as u32) / 0x100 == (if v % 0x100 >= 0x80 { 0xFFu32 } else { 0u32 }),
{
}

/// EXT copies the sign bit of the low byte or word into every bit above it: EXT.L
/// keeps the low word and fills the high word with its sign, EXTB.L keeps the low
/// byte and fills the other three bytes with its sign, and EXT.W keeps the low byte,
/// fills the byte above it with the sign and leaves the high word alone.
pub proof fn law_ext_sign_extends(v: u32)
    ensures
        ext_value(v, ExtMode::WordToLong) % 0x1_0000 == v % 0x1_0000,
        ext_value(v, ExtMode::WordToLong) / 0x1_0000 == (if v % 0x1_0000 >= 0x8000 { 0xFFFFu32 } else { 0u32 }),
        ext_value(v, ExtMode::ByteToLong) % 0x100 == v % 0x100,
        ext_value(v, ExtMode::ByteToLong) / 0x100 == (if v % 0x100 >= 0x80 { 0xFF_FFFFu32 } else { 0u32 }),
        ext_value(v, ExtMode::ByteToWord) % 0x100 == v % 0x100,
        (ext_value(v, ExtMode::ByteToWord) / 0x100) % 0x100 == (if v % 0x100 >= 0x80 { 0xFFu32 } else { 0u32 }),
        ext_value(v, ExtMode::ByteToWord) / 0x1_0000 == v / 0x1_0000,
{
    lemma_sign_casts(v);
    lemma_byte_word_cast(v);
    let e = (v as i8 as i16 as u16) as u32;
    let r = ext_value(v, ExtMode::ByteToWord);
    assert(e < 0x1_0000);
    assert(r == v - v % 0x1_0000 + e);
    assert(r == (v / 0x1_0000) * 0x1_0000 + e);
    assert(r / 0x1_0000 == v / 0x1_0000 && r % 0x1_0000 == e) by (nonlinear_arith)
        requires
            r == (v / 0x1_0000) * 0x1_0000 + e,
            0 <= e < 0x1_0000,
    ;
    assert(r % 0x100 == e % 0x100 && (r / 0x100) % 0x100 == e / 0x100) by (nonlinear_arith)
        requires
            r == (v / 0x1_0000) * 0x1_0000 + e,
            0 <= e < 0x1_0000,
            v / 0x1_0000 >= 0,
    ;
}

/// Bit `k` of `f`, counted from the least significant bit.
pub open spec fn bit_of(f: u32, k: u32) -> bool {
    (f >> k) & 1 == 1
}

/// Testing a bit with a shifted one is reading that bit.
proof fn lemma_bit_test(f: u32, k: u32)
    requires
        k < 32,
    ensures
        (f & (1u32 << k) != 0) == bit_of(f, k),
{
    assert((f & (1u32 << k) != 0) == ((f >> k) & 1 == 1)) by (bit_vector)
        requires
            k < 32,
    ;
}

/// The search BFFFO makes from position `i` on, positions counted from the field's
/// most significant bit: it ends at the first position whose bit is set, or at the
/// width where none is, and no position it passes has its bit set.
pub proof fn law_first_one(f: u32, w: u32, i: u32)
    requires
        1 <= w <= 32,
        i <= w,
    ensures
        ({
            let p = first_one(f, w, i);
            &&& i <= p <= w
            &&& p < w ==> bit_of(f, (w - 1 - p) as u32)
            &&& forall|q: int| i <= q < p ==> !#[trigger] bit_of(f, (w - 1 - q) as u32)
        }),
    decreases w - i,
{
    if i < w {
        lemma_bit_test(f, (w - 1 - i) as u32);
        if f & (1u32 << ((w - 1 - i) as u32)) == 0 {
            law_first_one(f, w, (i + 1) as u32);
        }
    }
}

/// The condition codes an arithmetic result leaves: N, Z from the result, V as given,
/// C and X as given.
proof fn lemma_arith_flags(sr: u16, r: u32, size: Size, v: bool, c: bool)
    ensures
        ({
            let s = arith_sr(sr, r, size, v, c);
            &&& flag(s, FLAG_N) == msb(r, size)
            &&& flag(s, FLAG_Z) == (r == 0)
            &&& flag(s, FLAG_V) == v
            &&& flag(s, FLAG_C) == c
            &&& flag(s, FLAG_X) == c
        }),
{
    let s1 = with_flag(sr, FLAG_N, msb(r, size));
    let s2 = with_flag(s1, FLAG_Z, r == 0);
    let s3 = with_flag(s2, FLAG_V, v);
    let s4 = with_flag(s3, FLAG_C, c);
    law_flag_independent(s4, FLAG_X, c, FLAG_X);
    law_flag_independent(s4, FLAG_X, c, FLAG_C);
    law_flag_independent(s4, FLAG_X, c, FLAG_V);
    law_flag_independent(s4, FLAG_X, c, FLAG_Z);
    law_flag_independent(s4, FLAG_X, c, FLAG_N);
    law_flag_independent(s3, FLAG_C, c, FLAG_C);
    law_flag_independent(s3, FLAG_C, c, FLAG_V);
    law_flag_independent(s3, FLAG_C, c, FLAG_Z);
    law_flag_independent(s3, FLAG_C, c, FLAG_N);
    law_flag_independent(s2, FLAG_V, v, FLAG_V);
    law_flag_independent(s2, FLAG_V, v, FLAG_Z);
    law_flag_independent(s2, FLAG_V, v, FLAG_N);
    law_flag_independent(s1, FLAG_Z, r == 0, FLAG_Z);
    law_flag_independent(s1, FLAG_Z, r == 0, FLAG_N);
    law_flag_independent(sr, FLAG_N, msb(r, size), FLAG_N);
}

/// A signed value of a size fits that size.
pub open spec fn fits_signed(x: int, size: Size) -> bool {
    -(modulus(size) / 2) <= x < modulus(size) / 2
}

/// ADD: the result plus the carry's weight is the sum of the operands; C and X say the
/// unsigned sum does not fit the size, V that the signed sum does not, N and Z
/// describe the result.
pub proof fn law_add_flags(sr: u16, src: u32, dst: u32, size: Size)
    ensures
        ({
            let s = add_sr(sr, src, dst, size);
            let r = add_value(src, dst, size);
            let sum = sized(src, size) + sized(dst, size);
            &&& r + (if flag(s, FLAG_C) { modulus(size) } else { 0 }) == sum
            &&& flag(s, FLAG_C) == (sum >= modulus(size))
            &&& flag(s, FLAG_X) == flag(s, FLAG_C)
            &&& flag(s, FLAG_V) == !fits_signed(signed_of(src, size) + signed_of(dst, size), size)
            &&& flag(s, FLAG_Z) == (r == 0)
            &&& flag(s, FLAG_N) == (r >= modulus(size) / 2)
        }),
{
    let r = add_value(src, dst, size);
    lemma_arith_flags(
        sr,
        r,
        size,
        crate::cpu::flags::add_overflow(src, dst, size),
        crate::cpu::flags::add_carry(src, dst, size),
    );
    let u = sized(src, size) as int;
    let w = sized(dst, size) as int;
    let m = modulus(size);
    assert(0 <= u < m && 0 <= w < m);
    if u + w >= m {
        assert(r == u + w - m);
    } else {
        assert(r == u + w);
    }
    assert(sized(r, size) == r);
}

/// SUB (and CMP's codes): the result is the difference, plus the size's modulus where
/// C (the borrow) is set; C and X say `src > dst` unsigned, V that the signed
/// difference does not fit, N and Z describe the result.
pub proof fn law_sub_flags(sr: u16, dst: u32, src: u32, size: Size)
    ensures
        ({
            let s = sub_sr(sr, dst, src, size);
            let r = sub_value(dst, src, size);
            let u = sized(dst, size);
            let w = sized(src, size);
            &&& r == u - w + (if flag(s, FLAG_C) { modulus(size) } else { 0 })
            &&& flag(s, FLAG_C) == (w > u)
            &&& flag(s, FLAG_X) == flag(s, FLAG_C)
            &&& flag(s, FLAG_V) == !fits_signed(signed_of(dst, size) - signed_of(src, size), size)
            &&& flag(s, FLAG_Z) == (r == 0)
            &&& flag(s, FLAG_N) == (r >= modulus(size) / 2)
        }),
{
    let r = sub_value(dst, src, size);
    lemma_arith_flags(sr, r, size, sub_overflow(dst, src, size), sub_borrow(dst, src, size));
    let u = sized(dst, size) as int;
    let w = sized(src, size) as int;
    let m = modulus(size);
    assert(0 <= u < m && 0 <= w < m);
    if u >= w {
        assert(r == u - w);
    } else {
        assert(r == u - w + m);
    }
    assert(sized(r, size) == r);
}

/// The condition codes ADDX and SUBX leave: Z only ever cleared.
proof fn lemma_extend_flags(sr: u16, r: u32, size: Size, v: bool, c: bool)
    ensures
        ({
            let s = extend_sr(sr, r, size, v, c);
            &&& flag(s, FLAG_N) == msb(r, size)
            &&& flag(s, FLAG_Z) == (flag(sr, FLAG_Z) && r == 0)
            &&& flag(s, FLAG_V) == v
            &&& flag(s, FLAG_C) == c
            &&& flag(s, FLAG_X) == c
        }),
{
    let s0 = if r != 0 {
        with_flag(sr, FLAG_Z, false)
    } else {
        sr
    };
    law_flag_independent(sr, FLAG_Z, false, FLAG_Z);
    let s1 = with_flag(s0, FLAG_N, msb(r, size));
    let s2 = with_flag(s1, FLAG_V, v);
    let s3 = with_flag(s2, FLAG_C, c);
    law_flag_independent(s3, FLAG_X, c, FLAG_X);
    law_flag_independent(s3, FLAG_X, c, FLAG_C);
    law_flag_independent(s3, FLAG_X, c, FLAG_V);
    law_flag_independent(s3, FLAG_X, c, FLAG_Z);
    law_flag_independent(s3, FLAG_X, c, FLAG_N);
    law_flag_independent(s2, FLAG_C, c, FLAG_C);
    law_flag_independent(s2, FLAG_C, c, FLAG_V);
    law_flag_independent(s2, FLAG_C, c, FLAG_Z);
    law_flag_independent(s2, FLAG_C, c, FLAG_N);
    law_flag_independent(s1, FLAG_V, v, FLAG_V);
    law_flag_independent(s1, FLAG_V, v, FLAG_Z);
    law_flag_independent(s1, FLAG_V, v, FLAG_N);
    law_flag_independent(s0, FLAG_N, msb(r, size), FLAG_N);
    law_flag_independent(s0, FLAG_N, msb(r, size), FLAG_Z);
}

/// ADDX with the extend bit `x` (0 or 1): the result plus the carry's weight is the
/// sum of both operands and `x`; C and X say that sum does not fit, V that the signed
/// sum does not, and Z is only cleared (set afterwards only where it was set before
/// and the result is zero).
pub proof fn law_addx_flags(sr: u16, src: u32, dst: u32, x: u32, size: Size)
    requires
        x <= 1,
    ensures
        ({
            let s = addx_sr(sr, src, dst, x, size);
            let r = addx_value(src, dst, x, size);
            let sum = sized(src, size) + sized(dst, size) + x;
            &&& r + (if flag(s, FLAG_C) { modulus(size) } else { 0 }) == sum
            &&& flag(s, FLAG_C) == (sum >= modulus(size))
            &&& flag(s, FLAG_X) == flag(s, FLAG_C)
            &&& flag(s, FLAG_V) == !fits_signed(signed_of(src, size) + signed_of(dst, size) + x, size)
            &&& flag(s, FLAG_Z) == (flag(sr, FLAG_Z) && r == 0)
            &&& flag(s, FLAG_N) == (r >= modulus(size) / 2)
        }),
{
    let r = addx_value(src, dst, x, size);
    let u = sized(src, size) as int;
    let w = sized(dst, size) as int;
    let m = modulus(size);
    lemma_extend_flags(
        sr,
        r,
        size,
        msb(src, size) == msb(dst, size) && msb(r, size) != msb(src, size),
        u + w + x >= m,
    );
    assert(0 <= u < m && 0 <= w < m);
    if u + w + x >= m {
        assert(r == u + w + x - m);
    } else {
        assert(r == u + w + x);
    }
    assert(sized(r, size) == r);
}

/// SUBX with the extend bit `x` (0 or 1): the result is `dst - src - x`, plus the
/// size's modulus where C (the borrow) is set; V says the signed difference does not
/// fit, and Z is only cleared.
pub proof fn law_subx_flags(sr: u16, dst: u32, src: u32, x: u32, size: Size)
    requires
        x <= 1,
    ensures
        ({
            let s = subx_sr(sr, dst, src, x, size);
            let r = subx_value(dst, src, x, size);
            let u = sized(dst, size);
            let w = sized(src, size);
            &&& r == u - w - x + (if flag(s, FLAG_C) { modulus(size) } else { 0 })
            &&& flag(s, FLAG_C) == (w + x > u)
            &&& flag(s, FLAG_X) == flag(s, FLAG_C)
            &&& flag(s, FLAG_V) == !fits_signed(signed_of(dst, size) - signed_of(src, size) - x, size)
            &&& flag(s, FLAG_Z) == (flag(sr, FLAG_Z) && r == 0)
            &&& flag(s, FLAG_N) == (r >= modulus(size) / 2)
        }),
{
    let r = subx_value(dst, src, x, size);
    let u = sized(dst, size) as int;
    let w = sized(src, size) as int;
    let m = modulus(size);
    assert(0 <= u < m && 0 <= w < m);
    if u >= w + x {
        assert(r == u - w - x);
    } else {
        assert(r == u - w - x + m);
    }
    assert(sized(r, size) == r);
    lemma_subx_codes(sr, dst, src, x, size);
}

/// The codes SUBX leaves, from its definition.
proof fn lemma_subx_codes(sr: u16, dst: u32, src: u32, x: u32, size: Size)
    ensures
        ({
            let s = subx_sr(sr, dst, src, x, size);
            let r = subx_value(dst, src, x, size);
            &&& flag(s, FLAG_N) == msb(r, size)
            &&& flag(s, FLAG_Z) == (flag(sr, FLAG_Z) && r == 0)
            &&& flag(s, FLAG_V) == (msb(src, size) != msb(dst, size) && msb(r, size) != msb(dst, size))
            &&& flag(s, FLAG_C) == (sized(src, size) + x > sized(dst, size))
            &&& flag(s, FLAG_X) == flag(s, FLAG_C)
        }),
{
    let r = subx_value(dst, src, x, size);
    lemma_extend_flags(
        sr,
        r,
        size,
        msb(src, size) != msb(dst, size) && msb(r, size) != msb(dst, size),
        sized(src, size) + x > sized(dst, size),
    );
}

/// Reading the low word of a long by a cast is taking it modulo 2^16.
proof fn lemma_low_word_cast(v: u32)
    by (bit_vector)
    ensures
        (v as u16) as u32 == v % 0x1_0000,
        rotl(v, 16) % 0x1_0000 == v / 0x1_0000,
        rotl(v, 16) / 0x1_0000 == v % 0x1_0000,
{
}

/// MULU: the register becomes the product of its low word and the word operand, both
/// unsigned.
pub proof fn law_mulu_product(m: CpuModel, src: AddressingMode, dst: DataReg)
    requires
        m.d.len() == 8,
        read_word_spec(m, src) is Ok,
    ensures
        ({
            let (m1, s) = read_word_spec(m, src)->Ok_0;
            let n = m1.d[dreg(dst)];
            let r = mulu_spec(m, src, dst);
            r is Ok && r->Ok_0.d[dreg(dst)] as int == (n % 0x1_0000) * (s as int)
        }),
{
    let (m1, s) = read_word_spec(m, src)->Ok_0;
    let n = m1.d[dreg(dst)];
    assert(m1.d == m.d);
    lemma_low_word_cast(n);
    let p = (n % 0x1_0000) * (s as int);
    assert(0 <= p <= 0xFFFF * 0xFFFF) by (nonlinear_arith)
        requires
            p == (n % 0x1_0000) * (s as int),
            0 <= n % 0x1_0000 <= 0xFFFF,
            0 <= s <= 0xFFFF,
    ;
}

/// SWAP exchanges the halves of a register: the new low word is the old high word and
/// the new high word the old low word.
pub proof fn law_swap_halves(m: CpuModel, reg: DataReg)
    requires
        m.d.len() == 8,
    ensures
        ({
            let v = m.d[dreg(reg)];
            let r = swap_spec(m, reg).d[dreg(reg)];
            &&& r % 0x1_0000 == v / 0x1_0000
            &&& r / 0x1_0000 == v % 0x1_0000
        }),
{
    lemma_low_word_cast(m.d[dreg(reg)]);
}

/// DIVU.L: in the 32-bit form the quotient goes to Dq and, where Dr is another
/// register, the remainder to Dr, so that quotient times divisor plus remainder is
/// the dividend; in the 64-bit form the same holds of Dr:Dq where the quotient fits
/// 32 bits.
pub proof fn law_divul_quotient_remainder(
    m: CpuModel,
    inst_addr: usize,
    src: AddressingMode,
    dq: DataReg,
    dr: DataReg,
    is_64bit: bool,
)
    requires
        m.d.len() == 8,
        read_operand_spec(m, src, Size::Long, inst_addr) is Ok,
        read_operand_spec(m, src, Size::Long, inst_addr)->Ok_0.1 != 0,
        dq != dr,
    ensures
        ({
            let (m1, d) = read_operand_spec(m, src, Size::Long, inst_addr)->Ok_0;
            let r = divul_spec(m, inst_addr, src, dq, dr, is_64bit);
            let n: int = if is_64bit {
                m1.d[dreg(dr)] as int * 0x1_0000_0000 + m1.d[dreg(dq)] as int
            } else {
                m1.d[dreg(dq)] as int
            };
            &&& r is Ok
            &&& n / (d as int) <= 0xFFFF_FFFF ==> r->Ok_0.d[dreg(dq)] * (d as int) + r->Ok_0.d[dreg(dr)] == n
                && r->Ok_0.d[dreg(dr)] < d
        }),
{
    let (m1, d) = read_operand_spec(m, src, Size::Long, inst_addr)->Ok_0;
    assert(m1.d == m.d);
    assert(dreg(dq) != dreg(dr));
    let n: int = if is_64bit {
        m1.d[dreg(dr)] as int * 0x1_0000_0000 + m1.d[dreg(dq)] as int
    } else {
        m1.d[dreg(dq)] as int
    };
    let q = n / (d as int);
    let rem = n % (d as int);
    assert(q * d + rem == n && 0 <= rem < d && q >= 0) by (nonlinear_arith)
        requires
            d > 0,
            n >= 0,
            q == n / (d as int),
            rem == n % (d as int),
    ;
}

/// A long made from an `i32` reads back as that `i32`.
proof fn lemma_i32_roundtrip(x: i32)
    by (bit_vector)
    ensures
        (x as u32) as i32 == x,
{
}

/// MULS: the register, read as a signed long, becomes the product of its low word and
/// the word operand, both read as signed words.
pub proof fn law_muls_product(m: CpuModel, src: AddressingMode, dst: DataReg)
    requires
        m.d.len() == 8,
        read_word_spec(m, src) is Ok,
    ensures
        ({
            let (m1, s) = read_word_spec(m, src)->Ok_0;
            let n = m1.d[dreg(dst)];
            let r = muls_spec(m, src, dst);
            r is Ok && (r->Ok_0.d[dreg(dst)] as i32) as int == (n as u16 as i16) as int * (s as i16) as int
        }),
{
    let (m1, s) = read_word_spec(m, src)->Ok_0;
    let n = m1.d[dreg(dst)];
    assert(m1.d == m.d);
    let a = (n as u16 as i16) as int;
    let b = (s as i16) as int;
    let p = a * b;
    assert(-0x4000_0000 <= p <= 0x4000_0000) by (nonlinear_arith)
        requires
            p == a * b,
            -0x8000 <= a <= 0x7FFF,
            -0x8000 <= b <= 0x7FFF,
    ;
    let x = p as i32;
    assert(x as int == p);
    lemma_i32_roundtrip(x);
}

/// The rotations that define the register bit-field operations, for a field that does
/// not wrap round bit 0.
proof fn lemma_field_shapes(v: u32, d: u32, src: u32, o: u32, w: u32, m: u32, rl: u32, rm: u32, rs: u32)
    by (bit_vector)
    requires
        1 <= w <= 32,
        o < 32,
        o + w <= 32,
        m == (if w == 32 { 0xFFFF_FFFFu32 } else { ((1u32 << w) - 1) as u32 }),
        rl == (if o == 0 { v } else { (v << o) | (v >> ((32 - o) as u32)) }),
        rm == (if (o + w) % 32 == 0 { m } else { (m >> ((o + w) % 32)) | (m << ((32 - (o + w) % 32) as u32)) }),
        rs == (if (o + w) % 32 == 0 { src & m } else { ((src & m) >> ((o + w) % 32)) | ((src & m) << ((32 - (o + w)
            % 32) as u32)) }),
    ensures
        (rl >> ((32 - w) as u32)) & m == (v >> ((32 - o - w) as u32)) & m,
        (d & !rm) | rs == (d & !(m << ((32 - o - w) as u32))) | ((src & m) << ((32 - o - w) as u32)),
{
}

/// For a register bit field that does not wrap round bit 0 (offset plus width at most
/// 32, offsets counted from the most significant bit), BFEXTU reads the `width` bits
/// that end `32 - offset - width` bits above bit 0, and BFINS replaces exactly those
/// bits with the low bits of the source, keeping every other bit.
pub proof fn law_register_field_position(v: u32, src: u32, offset: u32, width: u32)
    requires
        offset % 32 + bf_width(width) <= 32,
    ensures
        ({
            let o = offset % 32;
            let w = bf_width(width);
            let m = low_mask(w);
            let sh = (32 - o - w) as u32;
            &&& extract_spec(v, offset, width) == (v >> sh) & m
            &&& insert_spec(v, src, offset, width) == (v & !(m << sh)) | ((src & m) << sh)
        }),
{
    let o = offset % 32;
    let w = bf_width(width);
    let m = low_mask(w);
    assert(o < 32 && 1 <= w <= 32);
    lemma_field_shapes(
        v,
        v,
        src,
        o,
        w,
        m,
        rotl(v, o),
        rotr(m, (o + w) as u32),
        rotr(src & m, (o + w) as u32),
    );
}

/// DBcc: where the condition holds nothing changes; otherwise the low word of the
/// counter goes down by one (from 0 to 0xFFFF), the high word is kept, and the branch
/// is taken unless the counter was 0 (that is, unless it has now run out to -1).
pub proof fn law_dbcc_counts_down(m: CpuModel, inst: Instruction, condition: Condition, reg: DataReg, disp: i16)
    requires
        m.d.len() == 8,
    ensures
        ({
            let r = dbcc_spec(m, inst, condition, reg, disp);
            let v = m.d[dreg(reg)];
            let nv = r.d[dreg(reg)];
            &&& condition_holds(m.sr, condition) ==> r == m
            &&& !condition_holds(m.sr, condition) ==> {
                &&& nv % 0x1_0000 == (v % 0x1_0000 + 0xFFFF) % 0x1_0000
                &&& nv / 0x1_0000 == v / 0x1_0000
                &&& r.pc == (if v % 0x1_0000 != 0 { branch_target(inst.address, disp as int) } else { m.pc })
                &&& r.a == m.a && r.sr == m.sr && r.mem == m.mem
            }
        }),
{
    let v = m.d[dreg(reg)];
    lemma_low_word_cast(v);
    if !condition_holds(m.sr, condition) {
        let low: int = if v % 0x1_0000 == 0 {
            0xFFFF
        } else {
            v % 0x1_0000 - 1
        };
        let nv = (v as int / 0x1_0000) * 0x1_0000 + low;
        assert(0 <= nv < 0x1_0000_0000 && nv % 0x1_0000 == low && nv / 0x1_0000 == v / 0x1_0000) by (nonlinear_arith)
            requires
                nv == (v as int / 0x1_0000) * 0x1_0000 + low,
                0 <= low <= 0xFFFF,
                0 <= v < 0x1_0000_0000,
        ;
    }
}

/// BFEXTS sign-extends a field of `w` bits (1 to 31) held in the low bits: the low
/// `w` bits are the field, and every bit above them is a copy of its top bit.
pub proof fn law_field_sign_extension(f: u32, w: u32)
    requires
        1 <= w < 32,
        f == f & low_mask(w),
    ensures
        bf_sign_extend(f, w) & low_mask(w) == f,
        f >> ((w - 1) as u32) == 1 ==> bf_sign_extend(f, w) | low_mask(w) == 0xFFFF_FFFF,
        f >> ((w - 1) as u32) == 0 ==> bf_sign_extend(f, w) == f,
{
    let m = low_mask(w);
    let r = bf_sign_extend(f, w);
    assert(({
        let r2 = if f & (1u32 << ((w - 1) as u32)) != 0 {
            f | !(((1u32 << w) - 1) as u32)
        } else {
            f
        };
        &&& (f >> ((w - 1) as u32) == 1 || f >> ((w - 1) as u32) == 0)
        &&& r2 & m == f
        &&& f >> ((w - 1) as u32) == 1 ==> r2 | m == 0xFFFF_FFFF
        &&& f >> ((w - 1) as u32) == 0 ==> r2 == f
    })) by (bit_vector)
        requires
            1 <= w < 32,
            m == ((1u32 << w) - 1) as u32,
            f == f & m,
    ;
}

} // verus!
