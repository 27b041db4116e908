//! Arithmetic with condition codes: the result of an addition or subtraction
//! within the operand size, and the N, Z, V, C and X codes it leaves.

use vstd::prelude::*;

use vstd::arithmetic::div_mod::lemma_mod_multiples_vanish;

use crate::alu::{lemma_masks, modulus, msb, sized, SizeInfo};
use crate::cpu::{with_flag, Cpu, FLAG_C, FLAG_N, FLAG_V, FLAG_X, FLAG_Z};
use crate::decoder::Size;

verus! {

/// The sum of the low `size` parts, modulo 2^bits.
pub open spec fn add_value(src: u32, dst: u32, size: Size) -> u32 {
    ((sized(src, size) + sized(dst, size)) % modulus(size)) as u32
}

/// Unsigned carry out of the sum.
pub open spec fn add_carry(src: u32, dst: u32, size: Size) -> bool {
    sized(src, size) + sized(dst, size) >= modulus(size)
}

/// Signed overflow of the sum: both operands have one sign and the result the other.
pub open spec fn add_overflow(src: u32, dst: u32, size: Size) -> bool {
    msb(src, size) == msb(dst, size) && msb(add_value(src, dst, size), size) != msb(src, size)
}

/// The difference `dst - src` of the low `size` parts, modulo 2^bits.
pub open spec fn sub_value(dst: u32, src: u32, size: Size) -> u32 {
    ((sized(dst, size) - sized(src, size)) % modulus(size)) as u32
}

/// Unsigned borrow of the difference.
pub open spec fn sub_borrow(dst: u32, src: u32, size: Size) -> bool {
    sized(src, size) > sized(dst, size)
}

/// Signed overflow of the difference: the operands differ in sign and the result has
/// the sign of the subtrahend.
pub open spec fn sub_overflow(dst: u32, src: u32, size: Size) -> bool {
    msb(src, size) != msb(dst, size) && msb(sub_value(dst, src, size), size) != msb(dst, size)
}

/// Status register after an arithmetic result: N, Z from `result`, V = `v`, C and X = `c`.
pub open spec fn arith_sr(sr: u16, result: u32, size: Size, v: bool, c: bool) -> u16 {
    with_flag(
        with_flag(
            with_flag(with_flag(with_flag(sr, FLAG_N, msb(result, size)), FLAG_Z, result == 0), FLAG_V, v),
            FLAG_C,
            c,
        ),
        FLAG_X,
        c,
    )
}

/// Status register after ADD.
pub open spec fn add_sr(sr: u16, src: u32, dst: u32, size: Size) -> u16 {
    arith_sr(sr, add_value(src, dst, size), size, add_overflow(src, dst, size), add_carry(src, dst, size))
}

/// Status register after SUB.
pub open spec fn sub_sr(sr: u16, dst: u32, src: u32, size: Size) -> u16 {
    arith_sr(sr, sub_value(dst, src, size), size, sub_overflow(dst, src, size), sub_borrow(dst, src, size))
}

/// Status register after a compare: N, Z, V, C as for SUB, X kept.
pub open spec fn compare_sr(sr: u16, dst: u32, src: u32, size: Size) -> u16 {
    let r = sub_value(dst, src, size);
    with_flag(
        with_flag(with_flag(with_flag(sr, FLAG_N, msb(r, size)), FLAG_Z, r == 0), FLAG_V, sub_overflow(dst, src, size)),
        FLAG_C,
        sub_borrow(dst, src, size),
    )
}

/// The sum of the low `size` parts and the extend value, modulo 2^bits.
pub open spec fn addx_value(src: u32, dst: u32, x: u32, size: Size) -> u32 {
    ((sized(src, size) + sized(dst, size) + x) % modulus(size)) as u32
}

/// The difference `dst - src - x` of the low `size` parts, modulo 2^bits.
pub open spec fn subx_value(dst: u32, src: u32, x: u32, size: Size) -> u32 {
    ((sized(dst, size) - sized(src, size) - x) % modulus(size)) as u32
}

/// Status register after ADDX/SUBX: Z cleared by a non-zero result and otherwise kept,
/// N from the result, V = `v`, C and X = `c`.
pub open spec fn extend_sr(sr: u16, result: u32, size: Size, v: bool, c: bool) -> u16 {
    let sr1 = if result != 0 { with_flag(sr, FLAG_Z, false) } else { sr };
    with_flag(
        with_flag(with_flag(with_flag(sr1, FLAG_N, msb(result, size)), FLAG_V, v), FLAG_C, c),
        FLAG_X,
        c,
    )
}

/// Status register after ADDX.
pub open spec fn addx_sr(sr: u16, src: u32, dst: u32, x: u32, size: Size) -> u16 {
    let r = addx_value(src, dst, x, size);
    extend_sr(
        sr,
        r,
        size,
        msb(src, size) == msb(dst, size) && msb(r, size) != msb(src, size),
        sized(src, size) + sized(dst, size) + x >= modulus(size),
    )
}

/// Status register after SUBX.
pub open spec fn subx_sr(sr: u16, dst: u32, src: u32, x: u32, size: Size) -> u16 {
    let r = subx_value(dst, src, x, size);
    extend_sr(
        sr,
        r,
        size,
        msb(src, size) != msb(dst, size) && msb(r, size) != msb(dst, size),
        sized(src, size) + x > sized(dst, size),
    )
}

pub(crate) proof fn lemma_sized_idem(v: u32, size: Size)
    ensures
        sized(sized(v, size), size) == sized(v, size),
        msb(sized(v, size), size) == msb(v, size),
        sized(v, size) < modulus(size),
{
}

pub(crate) proof fn lemma_wrap_mod(x: int, size: Size)
    requires
        -0x1_0000_0000 <= x < 0x1_0000_0000,
    ensures
        (if x < 0 { x + 0x1_0000_0000 } else { x }) % modulus(size) == x % modulus(size),
{
}

/// Two wrap-arounds modulo 2^32 leave the value modulo 2^bits unchanged.
proof fn lemma_wrap2(a: int, b: int, u: int, size: Size)
    requires
        b == a || b == a - 0x1_0000_0000 || b == a + 0x1_0000_0000,
        u == b || u == b - 0x1_0000_0000 || u == b + 0x1_0000_0000,
    ensures
        u % modulus(size) == a % modulus(size),
{
    let m = modulus(size);
    let q: int = 0x1_0000_0000int / m;
    assert(q * m == 0x1_0000_0000int);
    let j: int = if u == a {
        0
    } else if u == a + 0x1_0000_0000 {
        1
    } else if u == a - 0x1_0000_0000 {
        -1
    } else if u == a + 0x2_0000_0000 {
        2
    } else {
        -2
    };
    assert(u == m * (j * q) + a) by (nonlinear_arith)
        requires
            u == a + j * 0x1_0000_0000int,
            q * m == 0x1_0000_0000int,
    ;
    lemma_mod_multiples_vanish(j * q, a, m);
}

/// Add with full flag computation (N, Z, V, C, X)
pub fn add_with_flags(src: u32, dst: u32, size: Size, cpu: &mut Cpu) -> (r: u32)
    ensures
        r == add_value(src, dst, size),
        final(cpu)@ == old(cpu)@.with_sr(add_sr(old(cpu).sr, src, dst, size)),
{
    let si = SizeInfo::new(size);
    let s = si.apply(src);
    let d = si.apply(dst);
    proof {
        lemma_sized_idem(src, size);
        lemma_sized_idem(dst, size);
        lemma_wrap_mod(s + d - if s + d > u32::MAX { 0x1_0000_0000int } else { 0 }, size);
        lemma_masks(s.wrapping_add(d));
    }
    let result = si.apply(s.wrapping_add(d));
    let c = (s as u64 + d as u64) > si.mask as u64;
    let v = (si.is_negative(s) == si.is_negative(d)) && (si.is_negative(result) != si.is_negative(s));
    proof {
        lemma_sized_idem(result, size);
    }
    cpu.set_flag(FLAG_N, si.is_negative(result));
    cpu.set_flag(FLAG_Z, result == 0);
    cpu.set_flag(FLAG_V, v);
    cpu.set_flag(FLAG_C, c);
    cpu.set_flag(FLAG_X, c);
    result
}

/// Subtract with full flag computation (N, Z, V, C, X). Computes dst - src.
pub fn sub_with_flags(dst: u32, src: u32, size: Size, cpu: &mut Cpu) -> (r: u32)
    ensures
        r == sub_value(dst, src, size),
        final(cpu)@ == old(cpu)@.with_sr(sub_sr(old(cpu).sr, dst, src, size)),
{
    let si = SizeInfo::new(size);
    let s = si.apply(src);
    let d = si.apply(dst);
    proof {
        lemma_sized_idem(src, size);
        lemma_sized_idem(dst, size);
        lemma_wrap_mod(d - s, size);
        lemma_masks(d.wrapping_sub(s));
    }
    let result = si.apply(d.wrapping_sub(s));
    let c = s > d;
    let v = (si.is_negative(s) != si.is_negative(d)) && (si.is_negative(result) != si.is_negative(d));
    proof {
        lemma_sized_idem(result, size);
    }
    cpu.set_flag(FLAG_N, si.is_negative(result));
    cpu.set_flag(FLAG_Z, result == 0);
    cpu.set_flag(FLAG_V, v);
    cpu.set_flag(FLAG_C, c);
    cpu.set_flag(FLAG_X, c);
    result
}

/// Compare (dst - src) setting only N, Z, V, C (not X)
pub fn cmp_with_flags(dst: u32, src: u32, size: Size, cpu: &mut Cpu)
    ensures
        final(cpu)@ == old(cpu)@.with_sr(compare_sr(old(cpu).sr, dst, src, size)),
{
    let si = SizeInfo::new(size);
    let s = si.apply(src);
    let d = si.apply(dst);
    proof {
        lemma_sized_idem(src, size);
        lemma_sized_idem(dst, size);
        lemma_wrap_mod(d - s, size);
        lemma_masks(d.wrapping_sub(s));
    }
    let result = si.apply(d.wrapping_sub(s));
    let v = (si.is_negative(s) != si.is_negative(d)) && (si.is_negative(result) != si.is_negative(d));
    proof {
        lemma_sized_idem(result, size);
    }
    cpu.set_flag(FLAG_N, si.is_negative(result));
    cpu.set_flag(FLAG_Z, result == 0);
    cpu.set_flag(FLAG_V, v);
    cpu.set_flag(FLAG_C, s > d);
}

/// ADDX with flags (Z is only cleared, never set)
pub fn addx_with_flags(src: u32, dst: u32, x: u32, size: Size, cpu: &mut Cpu) -> (r: u32)
    ensures
        r == addx_value(src, dst, x, size),
        final(cpu)@ == old(cpu)@.with_sr(addx_sr(old(cpu).sr, src, dst, x, size)),
{
    let si = SizeInfo::new(size);
    let mask = si.mask;
    let src_masked = si.apply(src);
    let dst_masked = si.apply(dst);
    let t = src_masked.wrapping_add(dst_masked);
    let u = t.wrapping_add(x);
    proof {
        lemma_sized_idem(src, size);
        lemma_sized_idem(dst, size);
        lemma_wrap2(src_masked as int + dst_masked as int + x, t as int + x, u as int, size);
    }
    let result = si.apply(u);
    proof {
        lemma_sized_idem(result, size);
    }
    let n = si.is_negative(result);
    if result != 0 {
        cpu.set_flag(FLAG_Z, false);
    }
    let c = (src_masked as u64 + dst_masked as u64 + x as u64) > mask as u64;
    let src_neg = si.is_negative(src_masked);
    let dst_neg = si.is_negative(dst_masked);
    let res_neg = n;
    let v = (src_neg == dst_neg) && (res_neg != src_neg);
    proof {
        assert(result == addx_value(src, dst, x, size));
        assert(src_masked == sized(src, size));
        assert(dst_masked == sized(dst, size));
        assert(n == msb(result, size));
        assert(src_neg == msb(src, size));
        assert(dst_neg == msb(dst, size));
        assert(c == (sized(src, size) + sized(dst, size) + x >= modulus(size)));
        assert(v == (msb(src, size) == msb(dst, size) && msb(result, size) != msb(src, size)));
    }
    cpu.set_flag(FLAG_N, n);
    cpu.set_flag(FLAG_V, v);
    cpu.set_flag(FLAG_C, c);
    cpu.set_flag(FLAG_X, c);
    result
}

/// SUBX with flags (Z is only cleared, never set)
pub fn subx_with_flags(dst: u32, src: u32, x: u32, size: Size, cpu: &mut Cpu) -> (r: u32)
    ensures
        r == subx_value(dst, src, x, size),
        final(cpu)@ == old(cpu)@.with_sr(subx_sr(old(cpu).sr, dst, src, x, size)),
{
    let si = SizeInfo::new(size);
    let mask = si.mask;
    let src_masked = si.apply(src);
    let dst_masked = si.apply(dst);
    let t = dst_masked.wrapping_sub(src_masked);
    let u = t.wrapping_sub(x);
    proof {
        lemma_sized_idem(src, size);
        lemma_sized_idem(dst, size);
        lemma_wrap2(dst_masked as int - src_masked as int - x, t as int - x, u as int, size);
    }
    let result = si.apply(u);
    proof {
        lemma_sized_idem(result, size);
    }
    let n = si.is_negative(result);
    if result != 0 {
        cpu.set_flag(FLAG_Z, false);
    }
    let c = (src_masked as u64 + x as u64) > dst_masked as u64;
    let src_neg = si.is_negative(src_masked);
    let dst_neg = si.is_negative(dst_masked);
    let res_neg = n;
    let v = (src_neg != dst_neg) && (res_neg != dst_neg);
    proof {
        assert(result == subx_value(dst, src, x, size));
        assert(src_masked == sized(src, size));
        assert(dst_masked == sized(dst, size));
        assert(n == msb(result, size));
        assert(src_neg == msb(src, size));
        assert(dst_neg == msb(dst, size));
        assert(c == (sized(src, size) + x > sized(dst, size)));
        assert(v == (msb(src, size) != msb(dst, size) && msb(result, size) != msb(dst, size)));
    }
    cpu.set_flag(FLAG_N, n);
    cpu.set_flag(FLAG_V, v);
    cpu.set_flag(FLAG_C, c);
    cpu.set_flag(FLAG_X, c);
    result
}

} // verus!
