//! Laws of the value-level operations.

use vstd::prelude::*;

use crate::alu::{
    add_bcd_spec, asd_spec, bcd_value, bf_width, extract_spec, hi_digit, insert_spec, lo_digit, low_mask,
    lemma_masks, lsd_spec, merge_sized, modulus, rod_spec, rotl, rotr, rox_iter, rox_step, roxd_spec, sized, sub_bcd_spec,
    valid_bcd, wrap_u8, SizeInfo,
};
use crate::decoder::{RightOrLeft, Size};

verus! {

/// Writing the low `size` part of a register keeps its upper part and leaves the low
/// part equal to that of the written value.
pub proof fn law_merge_sized(orig: u32, value: u32, size: Size)
    ensures
        sized(merge_sized(orig, value, size), size) == sized(value, size),
        merge_sized(orig, value, size) - sized(merge_sized(orig, value, size), size) == orig
            - sized(orig, size),
{
    let m = modulus(size);
    let hi = orig - sized(orig, size);
    assert(sized(orig, size) == orig as int % m);
    assert(hi % m == 0) by (nonlinear_arith)
        requires
            hi == orig as int - orig as int % m,
            m > 0,
    ;
    let r = hi + sized(value, size);
    assert(0 <= sized(value, size) < m);
    assert(r % m == sized(value, size)) by (nonlinear_arith)
        requires
            r == hi + sized(value, size),
            hi % m == 0,
            0 <= sized(value, size) < m,
            m > 0,
    ;
}

/// Extracting the bit field just inserted gives back the low `width` bits of the
/// inserted value.
pub proof fn law_extract_after_insert(dest: u32, src: u32, offset: u32, width: u32)
    ensures
        extract_spec(insert_spec(dest, src, offset, width), offset, width) == src & low_mask(
            bf_width(width),
        ),
{
    let o = offset % 32;
    let w = bf_width(width);
    let m = low_mask(w);
    let k = ((o + w) as u32) % 32;
    let r = insert_spec(dest, src, offset, width);
    let rm = rotr(m, (o + w) as u32);
    let rs = rotr(src & m, (o + w) as u32);
    let rl = rotl(r, o);
    assert(1 <= w <= 32);
    assert(o < 32);
    assert((rl >> ((32 - w) as u32)) & m == src & m) by (bit_vector)
        requires
            1 <= w <= 32,
            o < 32,
            k == (o + w) % 32,
            m == (if w == 32 { 0xFFFF_FFFFu32 } else { ((1u32 << w) - 1) as u32 }),
            rm == (if k == 0 { m } else { (m >> k) | (m << ((32 - k) as u32)) }),
            rs == (if k == 0 { src & m } else { ((src & m) >> k) | ((src & m) << ((32 - k) as u32)) }),
            r == (dest & !rm) | rs,
            rl == (if o == 0 { r } else { (r << o) | (r >> ((32 - o) as u32)) }),
    ;
}

/// Inserting twice into the same bit field keeps only the second insertion.
pub proof fn law_insert_twice(dest: u32, first: u32, second: u32, offset: u32, width: u32)
    ensures
        insert_spec(insert_spec(dest, first, offset, width), second, offset, width) == insert_spec(
            dest,
            second,
            offset,
            width,
        ),
{
    let o = offset % 32;
    let w = bf_width(width);
    let m = low_mask(w);
    let k = ((o + w) as u32) % 32;
    let rm = rotr(m, (o + w) as u32);
    let r1 = rotr(first & m, (o + w) as u32);
    let r2 = rotr(second & m, (o + w) as u32);
    assert(((((dest & !rm) | r1) & !rm) | r2) == (dest & !rm) | r2) by (bit_vector)
        requires
            1 <= w <= 32,
            m == (if w == 32 { 0xFFFF_FFFFu32 } else { ((1u32 << w) - 1) as u32 }),
            rm == (if k == 0 { m } else { (m >> k) | (m << ((32 - k) as u32)) }),
            r1 == (if k == 0 { first & m } else { ((first & m) >> k) | ((first & m) << ((32 - k) as u32)) }),
            k < 32,
    ;
}

/// Inserting a register's own bit field back into it leaves the register as it was.
pub proof fn law_insert_extracted(dest: u32, offset: u32, width: u32)
    ensures
        insert_spec(dest, extract_spec(dest, offset, width), offset, width) == dest,
{
    let o = offset % 32;
    let w = bf_width(width);
    let m = low_mask(w);
    let k = ((o + w) as u32) % 32;
    let rm = rotr(m, (o + w) as u32);
    let rl = rotl(dest, o);
    let f = (rl >> ((32 - w) as u32)) & m;
    let rf = rotr(f & m, (o + w) as u32);
    assert(o < 32);
    assert((dest & !rm) | rf == dest) by (bit_vector)
        requires
            1 <= w <= 32,
            o < 32,
            k == (o + w) % 32,
            m == (if w == 32 { 0xFFFF_FFFFu32 } else { ((1u32 << w) - 1) as u32 }),
            rm == (if k == 0 { m } else { (m >> k) | (m << ((32 - k) as u32)) }),
            rl == (if o == 0 { dest } else { (dest << o) | (dest >> ((32 - o) as u32)) }),
            f == (rl >> ((32 - w) as u32)) & m,
            rf == (if k == 0 { f & m } else { ((f & m) >> k) | ((f & m) << ((32 - k) as u32)) }),
    ;
}

/// Rotating the low `size` part of a value left and then right by the same count gives
/// the value back.
pub proof fn law_rotate_roundtrip(v: u32, count: u32, size: Size)
    requires
        v == v & SizeInfo::of(size).mask,
        count > 0,
    ensures
        rod_spec(rod_spec(v, count, RightOrLeft::Left, size).0, count, RightOrLeft::Right, size).0 == v,
{
    let si = SizeInfo::of(size);
    let c = count % si.bits;
    let l = rod_spec(v, count, RightOrLeft::Left, size).0;
    if c != 0 {
        let b = si.bits;
        let mk = si.mask;
        assert(((((l >> c) | (l << ((b - c) as u32))) & mk) == v)) by (bit_vector)
            requires
                (b == 8u32 && mk == 0xFFu32) || (b == 16u32 && mk == 0xFFFFu32) || (b == 32u32 && mk
                    == 0xFFFF_FFFFu32),
                0 < c < b,
                v == v & mk,
                l == ((v << c) | (v >> ((b - c) as u32))) & mk,
        ;
    }
}

/// A logical shift, or an arithmetic shift to the left, by more than the operand's
/// width shifts every bit out: the result is 0 and so is the last bit shifted out.
pub proof fn law_shift_past_width(v: u32, count: u32, direction: RightOrLeft, size: Size)
    requires
        count > SizeInfo::of(size).bits,
    ensures
        lsd_spec(v, count, direction, size) == (0u32, false),
        asd_spec(v, count, RightOrLeft::Left, size) == (0u32, false),
{
}

/// One step left and then one step right through the extend bit give back the value
/// and the extend bit.
proof fn lemma_rox_step_back(v: u32, x: bool, size: Size)
    requires
        v == v & SizeInfo::of(size).mask,
    ensures
        ({
            let l = rox_step(v, x, RightOrLeft::Left, size);
            rox_step(l.0, l.1, RightOrLeft::Right, size) == (v, x)
        }),
{
    let si = SizeInfo::of(size);
    let b = si.bits;
    let mk = si.mask;
    let xb: u32 = if x { 1 } else { 0 };
    let l0 = ((v << 1) | xb) & mk;
    let lb: u32 = (v >> ((b - 1) as u32)) & 1;
    assert(((l0 >> 1) | (lb << ((b - 1) as u32))) == v && (l0 & 1) == xb && lb <= 1) by (bit_vector)
        requires
            (b == 8u32 && mk == 0xFFu32) || (b == 16u32 && mk == 0xFFFFu32) || (b == 32u32 && mk == 0xFFFF_FFFFu32),
            v == v & mk,
            xb == 0u32 || xb == 1u32,
            l0 == ((v << 1) | xb) & mk,
            lb == (v >> ((b - 1) as u32)) & 1,
    ;
}

/// `n` steps are one step followed by `n - 1` steps.
proof fn lemma_rox_iter_first(v: u32, x: bool, n: nat, direction: RightOrLeft, size: Size)
    requires
        n >= 1,
    ensures
        rox_iter(v, x, n, direction, size) == ({
            let s = rox_step(v, x, direction, size);
            rox_iter(s.0, s.1, (n - 1) as nat, direction, size)
        }),
    decreases n,
{
    let s = rox_step(v, x, direction, size);
    if n > 1 {
        lemma_rox_iter_first(v, x, (n - 1) as nat, direction, size);
        let p = rox_iter(v, x, (n - 1) as nat, direction, size);
        assert(p == rox_iter(s.0, s.1, (n - 2) as nat, direction, size));
        assert(rox_iter(s.0, s.1, (n - 1) as nat, direction, size) == rox_step(p.0, p.1, direction, size));
    } else {
        assert(rox_iter(v, x, 0, direction, size) == (v, x));
        assert(rox_iter(s.0, s.1, 0, direction, size) == s);
    }
}

/// Rotating left through the extend bit keeps a value within its size.
proof fn lemma_roxl_stays_sized(v: u32, x: bool, n: nat, size: Size)
    requires
        v == v & SizeInfo::of(size).mask,
    ensures
        rox_iter(v, x, n, RightOrLeft::Left, size).0 == rox_iter(v, x, n, RightOrLeft::Left, size).0 & SizeInfo::of(
            size,
        ).mask,
    decreases n,
{
    if n > 0 {
        lemma_roxl_stays_sized(v, x, (n - 1) as nat, size);
        let p = rox_iter(v, x, (n - 1) as nat, RightOrLeft::Left, size);
        let xb: u32 = if p.1 { 1 } else { 0 };
        let w = (p.0 << 1) | xb;
        let mk = SizeInfo::of(size).mask;
        lemma_masks(w);
        lemma_masks(w & mk);
    }
}

/// `n` steps right undo `n` steps left.
proof fn lemma_rox_iter_back(v: u32, x: bool, n: nat, size: Size)
    requires
        v == v & SizeInfo::of(size).mask,
    ensures
        ({
            let l = rox_iter(v, x, n, RightOrLeft::Left, size);
            rox_iter(l.0, l.1, n, RightOrLeft::Right, size) == (v, x)
        }),
    decreases n,
{
    if n > 0 {
        let t = rox_iter(v, x, (n - 1) as nat, RightOrLeft::Left, size);
        lemma_roxl_stays_sized(v, x, (n - 1) as nat, size);
        let l = rox_step(t.0, t.1, RightOrLeft::Left, size);
        lemma_rox_iter_first(l.0, l.1, n, RightOrLeft::Right, size);
        lemma_rox_step_back(t.0, t.1, size);
        lemma_rox_iter_back(v, x, (n - 1) as nat, size);
    }
}

/// ROXR by a count undoes ROXL by the same count: for a value within its size, the
/// value and the extend bit come back.
pub proof fn law_roxr_undoes_roxl(v: u32, x: bool, count: u32, size: Size)
    requires
        v == v & SizeInfo::of(size).mask,
    ensures
        ({
            let l = roxd_spec(v, count, RightOrLeft::Left, size, x);
            roxd_spec(l.0, count, RightOrLeft::Right, size, l.1) == (v, x)
        }),
{
    if count > 0 {
        lemma_roxl_stays_sized(v, x, count as nat, size);
        lemma_rox_iter_back(v, x, count as nat, size);
    }
}

/// ABCD adds decimally: for valid BCD operands and an extend bit of 0 or 1, the result
/// is the valid BCD form of the sum modulo 100 and the carry says whether the sum
/// reached 100.
pub proof fn law_add_bcd_decimal(src: u8, dst: u8, x: u8)
    requires
        valid_bcd(src),
        valid_bcd(dst),
        x <= 1,
    ensures
        valid_bcd(add_bcd_spec(src, dst, x).0),
        bcd_value(add_bcd_spec(src, dst, x).0) == (bcd_value(src) + bcd_value(dst) + x) % 100,
        add_bcd_spec(src, dst, x).1 == (bcd_value(src) + bcd_value(dst) + x >= 100),
{
    reveal(add_bcd_spec);
    let r = add_bcd_spec(src, dst, x);
    let low = lo_digit(dst) + lo_digit(src) + x;
    let lc: int = if low > 9 { 1 } else { 0 };
    let lr = if low > 9 { low + 6 } else { low };
    let high = hi_digit(dst) + hi_digit(src) + lc;
    let hr = if high > 9 { high + 6 } else { high };
    assert(lr % 16 == low - 10 * lc);
    assert(hr % 16 == high - (if high > 9 { 10int } else { 0int }));
    let res = (hr % 16) * 16 + lr % 16;
    assert(0 <= res < 256);
    assert(r.0 as int == res);
    assert(lo_digit(r.0) == lr % 16);
    assert(hi_digit(r.0) == hr % 16);
}

/// SBCD subtracts decimally: for valid BCD operands and an extend bit of 0 or 1, the
/// result is the valid BCD form of the difference modulo 100 and the borrow says
/// whether the difference was negative.
pub proof fn law_sub_bcd_decimal(dst: u8, src: u8, x: u8)
    requires
        valid_bcd(src),
        valid_bcd(dst),
        x <= 1,
    ensures
        valid_bcd(sub_bcd_spec(dst, src, x).0),
        bcd_value(sub_bcd_spec(dst, src, x).0) == (bcd_value(dst) - bcd_value(src) - x) % 100,
        sub_bcd_spec(dst, src, x).1 == (bcd_value(dst) - bcd_value(src) - x < 0),
{
    reveal(sub_bcd_spec);
    let r = sub_bcd_spec(dst, src, x);
    let d = lo_digit(dst) - lo_digit(src) - x;
    let lb: int = if d < 0 { 1 } else { 0 };
    let low = wrap_u8(wrap_u8(lo_digit(dst) - lo_digit(src)) - x);
    assert(low as int == if d < 0 { d + 256 } else { d });
    let lr = if low > 9 { wrap_u8(low - 6) } else { low };
    assert(lr as int % 16 == d + 10 * lb);
    let e = hi_digit(dst) - hi_digit(src) - lb;
    let high = wrap_u8(wrap_u8(hi_digit(dst) - hi_digit(src)) - lb);
    assert(high as int == if e < 0 { e + 256 } else { e });
    let hb: int = if e < 0 { 1 } else { 0 };
    let hr = if high > 9 { wrap_u8(high - 6) } else { high };
    assert(hr as int % 16 == e + 10 * hb);
    let res = (hr as int % 16) * 16 + lr as int % 16;
    assert(r.0 as int == res);
    assert(lo_digit(r.0) == lr as int % 16);
    assert(hi_digit(r.0) == hr as int % 16);
    let total = bcd_value(dst) - bcd_value(src) - x;
    assert(total == 10 * e + d + 10 * lb);
    assert(bcd_value(r.0) == total + 100 * hb);
    assert(-100 <= total < 100);
}

} // verus!
