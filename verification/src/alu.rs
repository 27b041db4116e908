//! Sized arithmetic, shifts, rotates, BCD and bit fields: the value-level
//! operations behind the instructions.

use vstd::prelude::*;

use crate::decoder::{AddrReg, DataReg, Immediate, RightOrLeft, Size};

verus! {

/// 2^bits for an operand size.
pub open spec fn modulus(size: Size) -> int {
    match size {
        Size::Byte => 0x100,
        Size::Word => 0x1_0000,
        Size::Long => 0x1_0000_0000,
    }
}

/// Number of bytes in an operand of this size.
pub open spec fn bytes_of(size: Size) -> u32 {
    match size {
        Size::Byte => 1,
        Size::Word => 2,
        Size::Long => 4,
    }
}

/// The low `size` part of a value, as an unsigned number.
pub open spec fn sized(v: u32, size: Size) -> u32 {
    (v as int % modulus(size)) as u32
}

/// The sign (most significant) bit of the low `size` part of a value.
pub open spec fn msb(v: u32, size: Size) -> bool {
    sized(v, size) >= modulus(size) / 2
}

/// Register number of a data register.
pub open spec fn dreg(r: DataReg) -> int {
    match r {
        DataReg::D0 => 0,
        DataReg::D1 => 1,
        DataReg::D2 => 2,
        DataReg::D3 => 3,
        DataReg::D4 => 4,
        DataReg::D5 => 5,
        DataReg::D6 => 6,
        DataReg::D7 => 7,
    }
}

/// Register number of an address register.
pub open spec fn areg(r: AddrReg) -> int {
    match r {
        AddrReg::A0 => 0,
        AddrReg::A1 => 1,
        AddrReg::A2 => 2,
        AddrReg::A3 => 3,
        AddrReg::A4 => 4,
        AddrReg::A5 => 5,
        AddrReg::A6 => 6,
        AddrReg::A7 => 7,
    }
}

/// The zero-extended value of immediate data.
pub open spec fn imm_value(imm: Immediate) -> u32 {
    match imm {
        Immediate::Byte(v) => v as u32,
        Immediate::Word(v) => v as u32,
        Immediate::Long(v) => v,
    }
}

/// A register with its low `size` part replaced by that of `value`.
pub open spec fn merge_sized(orig: u32, value: u32, size: Size) -> u32 {
    (orig - sized(orig, size) + sized(value, size)) as u32
}

/// Masking with `2^k - 1` is reduction modulo `2^k`, for the three operand sizes.
pub proof fn lemma_masks(v: u32)
    by (bit_vector)
    ensures
        v & 0xFF == v % 0x100,
        v & 0xFFFF == v % 0x1_0000,
        v & 0xFFFF_FFFF == v,
        (v & 0x80 != 0) == (v % 0x100 >= 0x80),
        (v & 0x8000 != 0) == (v % 0x1_0000 >= 0x8000),
        (v & 0x8000_0000 != 0) == (v >= 0x8000_0000),
{
}

/// The two decimal digits of a byte are its low and high nibbles.
proof fn lemma_nibbles(b: u8)
    by (bit_vector)
    ensures
        b & 0x0F == b % 16,
        b >> 4 == b / 16,
{
}

/// Size-related constants bundled together.
#[derive(Clone, Copy)]
pub struct SizeInfo {
    pub mask: u32,
    pub sign_bit: u32,
    pub bits: u32,
    pub bytes: u32,
}

impl SizeInfo {
    /// The constants of an operand size.
    pub open spec fn of(size: Size) -> SizeInfo {
        match size {
            Size::Byte => SizeInfo { mask: 0xFF, sign_bit: 0x80, bits: 8, bytes: 1 },
            Size::Word => SizeInfo { mask: 0xFFFF, sign_bit: 0x8000, bits: 16, bytes: 2 },
            Size::Long => SizeInfo { mask: 0xFFFF_FFFF, sign_bit: 0x8000_0000, bits: 32, bytes: 4 },
        }
    }

    pub fn new(size: Size) -> (r: Self)
        ensures
            r == Self::of(size),
    {
        match size {
            Size::Byte => Self { mask: 0xFF, sign_bit: 0x80, bits: 8, bytes: 1 },
            Size::Word => Self { mask: 0xFFFF, sign_bit: 0x8000, bits: 16, bytes: 2 },
            Size::Long => Self { mask: 0xFFFF_FFFF, sign_bit: 0x8000_0000, bits: 32, bytes: 4 },
        }
    }

    /// The low part of `value` that this size covers.
    pub fn apply(&self, value: u32) -> (r: u32)
        ensures
            r == value & self.mask,
            forall|s: Size| *self == Self::of(s) ==> r == sized(value, s),
    {
        proof {
            lemma_masks(value);
        }
        value & self.mask
    }

    /// Whether the sign bit of this size is set in `value`.
    pub fn is_negative(&self, value: u32) -> (r: bool)
        ensures
            r == (value & self.sign_bit != 0),
            forall|s: Size| *self == Self::of(s) ==> r == msb(value, s),
    {
        proof {
            lemma_masks(value);
        }
        (value & self.sign_bit) != 0
    }
}

/// Replacing the low byte of a register by masking and or-ing is `merge_sized`.
pub proof fn lemma_merge_byte(d: u32, r: u8)
    ensures
        (d & 0xFFFF_FF00) | (r as u32) == merge_sized(d, r as u32, Size::Byte),
{
    assert((d & 0xFFFF_FF00) | (r as u32) == d - d % 0x100 + (r as u32) % 0x100) by (bit_vector);
}

/// Replacing the low word of a register by masking and or-ing is `merge_sized`.
pub proof fn lemma_merge_word(d: u32, r: u16)
    ensures
        (d & 0xFFFF_0000) | (r as u32) == merge_sized(d, r as u32, Size::Word),
{
    assert((d & 0xFFFF_0000) | (r as u32) == d - d % 0x1_0000 + (r as u32) % 0x1_0000)
        by (bit_vector);
}

/// Replace the low `size` part of a register by that of `value`.
pub fn write_sized_data_reg(orig: u32, value: u32, size: Size) -> (r: u32)
    ensures
        r == merge_sized(orig, value, size),
{
    proof {
        assert((orig & 0xFFFF_FF00) | (value & 0xFF) == orig - orig % 0x100 + value % 0x100 && (orig
            & 0xFFFF_0000) | (value & 0xFFFF) == orig - orig % 0x1_0000 + value % 0x1_0000) by (bit_vector);
    }
    match size {
        Size::Byte => (orig & 0xFFFF_FF00) | (value & 0xFF),
        Size::Word => (orig & 0xFFFF_0000) | (value & 0xFFFF),
        Size::Long => value,
    }
}

/// The low `size` part of `value`.
pub fn size_mask(value: u32, size: Size) -> (r: u32)
    ensures
        r == sized(value, size),
{
    SizeInfo::new(size).apply(value)
}

/// Bytes in an operand of `size`.
pub fn size_to_bytes(size: Size) -> (r: u32)
    ensures
        r == bytes_of(size),
{
    SizeInfo::new(size).bytes
}

/// Register number of a data register.
pub fn data_reg_index(reg: DataReg) -> (r: usize)
    ensures
        r == dreg(reg),
        r < 8,
{
    match reg {
        DataReg::D0 => 0,
        DataReg::D1 => 1,
        DataReg::D2 => 2,
        DataReg::D3 => 3,
        DataReg::D4 => 4,
        DataReg::D5 => 5,
        DataReg::D6 => 6,
        DataReg::D7 => 7,
    }
}

/// Register number of an address register.
pub fn addr_reg_index(reg: AddrReg) -> (r: usize)
    ensures
        r == areg(reg),
        r < 8,
{
    match reg {
        AddrReg::A0 => 0,
        AddrReg::A1 => 1,
        AddrReg::A2 => 2,
        AddrReg::A3 => 3,
        AddrReg::A4 => 4,
        AddrReg::A5 => 5,
        AddrReg::A6 => 6,
        AddrReg::A7 => 7,
    }
}

/// A word sign-extended to a long.
pub open spec fn sext_word(v: u32) -> u32 {
    v as u16 as i16 as i32 as u32
}

/// Sign-extend the low word of a value to a long.
pub fn sign_extend_word(v: u32) -> (r: u32)
    ensures
        r == sext_word(v),
{
    v as u16 as i16 as i32 as u32
}

/// Immediate data, zero-extended to 32 bits.
pub fn imm_to_u32(imm: Immediate) -> (r: u32)
    ensures
        r == imm_value(imm),
{
    match imm {
        Immediate::Byte(v) => v as u32,
        Immediate::Word(v) => v as u32,
        Immediate::Long(v) => v,
    }
}

/// The constants of one of the three operand sizes.
pub open spec fn valid_size_info(si: SizeInfo) -> bool {
    si == SizeInfo::of(Size::Byte) || si == SizeInfo::of(Size::Word) || si == SizeInfo::of(Size::Long)
}

/// Left shift within the operand, and the last bit shifted out; past the operand's
/// width every bit shifted out is 0.
pub open spec fn shl_spec(value: u32, count: u32, si: SizeInfo) -> (u32, bool) {
    if count > si.bits {
        (0, false)
    } else {
        let result = if count >= 32 { 0 } else { (value << count) & si.mask };
        (result, count > 0 && ((value >> ((si.bits - count) as u32)) & 1) != 0)
    }
}

/// Shift left helper - returns (result, carry)
pub fn shift_left(value: u32, count: u32, si: &SizeInfo) -> (r: (u32, bool))
    requires
        valid_size_info(*si),
    ensures
        r == shl_spec(value, count, *si),
{
    if count > si.bits {
        // Past the width the last bit shifted out is one of the zeros shifted in.
        return (0, false);
    }
    // A long shifted by 32 has every bit shifted out.
    let result = if count >= 32 { 0 } else { si.apply(value << count) };
    let carry = count > 0 && (value >> (si.bits - count)) & 1 != 0;
    (result, carry)
}

/// Arithmetic shift (ASL/ASR) of the low `size` part of a value; returns the result
/// and the last bit shifted out.
pub open spec fn asd_spec(value: u32, count: u32, direction: RightOrLeft, size: Size) -> (u32, bool) {
    if count == 0 {
        (value, false)
    } else {
        let si = SizeInfo::of(size);
        match direction {
            RightOrLeft::Left => shl_spec(value, count, si),
            RightOrLeft::Right => {
                let c = if count < si.bits { count } else { si.bits };
                let fill = if (value & si.sign_bit) != 0 {
                    (si.mask << ((si.bits - c) as u32)) & si.mask
                } else {
                    0
                };
                let shifted = if c >= 32 { 0 } else { value >> c };
                ((shifted | fill) & si.mask, ((value >> ((c - 1) as u32)) & 1) != 0)
            },
        }
    }
}

/// Arithmetic shift (ASL/ASR)
pub fn arithmetic_shift(value: u32, count: u32, direction: RightOrLeft, size: Size) -> (r: (u32, bool))
    ensures
        r == asd_spec(value, count, direction, size),
{
    if count == 0 {
        return (value, false);
    }
    let si = SizeInfo::new(size);
    match direction {
        RightOrLeft::Left => shift_left(value, count, &si),
        RightOrLeft::Right => {
            let count = if count < si.bits { count } else { si.bits };
            let mut result = if count >= 32 { 0 } else { value >> count };
            if si.is_negative(value) && count > 0 {
                result = result | si.apply(si.mask << (si.bits - count));
            }
            let carry = count > 0 && (value >> (count - 1)) & 1 != 0;
            proof {
                assert(result | 0 == result) by (bit_vector);
            }
            (si.apply(result), carry)
        },
    }
}

/// Logical shift (LSL/LSR) of the low `size` part of a value; returns the result
/// and the last bit shifted out, 0 once the count passes the operand's width.
pub open spec fn lsd_spec(value: u32, count: u32, direction: RightOrLeft, size: Size) -> (u32, bool) {
    if count == 0 {
        (value, false)
    } else {
        let si = SizeInfo::of(size);
        match direction {
            RightOrLeft::Left => shl_spec(value, count, si),
            RightOrLeft::Right => if count > si.bits {
                (0, false)
            } else {
                (if count >= 32 { 0 } else { (value >> count) & si.mask }, ((value >> ((count - 1) as u32)) & 1) != 0)
            },
        }
    }
}

/// Logical shift (LSL/LSR)
pub fn logical_shift(value: u32, count: u32, direction: RightOrLeft, size: Size) -> (r: (u32, bool))
    ensures
        r == lsd_spec(value, count, direction, size),
{
    if count == 0 {
        return (value, false);
    }
    let si = SizeInfo::new(size);
    match direction {
        RightOrLeft::Left => shift_left(value, count, &si),
        RightOrLeft::Right => {
            if count > si.bits {
                return (0, false);
            }
            let result = if count >= 32 { 0 } else { si.apply(value >> count) };
            let carry = (value >> (count - 1)) & 1 != 0;
            (result, carry)
        },
    }
}

/// Rotate (ROL/ROR) of the low `size` part of a value by `count` modulo its bit width;
/// returns the result and the bit rotated last (the new carry).
pub open spec fn rod_spec(value: u32, count: u32, direction: RightOrLeft, size: Size) -> (u32, bool) {
    let si = SizeInfo::of(size);
    let c = count % si.bits;
    if count == 0 {
        (value, false)
    } else if c == 0 {
        let result = value & si.mask;
        let carry = match direction {
            RightOrLeft::Left => (result & 1) != 0,
            RightOrLeft::Right => ((result >> ((si.bits - 1) as u32)) & 1) != 0,
        };
        (result, carry)
    } else {
        let result = match direction {
            RightOrLeft::Left => ((value << c) | (value >> ((si.bits - c) as u32))) & si.mask,
            RightOrLeft::Right => ((value >> c) | (value << ((si.bits - c) as u32))) & si.mask,
        };
        let carry = match direction {
            RightOrLeft::Left => (result & 1) != 0,
            RightOrLeft::Right => ((result >> ((si.bits - 1) as u32)) & 1) != 0,
        };
        (result, carry)
    }
}

/// Rotate (ROL/ROR)
pub fn rotate(value: u32, count: u32, direction: RightOrLeft, size: Size) -> (r: (u32, bool))
    ensures
        r == rod_spec(value, count, direction, size),
{
    if count == 0 {
        return (value, false);
    }
    let si = SizeInfo::new(size);
    let count = count % si.bits;
    if count == 0 {
        // A whole number of turns: the value is unchanged and the carry is the
        // last bit rotated out, as for any other count.
        let result = si.apply(value);
        let carry = match direction {
            RightOrLeft::Left => result & 1 != 0,
            RightOrLeft::Right => (result >> (si.bits - 1)) & 1 != 0,
        };
        return (result, carry);
    }
    let result = match direction {
        RightOrLeft::Left => si.apply((value << count) | (value >> (si.bits - count))),
        RightOrLeft::Right => si.apply((value >> count) | (value << (si.bits - count))),
    };
    let carry = match direction {
        RightOrLeft::Left => result & 1 != 0,
        RightOrLeft::Right => (result >> (si.bits - 1)) & 1 != 0,
    };
    (result, carry)
}

/// One step of a rotate through the extend bit.
pub open spec fn rox_step(val: u32, x: bool, direction: RightOrLeft, size: Size) -> (u32, bool) {
    let si = SizeInfo::of(size);
    let xb: u32 = if x { 1 } else { 0 };
    match direction {
        RightOrLeft::Left => (
            ((val << 1) | xb) & si.mask,
            ((val >> ((si.bits - 1) as u32)) & 1) != 0,
        ),
        RightOrLeft::Right => ((val >> 1) | (xb << ((si.bits - 1) as u32)), (val & 1) != 0),
    }
}

/// `n` steps of a rotate through the extend bit, from `(val, x)`.
pub open spec fn rox_iter(val: u32, x: bool, n: nat, direction: RightOrLeft, size: Size) -> (u32, bool)
    decreases n,
{
    if n == 0 {
        (val, x)
    } else {
        let p = rox_iter(val, x, (n - 1) as nat, direction, size);
        rox_step(p.0, p.1, direction, size)
    }
}

/// Rotate with extend (ROXL/ROXR) by `count` single steps; returns the result and the
/// new extend bit.
pub open spec fn roxd_spec(value: u32, count: u32, direction: RightOrLeft, size: Size, x: bool) -> (u32, bool) {
    if count == 0 {
        (value, x)
    } else {
        rox_iter(value & SizeInfo::of(size).mask, x, count as nat, direction, size)
    }
}

/// Rotate with extend (ROXL/ROXR)
pub fn rotate_extended(value: u32, count: u32, direction: RightOrLeft, size: Size, x: bool) -> (r: (u32, bool))
    ensures
        r == roxd_spec(value, count, direction, size, x),
{
    if count == 0 {
        return (value, x);
    }
    let si = SizeInfo::new(size);
    let mut val = si.apply(value);
    let mut x_bit = x;
    let mut i: u32 = 0;
    while i < count
        invariant
            si == SizeInfo::of(size),
            i <= count,
            (val, x_bit) == rox_iter(value & si.mask, x, i as nat, direction, size),
        decreases count - i,
    {
        let xb: u32 = if x_bit { 1 } else { 0 };
        match direction {
            RightOrLeft::Left => {
                let msb = (val >> (si.bits - 1)) & 1 != 0;
                val = si.apply((val << 1) | xb);
                x_bit = msb;
            },
            RightOrLeft::Right => {
                let lsb = val & 1 != 0;
                val = (val >> 1) | (xb << (si.bits - 1));
                x_bit = lsb;
            },
        }
        i = i + 1;
    }
    (val, x_bit)
}

/// Low digit of a BCD byte.
pub open spec fn lo_digit(b: u8) -> int {
    b as int % 16
}

/// High digit of a BCD byte.
pub open spec fn hi_digit(b: u8) -> int {
    b as int / 16
}

/// Both digits of the byte are decimal digits.
pub open spec fn valid_bcd(b: u8) -> bool {
    lo_digit(b) <= 9 && hi_digit(b) <= 9
}

/// The decimal value of a valid BCD byte.
pub open spec fn bcd_value(b: u8) -> int {
    hi_digit(b) * 10 + lo_digit(b)
}

/// Digit-wise decimal adjust of a sum, as ABCD computes it.
#[verifier::opaque]
pub open spec fn add_bcd_spec(src: u8, dst: u8, x: u8) -> (u8, bool) {
    let low = lo_digit(dst) + lo_digit(src) + x;
    let low_carry = low > 9;
    let low_result = if low_carry { low + 6 } else { low };
    let high = hi_digit(dst) + hi_digit(src) + if low_carry { 1int } else { 0int };
    let carry = high > 9;
    let high_result = if carry { high + 6 } else { high };
    (((high_result % 16) * 16 + low_result % 16) as u8, carry)
}

/// Add BCD (for ABCD)
pub fn add_bcd(src: u8, dst: u8, x: u8) -> (r: (u8, bool))
    requires
        lo_digit(dst) + lo_digit(src) + x <= 249,
    ensures
        r == add_bcd_spec(src, dst, x),
{
    proof {
        reveal(add_bcd_spec);
        lemma_nibbles(dst);
        lemma_nibbles(src);
    }
    let low = (dst & 0x0F) + (src & 0x0F) + x;
    let (low_result, low_carry) = if low > 9 {
        (low + 6, true)
    } else {
        (low, false)
    };
    let high = (dst >> 4) + (src >> 4) + if low_carry {
        1
    } else {
        0
    };
    let (high_result, carry) = if high > 9 {
        (high + 6, true)
    } else {
        (high, false)
    };
    proof {
        assert(((high_result & 0x0F) << 4) | (low_result & 0x0F) == (high_result % 16) * 16
            + low_result % 16) by (bit_vector);
    }
    let result = ((high_result & 0x0F) << 4) | (low_result & 0x0F);
    (result, carry)
}

/// A difference of bytes taken modulo 256, for differences in `[-256, 255]`.
pub open spec fn wrap_u8(v: int) -> u8 {
    if v < 0 {
        (v + 256) as u8
    } else {
        v as u8
    }
}

/// Digit-wise decimal adjust of a difference, as SBCD computes it (wrapping bytes).
#[verifier::opaque]
pub open spec fn sub_bcd_spec(dst: u8, src: u8, x: u8) -> (u8, bool) {
    let low = wrap_u8(wrap_u8(lo_digit(dst) - lo_digit(src)) - x);
    let low_borrow = low > 9;
    let low_result = if low_borrow { wrap_u8(low - 6) } else { low };
    let high = wrap_u8(wrap_u8(hi_digit(dst) - hi_digit(src)) - if low_borrow { 1int } else { 0int });
    let borrow = high > 9;
    let high_result = if borrow { wrap_u8(high - 6) } else { high };
    (((high_result as int % 16) * 16 + low_result as int % 16) as u8, borrow)
}

/// Subtract BCD (for SBCD)
pub fn sub_bcd(dst: u8, src: u8, x: u8) -> (r: (u8, bool))
    ensures
        r == sub_bcd_spec(dst, src, x),
{
    proof {
        reveal(sub_bcd_spec);
        lemma_nibbles(dst);
        lemma_nibbles(src);
    }
    let low = (dst & 0x0F).wrapping_sub(src & 0x0F).wrapping_sub(x);
    let (low_result, low_borrow) = if low > 9 {
        (low.wrapping_sub(6), true)
    } else {
        (low, false)
    };
    let high = (dst >> 4).wrapping_sub(src >> 4).wrapping_sub(
        if low_borrow {
            1
        } else {
            0
        },
    );
    let (high_result, borrow) = if high > 9 {
        (high.wrapping_sub(6), true)
    } else {
        (high, false)
    };
    proof {
        assert(((high_result & 0x0F) << 4) | (low_result & 0x0F) == (high_result % 16) * 16
            + low_result % 16) by (bit_vector);
    }
    let result = ((high_result & 0x0F) << 4) | (low_result & 0x0F);
    (result, borrow)
}

/// `1 << w` is a positive long for `w < 32`.
pub proof fn lemma_shl_one(w: u32)
    requires
        w < 32,
    ensures
        (1u32 << w) >= 1,
{
    assert((1u32 << w) >= 1) by (bit_vector)
        requires
            w < 32,
    ;
}

/// Rotate a long left by `n` modulo 32.
pub open spec fn rotl(v: u32, n: u32) -> u32 {
    let k = n % 32;
    if k == 0 {
        v
    } else {
        (v << k) | (v >> ((32 - k) as u32))
    }
}

/// Rotate a long right by `n` modulo 32.
pub open spec fn rotr(v: u32, n: u32) -> u32 {
    let k = n % 32;
    if k == 0 {
        v
    } else {
        (v >> k) | (v << ((32 - k) as u32))
    }
}

/// Rotate a long left.
pub fn rotate_left_u32(v: u32, n: u32) -> (r: u32)
    ensures
        r == rotl(v, n),
{
    let k = n % 32;
    if k == 0 {
        v
    } else {
        (v << k) | (v >> (32 - k))
    }
}

/// Rotate a long right.
pub fn rotate_right_u32(v: u32, n: u32) -> (r: u32)
    ensures
        r == rotr(v, n),
{
    let k = n % 32;
    if k == 0 {
        v
    } else {
        (v >> k) | (v << (32 - k))
    }
}

/// The width of a bit field: 0 means 32, and no field is wider than 32.
pub open spec fn bf_width(width: u32) -> u32 {
    if width == 0 {
        32
    } else if width < 32 {
        width
    } else {
        32
    }
}

/// The mask of the low `w` bits, for `1 <= w <= 32`.
pub open spec fn low_mask(w: u32) -> u32 {
    if w >= 32 {
        0xFFFF_FFFF
    } else {
        ((1u32 << w) - 1) as u32
    }
}

/// The bit field of `value` that starts `offset` bits below the most significant bit
/// (wrapping round the register) and is `width` bits wide, right-justified.
pub open spec fn extract_spec(value: u32, offset: u32, width: u32) -> u32 {
    let w = bf_width(width);
    (rotl(value, offset % 32) >> ((32 - w) as u32)) & low_mask(w)
}

/// `dest` with the bit field at `offset`/`width` replaced by the low bits of `src`.
pub open spec fn insert_spec(dest: u32, src: u32, offset: u32, width: u32) -> u32 {
    let o = offset % 32;
    let w = bf_width(width);
    let m = low_mask(w);
    (dest & !rotr(m, (o + w) as u32)) | rotr(src & m, (o + w) as u32)
}

/// Extract a bit field from a 32-bit value.
/// Bit numbering: offset 0 = MSB (bit 31), offset 31 = LSB (bit 0)
/// Returns the field value right-justified in a u32.
pub fn extract_bitfield_from_u32(value: u32, offset: u32, width: u32) -> (r: u32)
    ensures
        r == extract_spec(value, offset, width),
{
    let offset = offset % 32;
    let width = if width == 0 {
        32
    } else if width < 32 {
        width
    } else {
        32
    };
    let shifted = rotate_left_u32(value, offset);
    let mask = if width == 32 {
        0xFFFFFFFF
    } else {
        proof {
            lemma_shl_one(width);
        }
        (1u32 << width) - 1
    };
    (shifted >> (32 - width)) & mask
}

/// Insert a bit field into a u32 value.
/// Returns the modified value with the field inserted.
pub fn insert_bitfield_into_u32(dest_value: u32, src_value: u32, offset: u32, width: u32) -> (r: u32)
    ensures
        r == insert_spec(dest_value, src_value, offset, width),
{
    let offset = offset % 32;
    let width = if width == 0 {
        32
    } else if width < 32 {
        width
    } else {
        32
    };
    let field_mask = if width == 32 {
        0xFFFFFFFF
    } else {
        proof {
            lemma_shl_one(width);
        }
        (1u32 << width) - 1
    };
    let src_bits = src_value & field_mask;
    let rotated_mask = rotate_right_u32(field_mask, offset + width);
    let rotated_src = rotate_right_u32(src_bits, offset + width);
    (dest_value & !rotated_mask) | rotated_src
}

} // verus!
