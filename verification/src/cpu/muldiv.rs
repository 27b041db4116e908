//! Multiply and divide: MULU/MULS (16x16), DIVU/DIVS (32/16), and the 68020 long
//! forms MULU.L/MULS.L and DIVU.L/DIVS.L.

use vstd::prelude::*;

use crate::alu::{data_reg_index, dreg};
use crate::cpu::operand::{read_operand_spec, read_word_spec};
use crate::cpu::{nz_sr, only_addr_regs_moved, outcome, with_flag, Cpu, CpuModel, FLAG_C, FLAG_N, FLAG_V, FLAG_Z};
use crate::decoder::{AddressingMode, DataReg, Instruction, Size};
use crate::error::CpuError;

verus! {

/// The magnitude of an integer.
pub open spec fn abs_int(a: int) -> int {
    if a < 0 {
        -a
    } else {
        a
    }
}

/// Integer division rounding toward zero, as Rust's `/` on signed integers: the
/// quotient of the magnitudes, negated where the signs differ.
pub open spec fn trunc_div(a: int, b: int) -> int {
    if (a < 0) == (b < 0) {
        abs_int(a) / abs_int(b)
    } else {
        -(abs_int(a) / abs_int(b))
    }
}

/// The remainder of division rounding toward zero; it has the sign of `a`.
pub open spec fn trunc_rem(a: int, b: int) -> int {
    if a < 0 {
        -(abs_int(a) % abs_int(b))
    } else {
        abs_int(a) % abs_int(b)
    }
}

/// Condition codes after MULU/MULS: C and V cleared, then N and Z from the long result.
pub open spec fn mul_sr(sr: u16, result: u32) -> u16 {
    nz_sr(with_flag(with_flag(sr, FLAG_C, false), FLAG_V, false), result, Size::Long)
}

/// Condition codes after a division that overflows: V set, C cleared.
pub open spec fn div_overflow_sr(sr: u16) -> u16 {
    with_flag(with_flag(sr, FLAG_V, true), FLAG_C, false)
}

/// Condition codes after a division that fits: N and Z as given, V and C cleared.
pub open spec fn div_sr(sr: u16, n: bool, z: bool) -> u16 {
    with_flag(with_flag(with_flag(with_flag(sr, FLAG_N, n), FLAG_Z, z), FLAG_V, false), FLAG_C, false)
}

/// MULU: unsigned 16x16 -> 32 product of a word operand and the low word of Dn.
pub open spec fn mulu_spec(m: CpuModel, src: AddressingMode, dst: DataReg) -> Result<CpuModel, CpuError> {
    match read_word_spec(m, src) {
        Err(e) => Err(e),
        Ok((m1, s)) => {
            let i = dreg(dst);
            let r = ((m1.d[i] as u16) as int * s as int) as u32;
            Ok(m1.with_d(i, r).with_sr(mul_sr(m1.sr, r)))
        },
    }
}

/// MULS: signed 16x16 -> 32 product of a word operand and the low word of Dn.
pub open spec fn muls_spec(m: CpuModel, src: AddressingMode, dst: DataReg) -> Result<CpuModel, CpuError> {
    match read_word_spec(m, src) {
        Err(e) => Err(e),
        Ok((m1, s)) => {
            let i = dreg(dst);
            let r = ((m1.d[i] as u16 as i16) as int * (s as i16) as int) as i32 as u32;
            Ok(m1.with_d(i, r).with_sr(mul_sr(m1.sr, r)))
        },
    }
}

/// DIVU: unsigned 32/16; quotient in the low word and remainder in the high word,
/// or V set and Dn kept where the quotient needs more than 16 bits.
pub open spec fn divu_spec(m: CpuModel, inst_addr: usize, src: AddressingMode, dst: DataReg) -> Result<CpuModel, CpuError> {
    match read_operand_spec(m, src, Size::Word, inst_addr) {
        Err(e) => Err(e),
        Ok((m1, v)) => {
            let divisor = v as u16 as int;
            if divisor == 0 {
                Err(CpuError::DivisionByZero)
            } else {
                let i = dreg(dst);
                let q = m1.d[i] as int / divisor;
                let r = m1.d[i] as int % divisor;
                if q > 0xFFFF {
                    Ok(m1.with_sr(div_overflow_sr(m1.sr)))
                } else {
                    Ok(m1.with_d(i, (r * 0x1_0000 + q) as u32).with_sr(div_sr(m1.sr, q >= 0x8000, q == 0)))
                }
            }
        },
    }
}

/// DIVS: signed 32/16 rounding toward zero; quotient in the low word and remainder
/// (sign of the dividend) in the high word, or V set where the quotient needs more
/// than 16 bits.
pub open spec fn divs_spec(m: CpuModel, inst_addr: usize, src: AddressingMode, dst: DataReg) -> Result<CpuModel, CpuError> {
    match read_operand_spec(m, src, Size::Word, inst_addr) {
        Err(e) => Err(e),
        Ok((m1, v)) => {
            let divisor = (v as i16) as int;
            if divisor == 0 {
                Err(CpuError::DivisionByZero)
            } else {
                let i = dreg(dst);
                let dividend = (m1.d[i] as i32) as int;
                let q = trunc_div(dividend, divisor);
                let r = trunc_rem(dividend, divisor);
                if !(-32768 <= q <= 32767) {
                    Ok(m1.with_sr(div_overflow_sr(m1.sr)))
                } else {
                    let value = ((r as u16) as int * 0x1_0000 + (q as u16) as int) as u32;
                    Ok(m1.with_d(i, value).with_sr(div_sr(m1.sr, (q as u16) >= 0x8000, q == 0)))
                }
            }
        },
    }
}

/// DIVU.L: unsigned 64/32 (Dr:Dq) or 32/32 (Dq) division; quotient to Dq and
/// remainder to Dr (in the 32-bit form only where Dr is not Dq).
pub open spec fn divul_spec(m: CpuModel, inst_addr: usize, src: AddressingMode, dq: DataReg, dr: DataReg, is_64bit: bool) -> Result<
    CpuModel,
    CpuError,
> {
    match read_operand_spec(m, src, Size::Long, inst_addr) {
        Err(e) => Err(e),
        Ok((m1, divisor)) => if divisor == 0 {
            Err(CpuError::DivisionByZero)
        } else {
            let qi = dreg(dq);
            let ri = dreg(dr);
            if is_64bit {
                let dividend = m1.d[ri] as int * 0x1_0000_0000 + m1.d[qi] as int;
                let q = dividend / divisor as int;
                let r = dividend % divisor as int;
                if q > 0xFFFF_FFFF {
                    Ok(m1.with_sr(div_overflow_sr(m1.sr)))
                } else {
                    Ok(m1.with_d(qi, q as u32).with_d(ri, r as u32).with_sr(div_sr(m1.sr, q >= 0x8000_0000, q == 0)))
                }
            } else {
                let q = (m1.d[qi] / divisor) as u32;
                let r = (m1.d[qi] % divisor) as u32;
                let m2 = m1.with_d(qi, q);
                let m3 = if ri != qi {
                    m2.with_d(ri, r)
                } else {
                    m2
                };
                Ok(m3.with_sr(div_sr(m3.sr, q >= 0x8000_0000, q == 0)))
            }
        },
    }
}

/// DIVS.L: signed 64/32 (Dr:Dq) or 32/32 (Dq) division rounding toward zero;
/// quotient to Dq and remainder to Dr (in the 32-bit form only where Dr is not Dq),
/// or V set and the registers kept where the quotient does not fit a signed long.
pub open spec fn divsl_spec(m: CpuModel, inst_addr: usize, src: AddressingMode, dq: DataReg, dr: DataReg, is_64bit: bool) -> Result<
    CpuModel,
    CpuError,
> {
    match read_operand_spec(m, src, Size::Long, inst_addr) {
        Err(e) => Err(e),
        Ok((m1, v)) => {
            let divisor = (v as i32) as int;
            if divisor == 0 {
                Err(CpuError::DivisionByZero)
            } else {
                let qi = dreg(dq);
                let ri = dreg(dr);
                if is_64bit {
                    let dividend = ((m1.d[ri] as int * 0x1_0000_0000 + m1.d[qi] as int) as i64) as int;
                    let q = trunc_div(dividend, divisor);
                    let r = trunc_rem(dividend, divisor);
                    if q < i32::MIN || q > i32::MAX {
                        Ok(m1.with_sr(div_overflow_sr(m1.sr)))
                    } else {
                        Ok(m1.with_d(qi, q as u32).with_d(ri, r as u32).with_sr(div_sr(m1.sr, q < 0, q == 0)))
                    }
                } else {
                    let dividend = (m1.d[qi] as i32) as int;
                    let q = trunc_div(dividend, divisor);
                    let r = trunc_rem(dividend, divisor);
                    if q < i32::MIN || q > i32::MAX {
                        Ok(m1.with_sr(div_overflow_sr(m1.sr)))
                    } else {
                        let m2 = m1.with_d(qi, q as u32);
                        let m3 = if ri != qi {
                            m2.with_d(ri, r as u32)
                        } else {
                            m2
                        };
                        Ok(m3.with_sr(div_sr(m3.sr, q < 0, q == 0)))
                    }
                }
            }
        },
    }
}

/// MULU.L: unsigned 32x32 product; 64-bit into Dh:Dl, or the low long into Dl with V
/// set where the product needs more than 32 bits.
pub open spec fn mulul_spec(m: CpuModel, inst_addr: usize, src: AddressingMode, dl: DataReg, dh: Option<DataReg>) -> Result<
    CpuModel,
    CpuError,
> {
    match read_operand_spec(m, src, Size::Long, inst_addr) {
        Err(e) => Err(e),
        Ok((m1, v)) => {
            let li = dreg(dl);
            let p = v as int * m1.d[li] as int;
            let lo = (p % 0x1_0000_0000) as u32;
            let m2 = m1.with_d(li, lo);
            match dh {
                Some(h) => {
                    let m3 = m2.with_d(dreg(h), (p / 0x1_0000_0000) as u32);
                    Ok(m3.with_sr(with_flag(with_flag(with_flag(with_flag(m3.sr, FLAG_N, p >= 0x8000_0000_0000_0000), FLAG_Z, p == 0), FLAG_V, false), FLAG_C, false)))
                },
                None => Ok(m2.with_sr(with_flag(with_flag(with_flag(with_flag(m2.sr, FLAG_N, lo >= 0x8000_0000), FLAG_Z, lo == 0), FLAG_V, p > 0xFFFF_FFFF), FLAG_C, false))),
            }
        },
    }
}

/// MULS.L: signed 32x32 product; 64-bit into Dh:Dl, or the low long into Dl with V
/// set where the product does not fit a signed long.
pub open spec fn mulsl_spec(m: CpuModel, inst_addr: usize, src: AddressingMode, dl: DataReg, dh: Option<DataReg>) -> Result<
    CpuModel,
    CpuError,
> {
    match read_operand_spec(m, src, Size::Long, inst_addr) {
        Err(e) => Err(e),
        Ok((m1, v)) => {
            let li = dreg(dl);
            let p = (v as i32) as int * (m1.d[li] as i32) as int;
            let lo = (p as i64) as u32;
            let m2 = m1.with_d(li, lo);
            match dh {
                Some(h) => {
                    let m3 = m2.with_d(dreg(h), ((p as i64) >> 32u64) as u32);
                    Ok(m3.with_sr(with_flag(with_flag(with_flag(with_flag(m3.sr, FLAG_N, p < 0), FLAG_Z, p == 0), FLAG_V, false), FLAG_C, false)))
                },
                None => Ok(m2.with_sr(with_flag(with_flag(with_flag(with_flag(m2.sr, FLAG_N, lo >= 0x8000_0000), FLAG_Z, lo == 0), FLAG_V, !(i32::MIN <= p <= i32::MAX)), FLAG_C, false))),
            }
        },
    }
}

proof fn lemma_join_words(r: u32, q: u32)
    requires
        r < 0x1_0000,
        q < 0x1_0000,
    ensures
        (r << 16) | q == r * 0x1_0000 + q,
{
    assert((r << 16) | q == r * 0x1_0000 + q) by (bit_vector)
        requires
            r < 0x1_0000,
            q < 0x1_0000,
    ;
}

proof fn lemma_join_longs(hi: u32, lo: u32)
    ensures
        ((hi as u64) << 32u64) | (lo as u64) == hi as int * 0x1_0000_0000 + lo as int,
{
    assert(((hi as u64) << 32u64) | (lo as u64) == hi as u64 * 0x1_0000_0000 + lo as u64) by (bit_vector);
}

proof fn lemma_mul_u32_bound(a: u32, b: u32)
    ensures
        a as int * b as int <= 0xFFFF_FFFE_0000_0001,
{
    assert(a as int * b as int <= 0xFFFF_FFFF * 0xFFFF_FFFF) by (nonlinear_arith)
        requires
            a <= 0xFFFF_FFFF,
            b <= 0xFFFF_FFFF,
    ;
}

proof fn lemma_mul_u16_bound(a: u16, b: u16)
    ensures
        a as int * b as int <= 0xFFFE_0001,
{
    assert(a as int * b as int <= 0xFFFF * 0xFFFF) by (nonlinear_arith)
        requires
            a <= 0xFFFF,
            b <= 0xFFFF,
    ;
}

proof fn lemma_mul_i16_bound(a: i16, b: i16)
    ensures
        -0x4000_0000 <= a as int * b as int <= 0x4000_0000,
{
    assert(-0x4000_0000 <= a as int * b as int <= 0x4000_0000) by (nonlinear_arith)
        requires
            -0x8000 <= a <= 0x7FFF,
            -0x8000 <= b <= 0x7FFF,
    ;
}

proof fn lemma_mul_i32_bound(a: i32, b: i32)
    ensures
        -0x4000_0000_0000_0000 <= a as int * b as int <= 0x4000_0000_0000_0000,
{
    assert(-0x4000_0000_0000_0000 <= a as int * b as int <= 0x4000_0000_0000_0000) by (nonlinear_arith)
        requires
            -0x8000_0000 <= a <= 0x7FFF_FFFF,
            -0x8000_0000 <= b <= 0x7FFF_FFFF,
    ;
}

/// The magnitude of a signed 64-bit value, as an unsigned one (the most negative
/// value included).
fn magnitude(a: i64) -> (m: u64)
    ensures
        m as int == abs_int(a as int),
{
    if a >= 0 {
        a as u64
    } else if a == i64::MIN {
        0x8000_0000_0000_0000u64
    } else {
        (-a) as u64
    }
}

/// Signed division rounding toward zero, with its remainder, computed on the
/// magnitudes. The one quotient that does not fit (the most negative value divided
/// by -1) is left out.
fn signed_div_rem(a: i64, b: i64) -> (qr: (i64, i64))
    requires
        b != 0,
        !(a == i64::MIN && b == -1),
    ensures
        qr.0 as int == trunc_div(a as int, b as int),
        qr.1 as int == trunc_rem(a as int, b as int),
{
    let ua = magnitude(a);
    let ub = magnitude(b);
    let uq = ua / ub;
    let ur = ua % ub;
    proof {
        vstd::arithmetic::div_mod::lemma_div_is_ordered_by_denominator(ua as int, 1, ub as int);
        if ub >= 2 {
            vstd::arithmetic::div_mod::lemma_div_is_ordered_by_denominator(ua as int, 2, ub as int);
        }
    }
    let q: i64 = if (a < 0) == (b < 0) {
        uq as i64
    } else if uq == 0x8000_0000_0000_0000u64 {
        i64::MIN
    } else {
        -(uq as i64)
    };
    let r: i64 = if a < 0 {
        -(ur as i64)
    } else {
        ur as i64
    };
    (q, r)
}

impl Cpu {
    // MULU - Unsigned Multiply
    pub fn exec_mulu(&mut self, src: AddressingMode, dst: DataReg) -> (r: Result<(), CpuError>)
        ensures
            outcome(r, final(self)@, mulu_spec(old(self)@, src, dst)),
    {
        let src_val = self.read_word_unsigned(src)?;
        let dst_idx = data_reg_index(dst);
        let dst_val = self.data_regs[dst_idx] as u16 as u32;
        proof {
            lemma_mul_u16_bound(self.data_regs[dst_idx as int] as u16, src_val);
        }
        let result = dst_val.wrapping_mul(src_val as u32);
        self.data_regs[dst_idx] = result;
        self.set_flag(FLAG_C, false);
        self.set_flag(FLAG_V, false);
        self.update_nz_flags(result);
        Ok(())
    }

    // MULS - Signed Multiply
    pub fn exec_muls(&mut self, src: AddressingMode, dst: DataReg) -> (r: Result<(), CpuError>)
        ensures
            outcome(r, final(self)@, muls_spec(old(self)@, src, dst)),
    {
        let src_val = self.read_word_signed(src)?;
        let dst_idx = data_reg_index(dst);
        let dst_val = self.data_regs[dst_idx] as u16 as i16 as i32;
        proof {
            lemma_mul_i16_bound(self.data_regs[dst_idx as int] as u16 as i16, src_val);
        }
        let result = dst_val.wrapping_mul(src_val as i32);
        self.data_regs[dst_idx] = result as u32;
        self.set_flag(FLAG_C, false);
        self.set_flag(FLAG_V, false);
        self.update_nz_flags(result as u32);
        Ok(())
    }

    // DIVU - Unsigned Divide
    pub fn exec_divu(&mut self, inst: &Instruction, src: AddressingMode, dst: DataReg) -> (r: Result<(), CpuError>)
        ensures
            outcome(r, final(self)@, divu_spec(old(self)@, inst.address, src, dst)),
            r is Err ==> only_addr_regs_moved(old(self)@, final(self)@),
    {
        let divisor = self.read_operand(&src, Size::Word, inst.address)? as u16;
        if divisor == 0 {
            return Err(CpuError::DivisionByZero);
        }
        let idx = data_reg_index(dst);
        let dividend = self.data_regs[idx];
        let quotient = dividend / (divisor as u32);
        let remainder = dividend % (divisor as u32);
        if quotient > 0xFFFF {
            self.set_flag(FLAG_V, true);
            self.set_flag(FLAG_C, false);
        } else {
            proof {
                lemma_join_words(remainder, quotient);
                assert((quotient & 0x8000 != 0) == (quotient >= 0x8000)) by (bit_vector)
                    requires
                        quotient <= 0xFFFF,
                ;
            }
            self.data_regs[idx] = ((remainder as u32) << 16) | (quotient as u32);
            self.set_flag(FLAG_N, (quotient & 0x8000) != 0);
            self.set_flag(FLAG_Z, quotient == 0);
            self.set_flag(FLAG_V, false);
            self.set_flag(FLAG_C, false);
        }
        Ok(())
    }
    // DIVS - Signed Divide
    pub fn exec_divs(&mut self, inst: &Instruction, src: AddressingMode, dst: DataReg) -> (r: Result<(), CpuError>)
        ensures
            outcome(r, final(self)@, divs_spec(old(self)@, inst.address, src, dst)),
            r is Err ==> only_addr_regs_moved(old(self)@, final(self)@),
    {
        let divisor = self.read_operand(&src, Size::Word, inst.address)? as i16;
        if divisor == 0 {
            return Err(CpuError::DivisionByZero);
        }
        let idx = data_reg_index(dst);
        let dividend = self.data_regs[idx] as i32;
        let (quotient, remainder) = signed_div_rem(dividend as i64, divisor as i64);
        if quotient < -32768 || quotient > 32767 {
            self.set_flag(FLAG_V, true);
            self.set_flag(FLAG_C, false);
        } else {
            let rw = remainder as u16 as u32;
            let qw = quotient as u16 as u32;
            proof {
                lemma_join_words(rw, qw);
                assert((qw & 0x8000 != 0) == (qw >= 0x8000)) by (bit_vector)
                    requires
                        qw <= 0xFFFF,
                ;
            }
            self.data_regs[idx] = (rw << 16) | qw;
            self.set_flag(FLAG_N, (qw & 0x8000) != 0);
            self.set_flag(FLAG_Z, quotient == 0);
            self.set_flag(FLAG_V, false);
            self.set_flag(FLAG_C, false);
        }
        Ok(())
    }

    // DIVU.L - 32-bit unsigned divide (68020+)
    pub fn exec_divul(&mut self, inst: &Instruction, src: &AddressingMode, dq: DataReg, dr: DataReg, is_64bit: bool) -> (r:
        Result<(), CpuError>)
        ensures
            outcome(r, final(self)@, divul_spec(old(self)@, inst.address, *src, dq, dr, is_64bit)),
            r is Err ==> only_addr_regs_moved(old(self)@, final(self)@),
    {
        let divisor = self.read_operand(src, Size::Long, inst.address)?;
        if divisor == 0 {
            return Err(CpuError::DivisionByZero);
        }
        let dq_idx = data_reg_index(dq);
        let dr_idx = data_reg_index(dr);
        if is_64bit {
            proof {
                lemma_join_longs(self.data_regs[dr_idx as int], self.data_regs[dq_idx as int]);
            }
            let dividend = ((self.data_regs[dr_idx] as u64) << 32) | (self.data_regs[dq_idx] as u64);
            let quotient = dividend / (divisor as u64);
            let remainder = dividend % (divisor as u64);
            if quotient > 0xFFFFFFFF {
                self.set_flag(FLAG_V, true);
                self.set_flag(FLAG_C, false);
            } else {
                self.data_regs[dq_idx] = quotient as u32;
                self.data_regs[dr_idx] = remainder as u32;
                self.set_flag(FLAG_N, quotient >= 0x80000000);
                self.set_flag(FLAG_Z, quotient == 0);
                self.set_flag(FLAG_V, false);
                self.set_flag(FLAG_C, false);
            }
        } else {
            let dividend = self.data_regs[dq_idx];
            let quotient = dividend / divisor;
            let remainder = dividend % divisor;
            self.data_regs[dq_idx] = quotient;
            if dr_idx != dq_idx {
                self.data_regs[dr_idx] = remainder;
            }
            self.set_flag(FLAG_N, quotient >= 0x80000000);
            self.set_flag(FLAG_Z, quotient == 0);
            self.set_flag(FLAG_V, false);
            self.set_flag(FLAG_C, false);
        }
        Ok(())
    }

    // DIVS.L - 32-bit signed divide (68020+)
    pub fn exec_divsl(&mut self, inst: &Instruction, src: &AddressingMode, dq: DataReg, dr: DataReg, is_64bit: bool) -> (r:
        Result<(), CpuError>)
        ensures
            outcome(r, final(self)@, divsl_spec(old(self)@, inst.address, *src, dq, dr, is_64bit)),
            r is Err ==> only_addr_regs_moved(old(self)@, final(self)@),
    {
        let divisor = self.read_operand(src, Size::Long, inst.address)? as i32;
        if divisor == 0 {
            return Err(CpuError::DivisionByZero);
        }
        let dq_idx = data_reg_index(dq);
        let dr_idx = data_reg_index(dr);
        if is_64bit {
            let hi = self.data_regs[dr_idx];
            let lo = self.data_regs[dq_idx];
            proof {
                lemma_join_longs(hi, lo);
                assert(hi == 0x8000_0000 && lo == 0 <==> (((hi as u64) << 32u64) | (lo as u64)) as i64
                    == i64::MIN) by (bit_vector);
            }
            let dividend = ((hi as u64) << 32) | (lo as u64);
            let dividend = dividend as i64;
            if dividend == i64::MIN && divisor == -1 {
                // The quotient 2^63 does not fit in 32 bits.
                proof {
                    assert(abs_int(i64::MIN as int) == 0x8000_0000_0000_0000 && abs_int(-1) == 1);
                    vstd::arithmetic::div_mod::lemma_div_basics(0x8000_0000_0000_0000int);
                    assert(trunc_div(i64::MIN as int, -1) == 0x8000_0000_0000_0000);
                }
                self.set_flag(FLAG_V, true);
                self.set_flag(FLAG_C, false);
                return Ok(());
            }
            let (quotient, remainder) = signed_div_rem(dividend, divisor as i64);
            if quotient < i32::MIN as i64 || quotient > i32::MAX as i64 {
                self.set_flag(FLAG_V, true);
                self.set_flag(FLAG_C, false);
            } else {
                self.data_regs[dq_idx] = quotient as u32;
                self.data_regs[dr_idx] = remainder as u32;
                self.set_flag(FLAG_N, quotient < 0);
                self.set_flag(FLAG_Z, quotient == 0);
                self.set_flag(FLAG_V, false);
                self.set_flag(FLAG_C, false);
            }
        } else {
            let dividend = self.data_regs[dq_idx] as i32;
            let (quotient, remainder) = signed_div_rem(dividend as i64, divisor as i64);
            if quotient > i32::MAX as i64 {
                // Only the most negative long divided by -1 gets here.
                self.set_flag(FLAG_V, true);
                self.set_flag(FLAG_C, false);
                return Ok(());
            }
            self.data_regs[dq_idx] = quotient as u32;
            if dr_idx != dq_idx {
                self.data_regs[dr_idx] = remainder as u32;
            }
            self.set_flag(FLAG_N, quotient < 0);
            self.set_flag(FLAG_Z, quotient == 0);
            self.set_flag(FLAG_V, false);
            self.set_flag(FLAG_C, false);
        }
        Ok(())
    }

    // MULU.L - 32-bit unsigned multiply (68020+)
    pub fn exec_mulul(&mut self, inst: &Instruction, src: &AddressingMode, dl: DataReg, dh: Option<DataReg>) -> (r:
        Result<(), CpuError>)
        ensures
            outcome(r, final(self)@, mulul_spec(old(self)@, inst.address, *src, dl, dh)),
            r is Err ==> crate::cpu::only_addr_regs_moved(old(self)@, final(self)@),
    {
        let multiplicand = self.read_operand(src, Size::Long, inst.address)? as u64;
        let dl_idx = data_reg_index(dl);
        let multiplier = self.data_regs[dl_idx] as u64;
        proof {
            lemma_mul_u32_bound(multiplicand as u32, multiplier as u32);
        }
        let result = multiplicand * multiplier;
        self.data_regs[dl_idx] = (result % 0x1_0000_0000) as u32;
        if let Some(dh) = dh {
            let dh_idx = data_reg_index(dh);
            self.data_regs[dh_idx] = (result / 0x1_0000_0000) as u32;
            self.set_flag(FLAG_N, result >= 0x8000_0000_0000_0000);
            self.set_flag(FLAG_Z, result == 0);
            self.set_flag(FLAG_V, false);
        } else {
            let low = (result % 0x1_0000_0000) as u32;
            self.set_flag(FLAG_N, low >= 0x8000_0000);
            self.set_flag(FLAG_Z, low == 0);
            self.set_flag(FLAG_V, result > 0xFFFFFFFF);
        }
        self.set_flag(FLAG_C, false);
        Ok(())
    }

    // MULS.L - 32-bit signed multiply (68020+)
    pub fn exec_mulsl(&mut self, inst: &Instruction, src: &AddressingMode, dl: DataReg, dh: Option<DataReg>) -> (r:
        Result<(), CpuError>)
        ensures
            outcome(r, final(self)@, mulsl_spec(old(self)@, inst.address, *src, dl, dh)),
            r is Err ==> crate::cpu::only_addr_regs_moved(old(self)@, final(self)@),
    {
        let multiplicand = self.read_operand(src, Size::Long, inst.address)? as i32 as i64;
        let dl_idx = data_reg_index(dl);
        let multiplier = self.data_regs[dl_idx] as i32 as i64;
        proof {
            lemma_mul_i32_bound(multiplicand as i32, multiplier as i32);
        }
        let result = multiplicand * multiplier;
        self.data_regs[dl_idx] = result as u32;
        if let Some(dh) = dh {
            let dh_idx = data_reg_index(dh);
            self.data_regs[dh_idx] = (result >> 32) as u32;
            self.set_flag(FLAG_N, result < 0);
            self.set_flag(FLAG_Z, result == 0);
            self.set_flag(FLAG_V, false);
        } else {
            let low = result as u32;
            self.set_flag(FLAG_N, low >= 0x8000_0000);
            self.set_flag(FLAG_Z, low == 0);
            let fits_in_32 = result >= i32::MIN as i64 && result <= i32::MAX as i64;
            self.set_flag(FLAG_V, !fits_in_32);
        }
        self.set_flag(FLAG_C, false);
        Ok(())
    }
}

} // verus!

