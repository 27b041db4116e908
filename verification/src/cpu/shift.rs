//! Shifts and rotates (ASd, LSd, ROd, ROXd) and single-bit instructions (BTST,
//! BCHG, BCLR, BSET).

use vstd::prelude::*;

use crate::alu::{
    arithmetic_shift, asd_spec, data_reg_index, dreg, logical_shift, lsd_spec, merge_sized, rod_spec,
    rotate, rotate_extended, roxd_spec, size_mask, sized, write_sized_data_reg,
};
use crate::cpu::operand::{ea_spec, read_operand_spec, read_sized_spec, write_operand_spec, write_sized_spec};
use crate::cpu::{flag, nz_sr, outcome, with_flag, Cpu, CpuModel, FLAG_C, FLAG_V, FLAG_X, FLAG_Z};
use crate::decoder::{AddressingMode, BitOp, EffectiveAddress, Instruction, RightOrLeft, Shift, ShiftCount, Size};
use crate::error::CpuError;

verus! {

/// Which shift or rotate.
pub enum ShiftKind {
    Arithmetic,
    Logical,
    Rotate,
    RotateExtend,
}

/// The count of a register shift: an immediate 1 to 8 (0 stands for 8) or a data
/// register modulo 64.
pub open spec fn shift_count(m: CpuModel, count: ShiftCount) -> u32 {
    match count {
        ShiftCount::Immediate(n) => if n == 0 {
            8
        } else {
            n as u32
        },
        ShiftCount::Register(r) => m.d[dreg(r)] % 64,
    }
}

/// Result and carry of a shift or rotate.
pub open spec fn shift_result(kind: ShiftKind, value: u32, count: u32, direction: RightOrLeft, size: Size, x: bool) -> (u32, bool) {
    match kind {
        ShiftKind::Arithmetic => asd_spec(value, count, direction, size),
        ShiftKind::Logical => lsd_spec(value, count, direction, size),
        ShiftKind::Rotate => rod_spec(value, count, direction, size),
        ShiftKind::RotateExtend => roxd_spec(value, count, direction, size, x),
    }
}

/// Condition codes after a shift or rotate: N, Z from the result, V cleared, C the
/// carry; X the carry for shifts by a non-zero count and for rotates through X.
pub open spec fn shift_sr(kind: ShiftKind, sr: u16, result: u32, carry: bool, size: Size, count: u32) -> u16 {
    let base = with_flag(with_flag(nz_sr(sr, result, size), FLAG_V, false), FLAG_C, carry);
    match kind {
        ShiftKind::Rotate => base,
        ShiftKind::RotateExtend => with_flag(base, FLAG_X, carry),
        _ => if count > 0 {
            with_flag(base, FLAG_X, carry)
        } else {
            base
        },
    }
}

/// A shift or rotate of a register by its count, or of a memory word by one.
pub open spec fn shift_spec(m: CpuModel, inst_addr: usize, kind: ShiftKind, shift: Shift) -> Result<CpuModel, CpuError> {
    let x = flag(m.sr, FLAG_X);
    match shift {
        Shift::Reg(reg) => {
            let count = shift_count(m, reg.count);
            let i = dreg(reg.dst);
            let (res, c) = shift_result(kind, sized(m.d[i], reg.size), count, reg.direction, reg.size, x);
            Ok(m.with_d(i, merge_sized(m.d[i], res, reg.size)).with_sr(shift_sr(kind, m.sr, res, c, reg.size, count)))
        },
        Shift::Ea(ea) => match ea_spec(m, ea.mode, inst_addr) {
            Err(e) => Err(e),
            Ok(addr) => match read_sized_spec(m.mem, addr, Size::Word) {
                Err(e) => Err(e),
                Ok(v) => {
                    let (res, c) = shift_result(kind, v, 1, ea.direction, Size::Word, x);
                    match write_sized_spec(m.mem, addr, Size::Word, res) {
                        Err(e) => Err(e),
                        Ok(mem) => Ok(m.with_mem(mem).with_sr(shift_sr(kind, m.sr, res, c, Size::Word, 1))),
                    }
                },
            },
        },
    }
}

/// Which single-bit instruction.
pub enum BitKind {
    Test,
    Change,
    Clear,
    SetBit,
}

/// The bit number and operand of a bit instruction.
pub open spec fn bit_parts(m: CpuModel, bit_op: BitOp) -> (u32, AddressingMode) {
    match bit_op {
        BitOp::Imm(imm) => (imm.bit_num as u32, imm.mode),
        BitOp::Reg(reg) => (m.d[dreg(reg.bit_reg)], reg.mode),
    }
}

/// The operand after a bit instruction.
pub open spec fn bit_apply(kind: BitKind, value: u32, bit: u32) -> u32 {
    match kind {
        BitKind::Test => value,
        BitKind::Change => value ^ (1u32 << bit),
        BitKind::Clear => value & !(1u32 << bit),
        BitKind::SetBit => value | (1u32 << bit),
    }
}

/// A bit instruction: Z says whether the bit was clear; a data register is a long
/// (bit number modulo 32), anything else a byte (bit number modulo 8).
pub open spec fn bit_spec(m: CpuModel, inst_addr: usize, kind: BitKind, bit_op: BitOp) -> Result<CpuModel, CpuError> {
    let (bit_num, mode) = bit_parts(m, bit_op);
    match mode.ea {
        EffectiveAddress::Dr(r) => {
            let i = dreg(r);
            let bit = bit_num % 32;
            let z = m.d[i] & (1u32 << bit) == 0;
            let m1 = m.with_sr(with_flag(m.sr, FLAG_Z, z));
            match kind {
                BitKind::Test => Ok(m1),
                _ => Ok(m1.with_d(i, bit_apply(kind, m.d[i], bit))),
            }
        },
        _ => match read_operand_spec(m, mode, Size::Byte, inst_addr) {
            Err(e) => Err(e),
            Ok((m1, v)) => {
                let bit = bit_num % 8;
                let z = v & (1u32 << bit) == 0;
                let m2 = m1.with_sr(with_flag(m1.sr, FLAG_Z, z));
                match kind {
                    BitKind::Test => Ok(m2),
                    _ => write_operand_spec(m2, mode, Size::Byte, inst_addr, bit_apply(kind, v, bit)),
                }
            },
        },
    }
}

impl Cpu {
    // ASd - Arithmetic Shift
    pub fn exec_asd(&mut self, inst: &Instruction, shift: Shift) -> (r: Result<(), CpuError>)
        ensures
            outcome(r, final(self)@, shift_spec(old(self)@, inst.address, ShiftKind::Arithmetic, shift)),
            r is Err ==> crate::cpu::only_addr_regs_moved(old(self)@, final(self)@),
    {
        match shift {
            Shift::Reg(reg) => {
                let count = match reg.count {
                    ShiftCount::Immediate(n) => {
                        if n == 0 {
                            8
                        } else {
                            n as u32
                        }
                    },
                    ShiftCount::Register(r) => self.data_regs[data_reg_index(r)] % 64,
                };
                let idx = data_reg_index(reg.dst);
                let value = size_mask(self.data_regs[idx], reg.size);
                let (result, carry) = arithmetic_shift(value, count, reg.direction, reg.size);
                self.data_regs[idx] = write_sized_data_reg(self.data_regs[idx], result, reg.size);
                self.update_nz_flags_sized(result, reg.size);
                self.set_flag(FLAG_V, false);
                self.set_flag(FLAG_C, carry);
                if count > 0 {
                    self.set_flag(FLAG_X, carry);
                }
            },
            Shift::Ea(ea) => {
                let addr = self.compute_effective_address(&ea.mode, inst.address)?;
                let value = self.read_mem(addr, Size::Word)?;
                let (result, carry) = arithmetic_shift(value, 1, ea.direction, Size::Word);
                self.write_mem(addr, Size::Word, result)?;
                self.update_nz_flags_sized(result, Size::Word);
                self.set_flag(FLAG_V, false);
                self.set_flag(FLAG_C, carry);
                self.set_flag(FLAG_X, carry);
            },
        }
        Ok(())
    }

    // LSd - Logical Shift
    pub fn exec_lsd(&mut self, inst: &Instruction, shift: Shift) -> (r: Result<(), CpuError>)
        ensures
            outcome(r, final(self)@, shift_spec(old(self)@, inst.address, ShiftKind::Logical, shift)),
            r is Err ==> crate::cpu::only_addr_regs_moved(old(self)@, final(self)@),
    {
        match shift {
            Shift::Reg(reg) => {
                let count = match reg.count {
                    ShiftCount::Immediate(n) => {
                        if n == 0 {
                            8
                        } else {
                            n as u32
                        }
                    },
                    ShiftCount::Register(r) => self.data_regs[data_reg_index(r)] % 64,
                };
                let idx = data_reg_index(reg.dst);
                let value = size_mask(self.data_regs[idx], reg.size);
                let (result, carry) = logical_shift(value, count, reg.direction, reg.size);
                self.data_regs[idx] = write_sized_data_reg(self.data_regs[idx], result, reg.size);
                self.update_nz_flags_sized(result, reg.size);
                self.set_flag(FLAG_V, false);
                self.set_flag(FLAG_C, carry);
                if count > 0 {
                    self.set_flag(FLAG_X, carry);
                }
            },
            Shift::Ea(ea) => {
                let addr = self.compute_effective_address(&ea.mode, inst.address)?;
                let value = self.read_mem(addr, Size::Word)?;
                let (result, carry) = logical_shift(value, 1, ea.direction, Size::Word);
                self.write_mem(addr, Size::Word, result)?;
                self.update_nz_flags_sized(result, Size::Word);
                self.set_flag(FLAG_V, false);
                self.set_flag(FLAG_C, carry);
                self.set_flag(FLAG_X, carry);
            },
        }
        Ok(())
    }

    // ROd - Rotate
    pub fn exec_rod(&mut self, inst: &Instruction, shift: Shift) -> (r: Result<(), CpuError>)
        ensures
            outcome(r, final(self)@, shift_spec(old(self)@, inst.address, ShiftKind::Rotate, shift)),
            r is Err ==> crate::cpu::only_addr_regs_moved(old(self)@, final(self)@),
    {
        match shift {
            Shift::Reg(reg) => {
                let count = match reg.count {
                    ShiftCount::Immediate(n) => {
                        if n == 0 {
                            8
                        } else {
                            n as u32
                        }
                    },
                    ShiftCount::Register(r) => self.data_regs[data_reg_index(r)] % 64,
                };
                let idx = data_reg_index(reg.dst);
                let value = size_mask(self.data_regs[idx], reg.size);
                let (result, carry) = rotate(value, count, reg.direction, reg.size);
                self.data_regs[idx] = write_sized_data_reg(self.data_regs[idx], result, reg.size);
                self.update_nz_flags_sized(result, reg.size);
                self.set_flag(FLAG_V, false);
                self.set_flag(FLAG_C, carry);
            },
            Shift::Ea(ea) => {
                let addr = self.compute_effective_address(&ea.mode, inst.address)?;
                let value = self.read_mem(addr, Size::Word)?;
                let (result, carry) = rotate(value, 1, ea.direction, Size::Word);
                self.write_mem(addr, Size::Word, result)?;
                self.update_nz_flags_sized(result, Size::Word);
                self.set_flag(FLAG_V, false);
                self.set_flag(FLAG_C, carry);
            },
        }
        Ok(())
    }

    // ROXd - Rotate with Extend
    pub fn exec_roxd(&mut self, inst: &Instruction, shift: Shift) -> (r: Result<(), CpuError>)
        ensures
            outcome(r, final(self)@, shift_spec(old(self)@, inst.address, ShiftKind::RotateExtend, shift)),
            r is Err ==> crate::cpu::only_addr_regs_moved(old(self)@, final(self)@),
    {
        match shift {
            Shift::Reg(reg) => {
                let count = match reg.count {
                    ShiftCount::Immediate(n) => {
                        if n == 0 {
                            8
                        } else {
                            n as u32
                        }
                    },
                    ShiftCount::Register(r) => self.data_regs[data_reg_index(r)] % 64,
                };
                let idx = data_reg_index(reg.dst);
                let value = size_mask(self.data_regs[idx], reg.size);
                let x = self.get_flag(FLAG_X);
                let (result, carry) = rotate_extended(value, count, reg.direction, reg.size, x);
                self.data_regs[idx] = write_sized_data_reg(self.data_regs[idx], result, reg.size);
                self.update_nz_flags_sized(result, reg.size);
                self.set_flag(FLAG_V, false);
                self.set_flag(FLAG_C, carry);
                self.set_flag(FLAG_X, carry);
            },
            Shift::Ea(ea) => {
                let addr = self.compute_effective_address(&ea.mode, inst.address)?;
                let value = self.read_mem(addr, Size::Word)?;
                let x = self.get_flag(FLAG_X);
                let (result, carry) = rotate_extended(value, 1, ea.direction, Size::Word, x);
                self.write_mem(addr, Size::Word, result)?;
                self.update_nz_flags_sized(result, Size::Word);
                self.set_flag(FLAG_V, false);
                self.set_flag(FLAG_C, carry);
                self.set_flag(FLAG_X, carry);
            },
        }
        Ok(())
    }

    // BTST - Bit Test
    pub fn exec_btst(&mut self, inst: &Instruction, bit_op: BitOp) -> (r: Result<(), CpuError>)
        ensures
            outcome(r, final(self)@, bit_spec(old(self)@, inst.address, BitKind::Test, bit_op)),
            r is Err ==> crate::cpu::only_addr_regs_moved(old(self)@, final(self)@),
    {
        let (bit_num, mode) = match bit_op {
            BitOp::Imm(imm) => (imm.bit_num as u32, imm.mode),
            BitOp::Reg(reg) => (self.data_regs[data_reg_index(reg.bit_reg)], reg.mode),
        };
        let (value, modulo) = match mode.ea {
            EffectiveAddress::Dr(r) => (self.data_regs[data_reg_index(r)], 32u32),
            _ => (self.read_operand(&mode, Size::Byte, inst.address)?, 8u32),
        };
        let bit = bit_num % modulo;
        let z = (value & (1 << bit)) == 0;
        self.set_flag(FLAG_Z, z);
        Ok(())
    }

    // BCHG - Bit Test and Change
    pub fn exec_bchg(&mut self, inst: &Instruction, bit_op: BitOp) -> (r: Result<(), CpuError>)
        ensures
            outcome(r, final(self)@, bit_spec(old(self)@, inst.address, BitKind::Change, bit_op)),
    {
        let (bit_num, mode) = match bit_op {
            BitOp::Imm(imm) => (imm.bit_num as u32, imm.mode),
            BitOp::Reg(reg) => (self.data_regs[data_reg_index(reg.bit_reg)], reg.mode),
        };
        if let EffectiveAddress::Dr(r) = mode.ea {
            let idx = data_reg_index(r);
            let bit = bit_num % 32;
            let z = (self.data_regs[idx] & (1 << bit)) == 0;
            self.set_flag(FLAG_Z, z);
            self.data_regs[idx] = self.data_regs[idx] ^ (1 << bit);
        } else {
            let value = self.read_operand(&mode, Size::Byte, inst.address)?;
            let bit = bit_num % 8;
            let z = (value & (1 << bit)) == 0;
            self.set_flag(FLAG_Z, z);
            self.write_operand(&mode, Size::Byte, inst.address, value ^ (1 << bit))?;
        }
        Ok(())
    }

    // BCLR - Bit Test and Clear
    pub fn exec_bclr(&mut self, inst: &Instruction, bit_op: BitOp) -> (r: Result<(), CpuError>)
        ensures
            outcome(r, final(self)@, bit_spec(old(self)@, inst.address, BitKind::Clear, bit_op)),
    {
        let (bit_num, mode) = match bit_op {
            BitOp::Imm(imm) => (imm.bit_num as u32, imm.mode),
            BitOp::Reg(reg) => (self.data_regs[data_reg_index(reg.bit_reg)], reg.mode),
        };
        if let EffectiveAddress::Dr(r) = mode.ea {
            let idx = data_reg_index(r);
            let bit = bit_num % 32;
            let z = (self.data_regs[idx] & (1 << bit)) == 0;
            self.set_flag(FLAG_Z, z);
            self.data_regs[idx] = self.data_regs[idx] & !(1 << bit);
        } else {
            let value = self.read_operand(&mode, Size::Byte, inst.address)?;
            let bit = bit_num % 8;
            let z = (value & (1 << bit)) == 0;
            self.set_flag(FLAG_Z, z);
            self.write_operand(&mode, Size::Byte, inst.address, value & !(1 << bit))?;
        }
        Ok(())
    }

    // BSET - Bit Test and Set
    pub fn exec_bset(&mut self, inst: &Instruction, bit_op: BitOp) -> (r: Result<(), CpuError>)
        ensures
            outcome(r, final(self)@, bit_spec(old(self)@, inst.address, BitKind::SetBit, bit_op)),
    {
        let (bit_num, mode) = match bit_op {
            BitOp::Imm(imm) => (imm.bit_num as u32, imm.mode),
            BitOp::Reg(reg) => (self.data_regs[data_reg_index(reg.bit_reg)], reg.mode),
        };
        if let EffectiveAddress::Dr(r) = mode.ea {
            let idx = data_reg_index(r);
            let bit = bit_num % 32;
            let z = (self.data_regs[idx] & (1 << bit)) == 0;
            self.set_flag(FLAG_Z, z);
            self.data_regs[idx] = self.data_regs[idx] | (1 << bit);
        } else {
            let value = self.read_operand(&mode, Size::Byte, inst.address)?;
            let bit = bit_num % 8;
            let z = (value & (1 << bit)) == 0;
            self.set_flag(FLAG_Z, z);
            self.write_operand(&mode, Size::Byte, inst.address, value | (1 << bit))?;
        }
        Ok(())
    }
}

} // verus!
