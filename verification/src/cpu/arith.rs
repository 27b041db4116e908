//! Integer arithmetic instructions: ADD, SUB, their quick, immediate and address
//! forms, NEG and NEGX.

use vstd::prelude::*;

use crate::alu::{
    addr_reg_index, areg, data_reg_index, dreg, imm_to_u32, imm_value, merge_sized, sext_word,
    sign_extend_word, size_mask, sized, write_sized_data_reg,
};
use crate::cpu::flags::{add_sr, add_value, add_with_flags, sub_sr, sub_value, sub_with_flags};
use crate::cpu::operand::{read_operand_spec, wrap_add, wrap_sub, write_operand_spec};
use crate::cpu::{flag, nz_sr, outcome, with_flag, Cpu, CpuModel, FLAG_C, FLAG_X, FLAG_Z};
use crate::decoder::{Add, AddrReg, AddressingMode, EffectiveAddress, ImmOp, Instruction, QuickOp, Size, Sub, UnaryOp};
use crate::error::CpuError;

verus! {

/// The data of ADDQ/SUBQ: 1 to 8, with 0 standing for 8.
pub open spec fn quick_value(data: u8) -> u32 {
    if data == 0 {
        8
    } else {
        data as u32
    }
}

/// ADDQ: add 1 to 8 to an operand; to an address register on all 32 bits without
/// touching the condition codes.
pub open spec fn addq_spec(m: CpuModel, inst_addr: usize, op: QuickOp) -> Result<CpuModel, CpuError> {
    let inc = quick_value(op.data);
    let size = op.size;
    match op.mode.ea {
        EffectiveAddress::Dr(reg) => {
            let i = dreg(reg);
            let v = sized(m.d[i], size);
            Ok(m.with_sr(add_sr(m.sr, v, inc, size)).with_d(i, merge_sized(m.d[i], add_value(v, inc, size), size)))
        },
        EffectiveAddress::Ar(reg) => Ok(m.with_a(areg(reg), wrap_add(m.a[areg(reg)], inc))),
        _ => match read_operand_spec(m, op.mode, size, inst_addr) {
            Err(e) => Err(e),
            Ok((m1, v)) => write_operand_spec(
                m1.with_sr(add_sr(m1.sr, v, inc, size)),
                op.mode,
                size,
                inst_addr,
                add_value(v, inc, size),
            ),
        },
    }
}

/// SUBQ: subtract 1 to 8 from an operand; from an address register on all 32 bits
/// without touching the condition codes.
pub open spec fn subq_spec(m: CpuModel, inst_addr: usize, op: QuickOp) -> Result<CpuModel, CpuError> {
    let dec = quick_value(op.data);
    let size = op.size;
    match op.mode.ea {
        EffectiveAddress::Dr(reg) => {
            let i = dreg(reg);
            let v = sized(m.d[i], size);
            Ok(m.with_sr(sub_sr(m.sr, v, dec, size)).with_d(i, merge_sized(m.d[i], sub_value(v, dec, size), size)))
        },
        EffectiveAddress::Ar(reg) => Ok(m.with_a(areg(reg), wrap_sub(m.a[areg(reg)], dec))),
        _ => match read_operand_spec(m, op.mode, size, inst_addr) {
            Err(e) => Err(e),
            Ok((m1, v)) => write_operand_spec(
                m1.with_sr(sub_sr(m1.sr, v, dec, size)),
                op.mode,
                size,
                inst_addr,
                sub_value(v, dec, size),
            ),
        },
    }
}

/// ADD in both directions.
pub open spec fn add_spec(m: CpuModel, inst_addr: usize, add: Add) -> Result<CpuModel, CpuError> {
    match add {
        Add::EaToDn(op) => match read_operand_spec(m, op.src, op.size, inst_addr) {
            Err(e) => Err(e),
            Ok((m1, src)) => {
                let i = dreg(op.dst);
                let d = sized(m1.d[i], op.size);
                Ok(m1.with_sr(add_sr(m1.sr, src, d, op.size)).with_d(
                    i,
                    merge_sized(m1.d[i], add_value(src, d, op.size), op.size),
                ))
            },
        },
        Add::DnToEa(op) => {
            let src = sized(m.d[dreg(op.src)], op.size);
            match read_operand_spec(m, op.dst, op.size, inst_addr) {
                Err(e) => Err(e),
                Ok((m1, d)) => write_operand_spec(
                    m1.with_sr(add_sr(m1.sr, src, d, op.size)),
                    op.dst,
                    op.size,
                    inst_addr,
                    add_value(src, d, op.size),
                ),
            }
        },
    }
}

/// SUB in both directions (destination minus source).
pub open spec fn sub_spec(m: CpuModel, inst_addr: usize, sub: Sub) -> Result<CpuModel, CpuError> {
    match sub {
        Sub::EaToDn(op) => match read_operand_spec(m, op.src, op.size, inst_addr) {
            Err(e) => Err(e),
            Ok((m1, src)) => {
                let i = dreg(op.dst);
                let d = sized(m1.d[i], op.size);
                Ok(m1.with_sr(sub_sr(m1.sr, d, src, op.size)).with_d(
                    i,
                    merge_sized(m1.d[i], sub_value(d, src, op.size), op.size),
                ))
            },
        },
        Sub::DnToEa(op) => {
            let src = sized(m.d[dreg(op.src)], op.size);
            match read_operand_spec(m, op.dst, op.size, inst_addr) {
                Err(e) => Err(e),
                Ok((m1, d)) => write_operand_spec(
                    m1.with_sr(sub_sr(m1.sr, d, src, op.size)),
                    op.dst,
                    op.size,
                    inst_addr,
                    sub_value(d, src, op.size),
                ),
            }
        },
    }
}

/// ADDA: add a (word sign-extended) source to an address register, condition codes kept.
pub open spec fn adda_spec(m: CpuModel, inst_addr: usize, addr_reg: AddrReg, size: Size, mode: AddressingMode) -> Result<
    CpuModel,
    CpuError,
> {
    match read_operand_spec(m, mode, size, inst_addr) {
        Err(e) => Err(e),
        Ok((m1, src)) => {
            let ext = if size == Size::Word {
                sext_word(src)
            } else {
                src
            };
            Ok(m1.with_a(areg(addr_reg), wrap_add(m1.a[areg(addr_reg)], ext)))
        },
    }
}

/// SUBA: subtract a (word sign-extended) source from an address register, condition
/// codes kept.
pub open spec fn suba_spec(m: CpuModel, inst_addr: usize, addr_reg: AddrReg, size: Size, mode: AddressingMode) -> Result<
    CpuModel,
    CpuError,
> {
    match read_operand_spec(m, mode, size, inst_addr) {
        Err(e) => Err(e),
        Ok((m1, src)) => {
            let ext = if size == Size::Word {
                sext_word(src)
            } else {
                src
            };
            Ok(m1.with_a(areg(addr_reg), wrap_sub(m1.a[areg(addr_reg)], ext)))
        },
    }
}

/// ADDI: add immediate data to an operand.
pub open spec fn addi_spec(m: CpuModel, inst_addr: usize, op: ImmOp) -> Result<CpuModel, CpuError> {
    let imm = imm_value(op.imm);
    match read_operand_spec(m, op.mode, op.size, inst_addr) {
        Err(e) => Err(e),
        Ok((m1, d)) => write_operand_spec(
            m1.with_sr(add_sr(m1.sr, imm, d, op.size)),
            op.mode,
            op.size,
            inst_addr,
            add_value(imm, d, op.size),
        ),
    }
}

/// SUBI: subtract immediate data from an operand.
pub open spec fn subi_spec(m: CpuModel, inst_addr: usize, op: ImmOp) -> Result<CpuModel, CpuError> {
    let imm = imm_value(op.imm);
    match read_operand_spec(m, op.mode, op.size, inst_addr) {
        Err(e) => Err(e),
        Ok((m1, d)) => write_operand_spec(
            m1.with_sr(sub_sr(m1.sr, d, imm, op.size)),
            op.mode,
            op.size,
            inst_addr,
            sub_value(d, imm, op.size),
        ),
    }
}

/// NEG: `0 - operand`, with the flags of a subtraction.
pub open spec fn neg_spec(m: CpuModel, inst_addr: usize, op: UnaryOp) -> Result<CpuModel, CpuError> {
    match read_operand_spec(m, op.mode, op.size, inst_addr) {
        Err(e) => Err(e),
        Ok((m1, v)) => write_operand_spec(
            m1.with_sr(sub_sr(m1.sr, 0, v, op.size)),
            op.mode,
            op.size,
            inst_addr,
            sub_value(0, v, op.size),
        ),
    }
}

/// NEGX: `0 - operand - X`; Z is cleared by a non-zero result and then set from the
/// result as N is, C and X say whether the operand or X was non-zero.
pub open spec fn negx_spec(m: CpuModel, inst_addr: usize, op: UnaryOp) -> Result<CpuModel, CpuError> {
    match read_operand_spec(m, op.mode, op.size, inst_addr) {
        Err(e) => Err(e),
        Ok((m1, v)) => {
            let x: u32 = if flag(m1.sr, FLAG_X) {
                1
            } else {
                0
            };
            let result = wrap_sub(wrap_sub(0, v), x);
            match write_operand_spec(m1, op.mode, op.size, inst_addr, result) {
                Err(e) => Err(e),
                Ok(m2) => {
                    let sr1 = if sized(result, op.size) != 0 {
                        with_flag(m2.sr, FLAG_Z, false)
                    } else {
                        m2.sr
                    };
                    let c = v != 0 || x != 0;
                    Ok(m2.with_sr(with_flag(with_flag(nz_sr(sr1, result, op.size), FLAG_C, c), FLAG_X, c)))
                },
            }
        },
    }
}

impl Cpu {
    // ADDQ - Add Quick
    pub fn exec_addq(&mut self, inst: &Instruction, op: QuickOp) -> (r: Result<(), CpuError>)
        ensures
            outcome(r, final(self)@, addq_spec(old(self)@, inst.address, op)),
    {
        let increment = if op.data == 0 {
            8
        } else {
            op.data as u32
        };
        match op.mode.ea {
            EffectiveAddress::Dr(reg) => {
                let idx = data_reg_index(reg);
                let value = size_mask(self.data_regs[idx], op.size);
                let result = add_with_flags(value, increment, op.size, self);
                self.data_regs[idx] = write_sized_data_reg(self.data_regs[idx], result, op.size);
            },
            EffectiveAddress::Ar(reg) => {
                let idx = addr_reg_index(reg);
                self.addr_regs[idx] = self.addr_regs[idx].wrapping_add(increment);
            },
            _ => {
                let value = self.read_operand(&op.mode, op.size, inst.address)?;
                let result = add_with_flags(value, increment, op.size, self);
                self.write_operand(&op.mode, op.size, inst.address, result)?;
            },
        }
        Ok(())
    }

    // SUBQ - Subtract Quick
    pub fn exec_subq(&mut self, inst: &Instruction, op: QuickOp) -> (r: Result<(), CpuError>)
        ensures
            outcome(r, final(self)@, subq_spec(old(self)@, inst.address, op)),
    {
        let decrement = if op.data == 0 {
            8
        } else {
            op.data as u32
        };
        match op.mode.ea {
            EffectiveAddress::Dr(reg) => {
                let idx = data_reg_index(reg);
                let value = size_mask(self.data_regs[idx], op.size);
                let result = sub_with_flags(value, decrement, op.size, self);
                self.data_regs[idx] = write_sized_data_reg(self.data_regs[idx], result, op.size);
            },
            EffectiveAddress::Ar(reg) => {
                let idx = addr_reg_index(reg);
                self.addr_regs[idx] = self.addr_regs[idx].wrapping_sub(decrement);
            },
            _ => {
                let value = self.read_operand(&op.mode, op.size, inst.address)?;
                let result = sub_with_flags(value, decrement, op.size, self);
                self.write_operand(&op.mode, op.size, inst.address, result)?;
            },
        }
        Ok(())
    }

    // ADD - Add binary
    pub fn exec_add(&mut self, inst: &Instruction, add: Add) -> (r: Result<(), CpuError>)
        ensures
            outcome(r, final(self)@, add_spec(old(self)@, inst.address, add)),
    {
        match add {
            Add::EaToDn(op) => {
                let src = self.read_operand(&op.src, op.size, inst.address)?;
                let dst_idx = data_reg_index(op.dst);
                let dst = size_mask(self.data_regs[dst_idx], op.size);
                let result = add_with_flags(src, dst, op.size, self);
                self.data_regs[dst_idx] = write_sized_data_reg(self.data_regs[dst_idx], result, op.size);
            },
            Add::DnToEa(op) => {
                let src_idx = data_reg_index(op.src);
                let src = size_mask(self.data_regs[src_idx], op.size);
                let dst = self.read_operand(&op.dst, op.size, inst.address)?;
                let result = add_with_flags(src, dst, op.size, self);
                self.write_operand(&op.dst, op.size, inst.address, result)?;
            },
        }
        Ok(())
    }

    // SUB - Subtract binary
    pub fn exec_sub(&mut self, inst: &Instruction, sub: Sub) -> (r: Result<(), CpuError>)
        ensures
            outcome(r, final(self)@, sub_spec(old(self)@, inst.address, sub)),
    {
        match sub {
            Sub::EaToDn(op) => {
                let src = self.read_operand(&op.src, op.size, inst.address)?;
                let dst_idx = data_reg_index(op.dst);
                let dst = size_mask(self.data_regs[dst_idx], op.size);
                let result = sub_with_flags(dst, src, op.size, self);
                self.data_regs[dst_idx] = write_sized_data_reg(self.data_regs[dst_idx], result, op.size);
            },
            Sub::DnToEa(op) => {
                let src_idx = data_reg_index(op.src);
                let src = size_mask(self.data_regs[src_idx], op.size);
                let dst = self.read_operand(&op.dst, op.size, inst.address)?;
                let result = sub_with_flags(dst, src, op.size, self);
                self.write_operand(&op.dst, op.size, inst.address, result)?;
            },
        }
        Ok(())
    }

    // ADDA - Add Address
    pub fn exec_adda(&mut self, inst: &Instruction, addr_reg: AddrReg, size: Size, mode: AddressingMode) -> (r:
        Result<(), CpuError>)
        ensures
            outcome(r, final(self)@, adda_spec(old(self)@, inst.address, addr_reg, size, mode)),
            r is Err ==> crate::cpu::only_addr_regs_moved(old(self)@, final(self)@),
    {
        let src = self.read_operand(&mode, size, inst.address)?;
        let src_extended = if size == Size::Word {
            sign_extend_word(src)
        } else {
            src
        };
        let idx = addr_reg_index(addr_reg);
        self.addr_regs[idx] = self.addr_regs[idx].wrapping_add(src_extended);
        Ok(())
    }

    // SUBA - Subtract Address
    pub fn exec_suba(&mut self, inst: &Instruction, addr_reg: AddrReg, size: Size, mode: AddressingMode) -> (r:
        Result<(), CpuError>)
        ensures
            outcome(r, final(self)@, suba_spec(old(self)@, inst.address, addr_reg, size, mode)),
            r is Err ==> crate::cpu::only_addr_regs_moved(old(self)@, final(self)@),
    {
        let src = self.read_operand(&mode, size, inst.address)?;
        let src_extended = if size == Size::Word {
            sign_extend_word(src)
        } else {
            src
        };
        let idx = addr_reg_index(addr_reg);
        self.addr_regs[idx] = self.addr_regs[idx].wrapping_sub(src_extended);
        Ok(())
    }

    // ADDI - Add Immediate
    pub fn exec_addi(&mut self, inst: &Instruction, imm_op: ImmOp) -> (r: Result<(), CpuError>)
        ensures
            outcome(r, final(self)@, addi_spec(old(self)@, inst.address, imm_op)),
    {
        let imm = imm_to_u32(imm_op.imm);
        let dst = self.read_operand(&imm_op.mode, imm_op.size, inst.address)?;
        let result = add_with_flags(imm, dst, imm_op.size, self);
        self.write_operand(&imm_op.mode, imm_op.size, inst.address, result)?;
        Ok(())
    }

    // SUBI - Subtract Immediate
    pub fn exec_subi(&mut self, inst: &Instruction, imm_op: ImmOp) -> (r: Result<(), CpuError>)
        ensures
            outcome(r, final(self)@, subi_spec(old(self)@, inst.address, imm_op)),
    {
        let imm = imm_to_u32(imm_op.imm);
        let dst = self.read_operand(&imm_op.mode, imm_op.size, inst.address)?;
        let result = sub_with_flags(dst, imm, imm_op.size, self);
        self.write_operand(&imm_op.mode, imm_op.size, inst.address, result)?;
        Ok(())
    }

    // NEG - Negate (two's complement)
    pub fn exec_neg(&mut self, inst: &Instruction, op: UnaryOp) -> (r: Result<(), CpuError>)
        ensures
            outcome(r, final(self)@, neg_spec(old(self)@, inst.address, op)),
    {
        let value = self.read_operand(&op.mode, op.size, inst.address)?;
        let result = sub_with_flags(0, value, op.size, self);
        self.write_operand(&op.mode, op.size, inst.address, result)?;
        Ok(())
    }

    // NEGX - Negate with extend
    pub fn exec_negx(&mut self, inst: &Instruction, op: UnaryOp) -> (r: Result<(), CpuError>)
        ensures
            outcome(r, final(self)@, negx_spec(old(self)@, inst.address, op)),
            r is Err ==> crate::cpu::only_addr_regs_moved(old(self)@, final(self)@),
    {
        let value = self.read_operand(&op.mode, op.size, inst.address)?;
        let x = if self.get_flag(FLAG_X) {
            1u32
        } else {
            0u32
        };
        let result = (0u32).wrapping_sub(value).wrapping_sub(x);
        self.write_operand(&op.mode, op.size, inst.address, result)?;
        let masked = size_mask(result, op.size);
        if masked != 0 {
            self.set_flag(FLAG_Z, false);
        }
        self.update_nz_flags_sized(result, op.size);
        let c = value != 0 || x != 0;
        self.set_flag(FLAG_C, c);
        self.set_flag(FLAG_X, c);
        Ok(())
    }
}

} // verus!
