//! Comparisons: CMP, CMPA, CMPI and CMPM set N, Z, V and C as a subtraction
//! would, store nothing and keep X.

use vstd::prelude::*;

use crate::alu::{addr_reg_index, areg, data_reg_index, dreg, imm_to_u32, imm_value, sext_word, sign_extend_word, size_mask, size_to_bytes, sized, bytes_of};
use crate::cpu::flags::{cmp_with_flags, compare_sr};
use crate::cpu::operand::{read_operand_spec, read_sized_spec, wrap_add};
use crate::cpu::{outcome, Cpu, CpuModel};
use crate::decoder::{AddrReg, AddressingMode, EaToDn, EffectiveAddress, ImmOp, Instruction, Size};
use crate::error::CpuError;

verus! {

/// CMP: compare a data register with a source operand.
pub open spec fn compare_dn_spec(m: CpuModel, inst_addr: usize, op: EaToDn) -> Result<CpuModel, CpuError> {
    match read_operand_spec(m, op.src, op.size, inst_addr) {
        Err(e) => Err(e),
        Ok((m1, src)) => Ok(m1.with_sr(compare_sr(m1.sr, sized(m1.d[dreg(op.dst)], op.size), src, op.size))),
    }
}

/// CMPA: compare an address register with a (word sign-extended) source, on 32 bits.
pub open spec fn compare_addr_spec(m: CpuModel, inst_addr: usize, addr_reg: AddrReg, size: Size, src: AddressingMode) -> Result<
    CpuModel,
    CpuError,
> {
    match read_operand_spec(m, src, size, inst_addr) {
        Err(e) => Err(e),
        Ok((m1, v)) => {
            let ext = if size == Size::Word {
                sext_word(v)
            } else {
                v
            };
            Ok(m1.with_sr(compare_sr(m1.sr, m1.a[areg(addr_reg)], ext, Size::Long)))
        },
    }
}

/// CMPI: compare an operand with immediate data.
pub open spec fn compare_imm_spec(m: CpuModel, inst_addr: usize, op: ImmOp) -> Result<CpuModel, CpuError> {
    match read_operand_spec(m, op.mode, op.size, inst_addr) {
        Err(e) => Err(e),
        Ok((m1, d)) => Ok(m1.with_sr(compare_sr(m1.sr, d, imm_value(op.imm), op.size))),
    }
}

/// CMPM: compare `(Ay)+` with `(Ax)+`; both address registers step by the operand size.
pub open spec fn compare_mem_spec(m: CpuModel, size: Size, src: AddrReg, dst: AddrReg) -> Result<CpuModel, CpuError> {
    match read_sized_spec(m.mem, m.a[areg(src)] as usize, size) {
        Err(e) => Err(e),
        Ok(s) => match read_sized_spec(m.mem, m.a[areg(dst)] as usize, size) {
            Err(e) => Err(e),
            Ok(d) => {
                let m1 = m.with_a(areg(src), wrap_add(m.a[areg(src)], bytes_of(size)));
                let m2 = m1.with_a(areg(dst), wrap_add(m1.a[areg(dst)], bytes_of(size)));
                Ok(m2.with_sr(compare_sr(m2.sr, d, s, size)))
            },
        },
    }
}

impl Cpu {
    // CMP - Compare
    pub fn exec_cmp(&mut self, inst: &Instruction, ea_to_dn: EaToDn) -> (r: Result<(), CpuError>)
        ensures
            outcome(r, final(self)@, compare_dn_spec(old(self)@, inst.address, ea_to_dn)),
            r is Err ==> crate::cpu::only_addr_regs_moved(old(self)@, final(self)@),
    {
        let src = self.read_operand(&ea_to_dn.src, ea_to_dn.size, inst.address)?;
        let dst_idx = data_reg_index(ea_to_dn.dst);
        let dst = size_mask(self.data_regs[dst_idx], ea_to_dn.size);
        cmp_with_flags(dst, src, ea_to_dn.size, self);
        Ok(())
    }

    // CMPA - Compare Address
    pub fn exec_cmpa(&mut self, inst: &Instruction, addr_reg: AddrReg, size: Size, src: AddressingMode) -> (r:
        Result<(), CpuError>)
        ensures
            outcome(r, final(self)@, compare_addr_spec(old(self)@, inst.address, addr_reg, size, src)),
            r is Err ==> crate::cpu::only_addr_regs_moved(old(self)@, final(self)@),
    {
        let src_val = self.read_operand(&src, size, inst.address)?;
        let src_extended = if size == Size::Word {
            sign_extend_word(src_val)
        } else {
            src_val
        };
        let dst = self.addr_regs[addr_reg_index(addr_reg)];
        cmp_with_flags(dst, src_extended, Size::Long, self);
        Ok(())
    }

    // CMPI - Compare Immediate
    pub fn exec_cmpi(&mut self, inst: &Instruction, imm_op: ImmOp) -> (r: Result<(), CpuError>)
        ensures
            outcome(r, final(self)@, compare_imm_spec(old(self)@, inst.address, imm_op)),
            r is Err ==> crate::cpu::only_addr_regs_moved(old(self)@, final(self)@),
    {
        let imm = imm_to_u32(imm_op.imm);
        let dst = self.read_operand(&imm_op.mode, imm_op.size, inst.address)?;
        cmp_with_flags(dst, imm, imm_op.size, self);
        Ok(())
    }

    // CMPM - Compare Memory
    pub fn exec_cmpm(&mut self, size: Size, src: AddrReg, dst: AddrReg) -> (r: Result<(), CpuError>)
        ensures
            outcome(r, final(self)@, compare_mem_spec(old(self)@, size, src, dst)),
            r is Err ==> crate::cpu::only_addr_regs_moved(old(self)@, final(self)@),
    {
        let size_bytes = size_to_bytes(size);
        let src_idx = addr_reg_index(src);
        let dst_idx = addr_reg_index(dst);
        let src_mode = AddressingMode { ea: EffectiveAddress::Addr(src), data: None };
        let dst_mode = AddressingMode { ea: EffectiveAddress::Addr(dst), data: None };
        let src_val = self.read_operand(&src_mode, size, 0)?;
        let dst_val = self.read_operand(&dst_mode, size, 0)?;
        self.addr_regs[src_idx] = self.addr_regs[src_idx].wrapping_add(size_bytes);
        self.addr_regs[dst_idx] = self.addr_regs[dst_idx].wrapping_add(size_bytes);
        cmp_with_flags(dst_val, src_val, size, self);
        Ok(())
    }
}

} // verus!
