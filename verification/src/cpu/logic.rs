//! Data movement and logical instructions: MOVE and its variants, AND, OR, EOR and
//! their immediate forms, NOT, CLR, TST, EXT, SWAP, EXG, LEA, PEA, TAS and Scc.

use vstd::prelude::*;

use crate::alu::{
    addr_reg_index, areg, data_reg_index, dreg, imm_to_u32, imm_value, lemma_merge_word,
    merge_sized, rotate_left_u32, rotl, sext_word, sign_extend_word, size_mask, sized,
    write_sized_data_reg,
};
use crate::cpu::operand::{ea_spec, read_operand_spec, write_operand_spec, write_sized_spec, wrap_sub};
use crate::cpu::{
    condition_holds, logic_sr, nz_sr, outcome, with_flag, Cpu, CpuModel, FLAG_C, FLAG_N, FLAG_V,
    FLAG_Z,
};
use crate::decoder::{
    And, AddrReg, AddressingMode, Condition, DataReg, DnToEa, Exg, ExtMode, ImmOp, Instruction,
    Or, Size, UnaryOp,
};
use crate::error::CpuError;

verus! {

/// A binary logical operation.
pub enum LogicOp {
    And,
    Or,
    Eor,
}

/// The bitwise result of a logical operation.
pub open spec fn logic_value(op: LogicOp, a: u32, b: u32) -> u32 {
    match op {
        LogicOp::And => a & b,
        LogicOp::Or => a | b,
        LogicOp::Eor => a ^ b,
    }
}

/// `<ea>` op Dn -> Dn: N, Z from the result, V and C cleared.
pub open spec fn logic_to_dn_spec(m: CpuModel, inst_addr: usize, op: LogicOp, size: Size, src: AddressingMode, dst: DataReg) -> Result<
    CpuModel,
    CpuError,
> {
    match read_operand_spec(m, src, size, inst_addr) {
        Err(e) => Err(e),
        Ok((m1, s)) => {
            let i = dreg(dst);
            let result = logic_value(op, s, sized(m1.d[i], size));
            Ok(m1.with_d(i, merge_sized(m1.d[i], result, size)).with_sr(logic_sr(m1.sr, result, size)))
        },
    }
}

/// `value` op `<ea>` -> `<ea>`: N, Z from the result, V and C cleared.
pub open spec fn logic_to_ea_spec(m: CpuModel, inst_addr: usize, op: LogicOp, size: Size, value: u32, dst: AddressingMode) -> Result<
    CpuModel,
    CpuError,
> {
    match read_operand_spec(m, dst, size, inst_addr) {
        Err(e) => Err(e),
        Ok((m1, d)) => {
            let result = logic_value(op, value, d);
            match write_operand_spec(m1, dst, size, inst_addr, result) {
                Err(e) => Err(e),
                Ok(m2) => Ok(m2.with_sr(logic_sr(m2.sr, result, size))),
            }
        },
    }
}

/// AND in both directions.
pub open spec fn and_spec(m: CpuModel, inst_addr: usize, and: And) -> Result<CpuModel, CpuError> {
    match and {
        And::EaToDn(op) => logic_to_dn_spec(m, inst_addr, LogicOp::And, op.size, op.src, op.dst),
        And::DnToEa(op) => logic_to_ea_spec(m, inst_addr, LogicOp::And, op.size, sized(m.d[dreg(op.src)], op.size), op.dst),
    }
}

/// OR in both directions.
pub open spec fn or_spec(m: CpuModel, inst_addr: usize, or: Or) -> Result<CpuModel, CpuError> {
    match or {
        Or::EaToDn(op) => logic_to_dn_spec(m, inst_addr, LogicOp::Or, op.size, op.src, op.dst),
        Or::DnToEa(op) => logic_to_ea_spec(m, inst_addr, LogicOp::Or, op.size, sized(m.d[dreg(op.src)], op.size), op.dst),
    }
}

/// NOT: one's complement of an operand.
pub open spec fn not_spec(m: CpuModel, inst_addr: usize, op: UnaryOp) -> Result<CpuModel, CpuError> {
    match read_operand_spec(m, op.mode, op.size, inst_addr) {
        Err(e) => Err(e),
        Ok((m1, v)) => match write_operand_spec(m1, op.mode, op.size, inst_addr, !v) {
            Err(e) => Err(e),
            Ok(m2) => Ok(m2.with_sr(logic_sr(m2.sr, !v, op.size))),
        },
    }
}

/// CLR: write zero; N cleared, Z set, V and C cleared.
pub open spec fn clr_spec(m: CpuModel, inst_addr: usize, op: UnaryOp) -> Result<CpuModel, CpuError> {
    match write_operand_spec(m, op.mode, op.size, inst_addr, 0) {
        Err(e) => Err(e),
        Ok(m1) => Ok(m1.with_sr(
            with_flag(with_flag(with_flag(with_flag(m1.sr, FLAG_N, false), FLAG_Z, true), FLAG_V, false), FLAG_C, false),
        )),
    }
}

/// TST: N, Z from the operand, V and C cleared.
pub open spec fn tst_spec(m: CpuModel, inst_addr: usize, size: Size, mode: AddressingMode) -> Result<CpuModel, CpuError> {
    match read_operand_spec(m, mode, size, inst_addr) {
        Err(e) => Err(e),
        Ok((m1, v)) => Ok(m1.with_sr(logic_sr(m1.sr, v, size))),
    }
}

/// MOVE: copy an operand; N, Z from the value, V and C cleared.
pub open spec fn move_spec(m: CpuModel, inst_addr: usize, size: Size, src: AddressingMode, dst: AddressingMode) -> Result<
    CpuModel,
    CpuError,
> {
    match read_operand_spec(m, src, size, inst_addr) {
        Err(e) => Err(e),
        Ok((m1, v)) => match write_operand_spec(m1, dst, size, inst_addr, v) {
            Err(e) => Err(e),
            Ok(m2) => Ok(m2.with_sr(logic_sr(m2.sr, v, size))),
        },
    }
}

/// MOVEQ: a sign-extended byte into a data register; N, Z from it, V and C cleared.
pub open spec fn moveq_spec(m: CpuModel, data: i8, dst: DataReg) -> CpuModel {
    let v = data as i32 as u32;
    m.with_d(dreg(dst), v).with_sr(logic_sr(m.sr, v, Size::Long))
}

/// MOVEA: a (word sign-extended) operand into an address register, flags kept.
pub open spec fn movea_spec(m: CpuModel, inst_addr: usize, size: Size, src: AddressingMode, dst: AddrReg) -> Result<
    CpuModel,
    CpuError,
> {
    match read_operand_spec(m, src, size, inst_addr) {
        Err(e) => Err(e),
        Ok((m1, v)) => Ok(m1.with_a(areg(dst), if size == Size::Word { sext_word(v) } else { v })),
    }
}

/// LEA: the effective address into an address register.
pub open spec fn lea_spec(m: CpuModel, inst_addr: usize, src: AddressingMode, dst: AddrReg) -> Result<CpuModel, CpuError> {
    match ea_spec(m, src, inst_addr) {
        Err(e) => Err(e),
        Ok(addr) => Ok(m.with_a(areg(dst), addr as u32)),
    }
}

/// Push a long: the model after the push.
pub open spec fn push_spec(m: CpuModel, value: u32) -> Result<CpuModel, CpuError> {
    let sp = wrap_sub(m.a[7], 4);
    match write_sized_spec(m.mem, sp as usize, Size::Long, value) {
        Ok(mem) => Ok(m.with_a(7, sp).with_mem(mem)),
        Err(e) => Err(e),
    }
}

/// PEA: push the effective address.
pub open spec fn pea_spec(m: CpuModel, inst_addr: usize, mode: AddressingMode) -> Result<CpuModel, CpuError> {
    match ea_spec(m, mode, inst_addr) {
        Err(e) => Err(e),
        Ok(addr) => push_spec(m, addr as u32),
    }
}

/// The value EXT leaves in the register.
pub open spec fn ext_value(value: u32, mode: ExtMode) -> u32 {
    match mode {
        ExtMode::ByteToWord => merge_sized(value, (value as i8 as i16 as u16) as u32, Size::Word),
        ExtMode::WordToLong => value as i16 as i32 as u32,
        ExtMode::ByteToLong => value as i8 as i32 as u32,
    }
}

/// EXT: sign-extend within a data register; N, Z from the result, V and C cleared.
pub open spec fn ext_spec(m: CpuModel, data_reg: DataReg, mode: ExtMode) -> CpuModel {
    let r = ext_value(m.d[dreg(data_reg)], mode);
    let size = match mode {
        ExtMode::ByteToWord => Size::Word,
        _ => Size::Long,
    };
    m.with_d(dreg(data_reg), r).with_sr(logic_sr(m.sr, r, size))
}

/// SWAP: exchange the register halves; N, Z from the result, V and C cleared.
pub open spec fn swap_spec(m: CpuModel, data_reg: DataReg) -> CpuModel {
    let r = rotl(m.d[dreg(data_reg)], 16);
    m.with_d(dreg(data_reg), r).with_sr(logic_sr(m.sr, r, Size::Long))
}

/// EXG: exchange two registers.
pub open spec fn exg_spec(m: CpuModel, exg: Exg) -> CpuModel {
    match exg {
        Exg::DataData { rx, ry } => m.with_d(dreg(rx), m.d[dreg(ry)]).with_d(dreg(ry), m.d[dreg(rx)]),
        Exg::AddrAddr { rx, ry } => m.with_a(areg(rx), m.a[areg(ry)]).with_a(areg(ry), m.a[areg(rx)]),
        Exg::DataAddr { data, addr } => m.with_d(dreg(data), m.a[areg(addr)]).with_a(areg(addr), m.d[dreg(data)]),
    }
}

/// TAS: test a byte, then set its high bit.
pub open spec fn tas_spec(m: CpuModel, inst_addr: usize, mode: AddressingMode) -> Result<CpuModel, CpuError> {
    match read_operand_spec(m, mode, Size::Byte, inst_addr) {
        Err(e) => Err(e),
        Ok((m1, v)) => write_operand_spec(m1.with_sr(logic_sr(m1.sr, v, Size::Byte)), mode, Size::Byte, inst_addr, v | 0x80),
    }
}

/// Scc: write 0xFF where the condition holds and 0 where it does not.
pub open spec fn scc_spec(m: CpuModel, inst_addr: usize, condition: Condition, mode: AddressingMode) -> Result<CpuModel, CpuError> {
    write_operand_spec(m, mode, Size::Byte, inst_addr, if condition_holds(m.sr, condition) { 0xFF } else { 0 })
}

impl Cpu {
    // AND - Logical AND
    pub fn exec_and(&mut self, inst: &Instruction, and: And) -> (r: Result<(), CpuError>)
        ensures
            outcome(r, final(self)@, and_spec(old(self)@, inst.address, and)),
            r is Err ==> crate::cpu::only_addr_regs_moved(old(self)@, final(self)@),
    {
        match and {
            And::EaToDn(op) => {
                let src = self.read_operand(&op.src, op.size, inst.address)?;
                let dst_idx = data_reg_index(op.dst);
                let dst = size_mask(self.data_regs[dst_idx], op.size);
                let result = src & dst;
                self.data_regs[dst_idx] = write_sized_data_reg(self.data_regs[dst_idx], result, op.size);
                self.update_nz_flags_sized(result, op.size);
                self.set_flag(FLAG_V, false);
                self.set_flag(FLAG_C, false);
            },
            And::DnToEa(op) => {
                let src_idx = data_reg_index(op.src);
                let src = size_mask(self.data_regs[src_idx], op.size);
                let dst = self.read_operand(&op.dst, op.size, inst.address)?;
                let result = src & dst;
                self.write_operand(&op.dst, op.size, inst.address, result)?;
                self.update_nz_flags_sized(result, op.size);
                self.set_flag(FLAG_V, false);
                self.set_flag(FLAG_C, false);
            },
        }
        Ok(())
    }

    // OR - Logical OR
    pub fn exec_or(&mut self, inst: &Instruction, or: Or) -> (r: Result<(), CpuError>)
        ensures
            outcome(r, final(self)@, or_spec(old(self)@, inst.address, or)),
            r is Err ==> crate::cpu::only_addr_regs_moved(old(self)@, final(self)@),
    {
        match or {
            Or::EaToDn(op) => {
                let src = self.read_operand(&op.src, op.size, inst.address)?;
                let dst_idx = data_reg_index(op.dst);
                let dst = size_mask(self.data_regs[dst_idx], op.size);
                let result = src | dst;
                self.data_regs[dst_idx] = write_sized_data_reg(self.data_regs[dst_idx], result, op.size);
                self.update_nz_flags_sized(result, op.size);
                self.set_flag(FLAG_V, false);
                self.set_flag(FLAG_C, false);
            },
            Or::DnToEa(op) => {
                let src_idx = data_reg_index(op.src);
                let src = size_mask(self.data_regs[src_idx], op.size);
                let dst = self.read_operand(&op.dst, op.size, inst.address)?;
                let result = src | dst;
                self.write_operand(&op.dst, op.size, inst.address, result)?;
                self.update_nz_flags_sized(result, op.size);
                self.set_flag(FLAG_V, false);
                self.set_flag(FLAG_C, false);
            },
        }
        Ok(())
    }

    // EOR - Exclusive OR
    pub fn exec_eor(&mut self, inst: &Instruction, dn_to_ea: DnToEa) -> (r: Result<(), CpuError>)
        ensures
            outcome(
                r,
                final(self)@,
                logic_to_ea_spec(
                    old(self)@,
                    inst.address,
                    LogicOp::Eor,
                    dn_to_ea.size,
                    sized(old(self)@.d[dreg(dn_to_ea.src)], dn_to_ea.size),
                    dn_to_ea.dst,
                ),
            ),
    {
        let src_idx = data_reg_index(dn_to_ea.src);
        let src = size_mask(self.data_regs[src_idx], dn_to_ea.size);
        let dst = self.read_operand(&dn_to_ea.dst, dn_to_ea.size, inst.address)?;
        let result = src ^ dst;
        self.write_operand(&dn_to_ea.dst, dn_to_ea.size, inst.address, result)?;
        self.update_nz_flags_sized(result, dn_to_ea.size);
        self.set_flag(FLAG_V, false);
        self.set_flag(FLAG_C, false);
        Ok(())
    }

    // ANDI - AND Immediate
    pub fn exec_andi(&mut self, inst: &Instruction, imm_op: ImmOp) -> (r: Result<(), CpuError>)
        ensures
            outcome(r, final(self)@, logic_to_ea_spec(old(self)@, inst.address, LogicOp::And, imm_op.size, imm_value(imm_op.imm), imm_op.mode)),
            r is Err ==> crate::cpu::only_addr_regs_moved(old(self)@, final(self)@),
    {
        let imm = imm_to_u32(imm_op.imm);
        let dst = self.read_operand(&imm_op.mode, imm_op.size, inst.address)?;
        let result = imm & dst;
        self.write_operand(&imm_op.mode, imm_op.size, inst.address, result)?;
        self.update_nz_flags_sized(result, imm_op.size);
        self.set_flag(FLAG_V, false);
        self.set_flag(FLAG_C, false);
        Ok(())
    }

    // ORI - OR Immediate
    pub fn exec_ori(&mut self, inst: &Instruction, imm_op: ImmOp) -> (r: Result<(), CpuError>)
        ensures
            outcome(r, final(self)@, logic_to_ea_spec(old(self)@, inst.address, LogicOp::Or, imm_op.size, imm_value(imm_op.imm), imm_op.mode)),
            r is Err ==> crate::cpu::only_addr_regs_moved(old(self)@, final(self)@),
    {
        let imm = imm_to_u32(imm_op.imm);
        let dst = self.read_operand(&imm_op.mode, imm_op.size, inst.address)?;
        let result = imm | dst;
        self.write_operand(&imm_op.mode, imm_op.size, inst.address, result)?;
        self.update_nz_flags_sized(result, imm_op.size);
        self.set_flag(FLAG_V, false);
        self.set_flag(FLAG_C, false);
        Ok(())
    }

    // EORI - Exclusive OR Immediate
    pub fn exec_eori(&mut self, inst: &Instruction, imm_op: ImmOp) -> (r: Result<(), CpuError>)
        ensures
            outcome(r, final(self)@, logic_to_ea_spec(old(self)@, inst.address, LogicOp::Eor, imm_op.size, imm_value(imm_op.imm), imm_op.mode)),
            r is Err ==> crate::cpu::only_addr_regs_moved(old(self)@, final(self)@),
    {
        let imm = imm_to_u32(imm_op.imm);
        let dst = self.read_operand(&imm_op.mode, imm_op.size, inst.address)?;
        let result = imm ^ dst;
        self.write_operand(&imm_op.mode, imm_op.size, inst.address, result)?;
        self.update_nz_flags_sized(result, imm_op.size);
        self.set_flag(FLAG_V, false);
        self.set_flag(FLAG_C, false);
        Ok(())
    }

    // NOT - Logical complement (one's complement)
    pub fn exec_not(&mut self, inst: &Instruction, op: UnaryOp) -> (r: Result<(), CpuError>)
        ensures
            outcome(r, final(self)@, not_spec(old(self)@, inst.address, op)),
            r is Err ==> crate::cpu::only_addr_regs_moved(old(self)@, final(self)@),
    {
        let value = self.read_operand(&op.mode, op.size, inst.address)?;
        let result = !value;
        self.write_operand(&op.mode, op.size, inst.address, result)?;
        self.update_nz_flags_sized(result, op.size);
        self.set_flag(FLAG_V, false);
        self.set_flag(FLAG_C, false);
        Ok(())
    }

    // CLR - Clear an operand
    pub fn exec_clr(&mut self, inst: &Instruction, op: UnaryOp) -> (r: Result<(), CpuError>)
        ensures
            outcome(r, final(self)@, clr_spec(old(self)@, inst.address, op)),
            r is Err ==> crate::cpu::only_addr_regs_moved(old(self)@, final(self)@),
    {
        self.write_operand(&op.mode, op.size, inst.address, 0)?;
        self.set_flag(FLAG_N, false);
        self.set_flag(FLAG_Z, true);
        self.set_flag(FLAG_V, false);
        self.set_flag(FLAG_C, false);
        Ok(())
    }

    // TST - Test an operand
    pub fn exec_tst(&mut self, inst: &Instruction, size: Size, mode: AddressingMode) -> (r: Result<(), CpuError>)
        ensures
            outcome(r, final(self)@, tst_spec(old(self)@, inst.address, size, mode)),
            r is Err ==> crate::cpu::only_addr_regs_moved(old(self)@, final(self)@),
    {
        let value = self.read_operand(&mode, size, inst.address)?;
        self.update_nz_flags_sized(value, size);
        self.set_flag(FLAG_V, false);
        self.set_flag(FLAG_C, false);
        Ok(())
    }

    // MOVE - Move data
    pub fn exec_move(&mut self, inst: &Instruction, size: Size, src: AddressingMode, dst: AddressingMode) -> (r:
        Result<(), CpuError>)
        ensures
            outcome(r, final(self)@, move_spec(old(self)@, inst.address, size, src, dst)),
            r is Err ==> crate::cpu::only_addr_regs_moved(old(self)@, final(self)@),
    {
        let value = self.read_operand(&src, size, inst.address)?;
        self.write_operand(&dst, size, inst.address, value)?;
        self.update_nz_flags_sized(value, size);
        self.set_flag(FLAG_V, false);
        self.set_flag(FLAG_C, false);
        Ok(())
    }

    // MOVEQ - Move Quick
    pub fn exec_moveq(&mut self, data: i8, dst: DataReg) -> (r: Result<(), CpuError>)
        ensures
            r is Ok,
            final(self)@ == moveq_spec(old(self)@, data, dst),
    {
        let value = data as i32 as u32;
        let idx = data_reg_index(dst);
        self.data_regs[idx] = value;
        self.update_nz_flags(value);
        self.set_flag(FLAG_V, false);
        self.set_flag(FLAG_C, false);
        Ok(())
    }

    // MOVEA - Move Address
    pub fn exec_movea(&mut self, inst: &Instruction, size: Size, src: AddressingMode, dst: AddrReg) -> (r: Result<
        (),
        CpuError,
    >)
        ensures
            outcome(r, final(self)@, movea_spec(old(self)@, inst.address, size, src, dst)),
            r is Err ==> crate::cpu::only_addr_regs_moved(old(self)@, final(self)@),
    {
        let value = self.read_operand(&src, size, inst.address)?;
        let extended = if size == Size::Word {
            sign_extend_word(value)
        } else {
            value
        };
        let idx = addr_reg_index(dst);
        self.addr_regs[idx] = extended;
        Ok(())
    }

    // LEA - Load Effective Address
    pub fn exec_lea(&mut self, inst: &Instruction, src: AddressingMode, dst: AddrReg) -> (r: Result<(), CpuError>)
        ensures
            outcome(r, final(self)@, lea_spec(old(self)@, inst.address, src, dst)),
            r is Err ==> crate::cpu::only_addr_regs_moved(old(self)@, final(self)@),
    {
        let addr = self.compute_effective_address(&src, inst.address)?;
        let idx = addr_reg_index(dst);
        self.addr_regs[idx] = addr as u32;
        Ok(())
    }

    // PEA - Push Effective Address
    pub fn exec_pea(&mut self, inst: &Instruction, mode: AddressingMode) -> (r: Result<(), CpuError>)
        ensures
            outcome(r, final(self)@, pea_spec(old(self)@, inst.address, mode)),
    {
        let addr = self.compute_effective_address(&mode, inst.address)?;
        self.push_long(addr as u32)?;
        Ok(())
    }

    // EXT - Sign Extend
    pub fn exec_ext(&mut self, data_reg: DataReg, mode: ExtMode) -> (r: Result<(), CpuError>)
        ensures
            r is Ok,
            final(self)@ == ext_spec(old(self)@, data_reg, mode),
    {
        let idx = data_reg_index(data_reg);
        let value = self.data_regs[idx];
        let result = match mode {
            ExtMode::ByteToWord => {
                let extended = (value as i8) as i16 as u16;
                proof {
                    lemma_merge_word(value, extended);
                }
                (value & 0xFFFF_0000) | (extended as u32)
            },
            ExtMode::WordToLong => (value as i16) as i32 as u32,
            ExtMode::ByteToLong => (value as i8) as i32 as u32,
        };
        self.data_regs[idx] = result;
        let size = match mode {
            ExtMode::ByteToWord => Size::Word,
            ExtMode::WordToLong | ExtMode::ByteToLong => Size::Long,
        };
        self.update_nz_flags_sized(result, size);
        self.set_flag(FLAG_V, false);
        self.set_flag(FLAG_C, false);
        Ok(())
    }

    // SWAP - Swap Register Halves
    pub fn exec_swap(&mut self, data_reg: DataReg) -> (r: Result<(), CpuError>)
        ensures
            r is Ok,
            final(self)@ == swap_spec(old(self)@, data_reg),
    {
        let idx = data_reg_index(data_reg);
        let value = self.data_regs[idx];
        let result = rotate_left_u32(value, 16);
        self.data_regs[idx] = result;
        self.update_nz_flags_sized(result, Size::Long);
        self.set_flag(FLAG_V, false);
        self.set_flag(FLAG_C, false);
        Ok(())
    }

    // EXG - Exchange Registers
    pub fn exec_exg(&mut self, exg: Exg) -> (r: Result<(), CpuError>)
        ensures
            r is Ok,
            final(self)@ == exg_spec(old(self)@, exg),
    {
        match exg {
            Exg::DataData { rx, ry } => {
                let ix = data_reg_index(rx);
                let iy = data_reg_index(ry);
                let vx = self.data_regs[ix];
                let vy = self.data_regs[iy];
                self.data_regs[ix] = vy;
                self.data_regs[iy] = vx;
            },
            Exg::AddrAddr { rx, ry } => {
                let ix = addr_reg_index(rx);
                let iy = addr_reg_index(ry);
                let vx = self.addr_regs[ix];
                let vy = self.addr_regs[iy];
                self.addr_regs[ix] = vy;
                self.addr_regs[iy] = vx;
            },
            Exg::DataAddr { data, addr } => {
                let id = data_reg_index(data);
                let ia = addr_reg_index(addr);
                let vd = self.data_regs[id];
                let va = self.addr_regs[ia];
                self.data_regs[id] = va;
                self.addr_regs[ia] = vd;
            },
        }
        Ok(())
    }

    // TAS - Test and Set
    pub fn exec_tas(&mut self, inst: &Instruction, mode: AddressingMode) -> (r: Result<(), CpuError>)
        ensures
            outcome(r, final(self)@, tas_spec(old(self)@, inst.address, mode)),
    {
        let value = self.read_operand(&mode, Size::Byte, inst.address)?;
        self.update_nz_flags_sized(value, Size::Byte);
        self.set_flag(FLAG_V, false);
        self.set_flag(FLAG_C, false);
        self.write_operand(&mode, Size::Byte, inst.address, value | 0x80)?;
        Ok(())
    }

    // Scc - Set on Condition
    pub fn exec_scc(&mut self, inst: &Instruction, condition: Condition, mode: AddressingMode) -> (r: Result<
        (),
        CpuError,
    >)
        ensures
            outcome(r, final(self)@, scc_spec(old(self)@, inst.address, condition, mode)),
            r is Err ==> crate::cpu::only_addr_regs_moved(old(self)@, final(self)@),
    {
        let value = if self.test_condition(condition) {
            0xFF
        } else {
            0x00
        };
        self.write_operand(&mode, Size::Byte, inst.address, value)?;
        Ok(())
    }
}

} // verus!
