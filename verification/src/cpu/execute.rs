//! Executing one decoded instruction: the dispatch over every instruction kind, and
//! the program counter moved past instructions that do not transfer control.

use vstd::prelude::*;

use crate::alu::{dreg, imm_value, sized};
use crate::cpu::arith::{add_spec, adda_spec, addi_spec, addq_spec, neg_spec, negx_spec, sub_spec, suba_spec, subi_spec, subq_spec};
use crate::cpu::atomic::{cas2_spec, cas_spec};
use crate::cpu::bitfield::{
    bf_access_ok, bf_complement, bf_ones, bf_read_width_ok, bf_rewrite_spec, bf_zeros, bfext_spec,
    bfffo_spec, bfins_spec, bfins_width_ok, bftst_spec,
};
use crate::cpu::bounds::{bounds_check_spec, bounds_compare_spec, bounds_in_range};
use crate::cpu::compare::{compare_addr_spec, compare_dn_spec, compare_imm_spec, compare_mem_spec};
use crate::cpu::control::{
    branch_ok, branch_to, bsr_spec, dbcc_spec, dbcc_taken, eori_to_ccr_sr, jmp_spec, jsr_spec, link_in_range, link_spec,
    move_to_ccr_spec, next_address, ori_to_ccr_sr, rtd_spec, rts_spec, short_branch_ok, unlk_spec, Event,
};
use crate::cpu::extend::{abcd_spec, addx_spec, sbcd_spec, subx_spec};
use crate::cpu::logic::{
    and_spec, clr_spec, exg_spec, ext_spec, lea_spec, logic_to_ea_spec, move_spec, movea_spec, moveq_spec, not_spec,
    or_spec, pea_spec, scc_spec, swap_spec, tas_spec, tst_spec, LogicOp,
};
use crate::cpu::movem::movem_spec;
use crate::cpu::muldiv::{
    divs_spec, divsl_spec, divu_spec, divul_spec, mulsl_spec, mulu_spec, muls_spec,
    mulul_spec,
};
use crate::cpu::shift::{bit_spec, shift_spec, BitKind, ShiftKind};
use crate::cpu::{advanced, condition_holds, Cpu, CpuModel};
use crate::decoder::{Instruction, InstructionKind};
use crate::error::CpuError;

verus! {

/// An instruction that falls through: on success the program counter moves past it.
pub open spec fn then_next(r: Result<CpuModel, CpuError>, inst: Instruction) -> Result<(CpuModel, Event), CpuError> {
    match r {
        Ok(m) => Ok((advanced(m, inst.length), Event::Continue)),
        Err(e) => Err(e),
    }
}

/// An instruction that sets the program counter itself.
pub open spec fn jumped(r: Result<CpuModel, CpuError>) -> Result<(CpuModel, Event), CpuError> {
    match r {
        Ok(m) => Ok((m, Event::Continue)),
        Err(e) => Err(e),
    }
}

/// The inputs on which every instruction can be carried out without leaving the
/// interpreter's arithmetic: branch targets, return addresses, stack frames, signed
/// quotients, shift counts, bounds and bit fields in range.
pub open spec fn step_ok(m: CpuModel, inst: Instruction) -> bool {
    let a = inst.address;
    match inst.kind {
        InstructionKind::Bra { displacement } => branch_ok(a, displacement),
        InstructionKind::Bcc { condition, displacement } => branch_ok(a, displacement),
        InstructionKind::DBcc { condition, data_reg, displacement } => short_branch_ok(a, displacement),
        InstructionKind::Jsr { mode } => next_address(inst) <= usize::MAX,
        InstructionKind::Bsr { displacement } => next_address(inst) <= usize::MAX && branch_ok(a, displacement),
        InstructionKind::Link { addr_reg, displacement } => link_in_range(m, addr_reg, displacement),
        InstructionKind::Cmp2 { size, mode, reg } => bounds_in_range(m, a, size, mode),
        InstructionKind::Chk2 { size, mode, reg } => bounds_in_range(m, a, size, mode),
        InstructionKind::Bftst { mode, offset, width } => bf_access_ok(m, a, mode, offset, width) && bf_read_width_ok(
            m,
            a,
            mode,
            offset,
            width,
        ),
        InstructionKind::Bfchg { mode, offset, width } => bf_access_ok(m, a, mode, offset, width) && bf_read_width_ok(
            m,
            a,
            mode,
            offset,
            width,
        ),
        InstructionKind::Bfclr { mode, offset, width } => bf_access_ok(m, a, mode, offset, width) && bf_read_width_ok(
            m,
            a,
            mode,
            offset,
            width,
        ),
        InstructionKind::Bfset { mode, offset, width } => bf_access_ok(m, a, mode, offset, width) && bf_read_width_ok(
            m,
            a,
            mode,
            offset,
            width,
        ),
        InstructionKind::Bfextu { src, dst, offset, width } => bf_access_ok(m, a, src, offset, width)
            && bf_read_width_ok(m, a, src, offset, width),
        InstructionKind::Bfexts { src, dst, offset, width } => bf_access_ok(m, a, src, offset, width)
            && bf_read_width_ok(m, a, src, offset, width),
        InstructionKind::Bfffo { src, dst, offset, width } => bf_access_ok(m, a, src, offset, width)
            && bf_read_width_ok(m, a, src, offset, width),
        InstructionKind::Bfins { src, dst, offset, width } => bf_access_ok(m, a, dst, offset, width) && bfins_width_ok(
            m,
            a,
            src,
            dst,
            offset,
            width,
        ),
        _ => true,
    }
}

/// What one instruction does: the state after it and what the caller owes next, or
/// the error it stops on.
pub open spec fn step_spec(m: CpuModel, inst: Instruction) -> Result<(CpuModel, Event), CpuError> {
    let a = inst.address;
    match inst.kind {
        InstructionKind::Nop => Ok((advanced(m, inst.length), Event::Continue)),
        InstructionKind::Addq(op) => then_next(addq_spec(m, a, op), inst),
        InstructionKind::Moveq { data, dst } => Ok((advanced(moveq_spec(m, data, dst), inst.length), Event::Continue)),
        InstructionKind::Move { size, src, dst } => then_next(move_spec(m, a, size, src, dst), inst),
        InstructionKind::Lea { src, dst } => then_next(lea_spec(m, a, src, dst), inst),
        InstructionKind::Mulu { src, dst } => then_next(mulu_spec(m, src, dst), inst),
        InstructionKind::Muls { src, dst } => then_next(muls_spec(m, src, dst), inst),
        InstructionKind::Trap { vector } => if vector == 0 {
            Ok((advanced(m, inst.length), Event::Syscall))
        } else {
            Err(CpuError::TrapNotImplemented { vector })
        },
        InstructionKind::Trapcc { condition, operand } => Ok((advanced(m, inst.length), Event::Continue)),
        InstructionKind::Bkpt { vector } => Ok((advanced(m, inst.length), Event::Continue)),
        InstructionKind::Rts => jumped(rts_spec(m)),
        InstructionKind::Rtd { displacement } => jumped(rtd_spec(m, displacement)),
        InstructionKind::Tst { size, mode } => then_next(tst_spec(m, a, size, mode), inst),
        InstructionKind::Bra { displacement } => Ok((m.with_pc(branch_to(a, displacement)), Event::Continue)),
        InstructionKind::Bcc { condition, displacement } => if condition_holds(m.sr, condition) {
            Ok((m.with_pc(branch_to(a, displacement)), Event::Continue))
        } else {
            Ok((advanced(m, inst.length), Event::Continue))
        },
        InstructionKind::Clr(op) => then_next(clr_spec(m, a, op), inst),
        InstructionKind::Neg(op) => then_next(neg_spec(m, a, op), inst),
        InstructionKind::Not(op) => then_next(not_spec(m, a, op), inst),
        InstructionKind::Negx(op) => then_next(negx_spec(m, a, op), inst),
        InstructionKind::Add(add) => then_next(add_spec(m, a, add), inst),
        InstructionKind::Sub(sub) => then_next(sub_spec(m, a, sub), inst),
        InstructionKind::Cmp(ea_to_dn) => then_next(compare_dn_spec(m, a, ea_to_dn), inst),
        InstructionKind::Cmpa { addr_reg, size, src } => then_next(compare_addr_spec(m, a, addr_reg, size, src), inst),
        InstructionKind::And(and) => then_next(and_spec(m, a, and), inst),
        InstructionKind::Or(or) => then_next(or_spec(m, a, or), inst),
        InstructionKind::Eor(d) => then_next(
            logic_to_ea_spec(m, a, LogicOp::Eor, d.size, sized(m.d[dreg(d.src)], d.size), d.dst),
            inst,
        ),
        InstructionKind::Jsr { mode } => jumped(jsr_spec(m, inst, mode)),
        InstructionKind::Jmp { mode } => jumped(jmp_spec(m, inst, mode)),
        InstructionKind::Bsr { displacement } => jumped(bsr_spec(m, inst, displacement)),
        InstructionKind::Subq(op) => then_next(subq_spec(m, a, op), inst),
        InstructionKind::Adda { addr_reg, size, mode } => then_next(adda_spec(m, a, addr_reg, size, mode), inst),
        InstructionKind::Suba { addr_reg, size, mode } => then_next(suba_spec(m, a, addr_reg, size, mode), inst),
        InstructionKind::Movea { size, src, dst } => then_next(movea_spec(m, a, size, src, dst), inst),
        InstructionKind::Ext { data_reg, mode } => Ok((advanced(ext_spec(m, data_reg, mode), inst.length), Event::Continue)),
        InstructionKind::Swap { data_reg } => Ok((advanced(swap_spec(m, data_reg), inst.length), Event::Continue)),
        InstructionKind::Pea { mode } => then_next(pea_spec(m, a, mode), inst),
        InstructionKind::Link { addr_reg, displacement } => then_next(link_spec(m, addr_reg, displacement), inst),
        InstructionKind::Unlk { addr_reg } => then_next(unlk_spec(m, addr_reg), inst),
        InstructionKind::Addi(op) => then_next(addi_spec(m, a, op), inst),
        InstructionKind::Subi(op) => then_next(subi_spec(m, a, op), inst),
        InstructionKind::Andi(op) => then_next(logic_to_ea_spec(m, a, LogicOp::And, op.size, imm_value(op.imm), op.mode), inst),
        InstructionKind::Ori(op) => then_next(logic_to_ea_spec(m, a, LogicOp::Or, op.size, imm_value(op.imm), op.mode), inst),
        InstructionKind::Eori(op) => then_next(logic_to_ea_spec(m, a, LogicOp::Eor, op.size, imm_value(op.imm), op.mode), inst),
        InstructionKind::Cmpi(op) => then_next(compare_imm_spec(m, a, op), inst),
        InstructionKind::Asd(shift) => then_next(shift_spec(m, a, ShiftKind::Arithmetic, shift), inst),
        InstructionKind::Lsd(shift) => then_next(shift_spec(m, a, ShiftKind::Logical, shift), inst),
        InstructionKind::Rod(shift) => then_next(shift_spec(m, a, ShiftKind::Rotate, shift), inst),
        InstructionKind::Roxd(shift) => then_next(shift_spec(m, a, ShiftKind::RotateExtend, shift), inst),
        InstructionKind::Btst(op) => then_next(bit_spec(m, a, BitKind::Test, op), inst),
        InstructionKind::Bchg(op) => then_next(bit_spec(m, a, BitKind::Change, op), inst),
        InstructionKind::Bclr(op) => then_next(bit_spec(m, a, BitKind::Clear, op), inst),
        InstructionKind::Bset(op) => then_next(bit_spec(m, a, BitKind::SetBit, op), inst),
        InstructionKind::Scc { condition, mode } => then_next(scc_spec(m, a, condition, mode), inst),
        InstructionKind::DBcc { condition, data_reg, displacement } => {
            let m1 = dbcc_spec(m, inst, condition, data_reg, displacement);
            if dbcc_taken(m, condition, data_reg) {
                Ok((m1, Event::Continue))
            } else {
                Ok((advanced(m1, inst.length), Event::Continue))
            }
        },
        InstructionKind::Divu { src, dst } => then_next(divu_spec(m, a, src, dst), inst),
        InstructionKind::Divs { src, dst } => then_next(divs_spec(m, a, src, dst), inst),
        InstructionKind::DivuL { src, dq, dr, is_64bit } => then_next(divul_spec(m, a, src, dq, dr, is_64bit), inst),
        InstructionKind::DivsL { src, dq, dr, is_64bit } => then_next(divsl_spec(m, a, src, dq, dr, is_64bit), inst),
        InstructionKind::MuluL { src, dl, dh } => then_next(mulul_spec(m, a, src, dl, dh), inst),
        InstructionKind::MulsL { src, dl, dh } => then_next(mulsl_spec(m, a, src, dl, dh), inst),
        InstructionKind::Cas { size, dc, du, mode } => then_next(cas_spec(m, a, size, dc, du, mode), inst),
        InstructionKind::Cas2 { size, dc1, dc2, du1, du2, rn1, rn2 } => then_next(
            cas2_spec(m, size, dc1, dc2, du1, du2, rn1, rn2),
            inst,
        ),
        InstructionKind::Cmp2 { size, mode, reg } => then_next(bounds_compare_spec(m, a, size, mode, reg), inst),
        InstructionKind::Chk2 { size, mode, reg } => then_next(bounds_check_spec(m, a, size, mode, reg), inst),
        InstructionKind::Exg(exg) => Ok((advanced(exg_spec(m, exg), inst.length), Event::Continue)),
        InstructionKind::Addx(op) => then_next(addx_spec(m, op), inst),
        InstructionKind::Subx(op) => then_next(subx_spec(m, op), inst),
        InstructionKind::Abcd(op) => then_next(abcd_spec(m, op), inst),
        InstructionKind::Sbcd(op) => then_next(sbcd_spec(m, op), inst),
        InstructionKind::Movem(movem) => then_next(movem_spec(m, a, movem), inst),
        InstructionKind::Cmpm { size, src, dst } => then_next(compare_mem_spec(m, size, src, dst), inst),
        InstructionKind::Tas { mode } => then_next(tas_spec(m, a, mode), inst),
        InstructionKind::OriToCcr { imm } => Ok((advanced(m.with_sr(ori_to_ccr_sr(m.sr, imm)), inst.length), Event::Continue)),
        InstructionKind::EoriToCcr { imm } => Ok(
            (advanced(m.with_sr(eori_to_ccr_sr(m.sr, imm)), inst.length), Event::Continue),
        ),
        InstructionKind::Bftst { mode, offset, width } => then_next(bftst_spec(m, a, mode, offset, width), inst),
        InstructionKind::Bfchg { mode, offset, width } => then_next(
            bf_rewrite_spec(m, a, mode, offset, width, |f: u32, w: u32| bf_complement(f, w)),
            inst,
        ),
        InstructionKind::Bfclr { mode, offset, width } => then_next(
            bf_rewrite_spec(m, a, mode, offset, width, |f: u32, w: u32| bf_zeros(f, w)),
            inst,
        ),
        InstructionKind::Bfset { mode, offset, width } => then_next(
            bf_rewrite_spec(m, a, mode, offset, width, |f: u32, w: u32| bf_ones(f, w)),
            inst,
        ),
        InstructionKind::Bfextu { src, dst, offset, width } => then_next(bfext_spec(m, a, src, dst, offset, width, false), inst),
        InstructionKind::Bfexts { src, dst, offset, width } => then_next(bfext_spec(m, a, src, dst, offset, width, true), inst),
        InstructionKind::Bfins { src, dst, offset, width } => then_next(bfins_spec(m, a, src, dst, offset, width), inst),
        InstructionKind::Bfffo { src, dst, offset, width } => then_next(bfffo_spec(m, a, src, dst, offset, width), inst),
        InstructionKind::MoveToCcr { src } => then_next(move_to_ccr_spec(m, a, src), inst),
        InstructionKind::Other { opcode } => Err(CpuError::Unimplemented { opcode }),
    }
}

/// Which of the dispatch stages handles an instruction kind.
pub open spec fn dispatch_stage(kind: InstructionKind) -> int {
    match kind {
        InstructionKind::Nop => 0,
        InstructionKind::Moveq { .. } => 0,
        InstructionKind::Move { .. } => 0,
        InstructionKind::Movea { .. } => 0,
        InstructionKind::Lea { .. } => 0,
        InstructionKind::Pea { .. } => 0,
        InstructionKind::Exg(..) => 0,
        InstructionKind::Swap { .. } => 0,
        InstructionKind::Ext { .. } => 0,
        InstructionKind::Movem(..) => 0,
        InstructionKind::Tst { .. } => 0,
        InstructionKind::Clr(..) => 0,
        InstructionKind::Tas { .. } => 0,
        InstructionKind::Scc { .. } => 0,
        InstructionKind::OriToCcr { .. } => 0,
        InstructionKind::EoriToCcr { .. } => 0,
        InstructionKind::MoveToCcr { .. } => 0,
        InstructionKind::Addq(..) => 1,
        InstructionKind::Subq(..) => 1,
        InstructionKind::Add(..) => 1,
        InstructionKind::Sub(..) => 1,
        InstructionKind::Adda { .. } => 1,
        InstructionKind::Suba { .. } => 1,
        InstructionKind::Addi(..) => 1,
        InstructionKind::Subi(..) => 1,
        InstructionKind::Neg(..) => 1,
        InstructionKind::Negx(..) => 1,
        InstructionKind::Addx(..) => 1,
        InstructionKind::Subx(..) => 1,
        InstructionKind::Abcd(..) => 1,
        InstructionKind::Sbcd(..) => 1,
        InstructionKind::Cmp(..) => 1,
        InstructionKind::Cmpa { .. } => 1,
        InstructionKind::Cmpi(..) => 1,
        InstructionKind::Cmpm { .. } => 1,
        InstructionKind::And(..) => 2,
        InstructionKind::Or(..) => 2,
        InstructionKind::Eor(..) => 2,
        InstructionKind::Andi(..) => 2,
        InstructionKind::Ori(..) => 2,
        InstructionKind::Eori(..) => 2,
        InstructionKind::Not(..) => 2,
        InstructionKind::Asd(..) => 2,
        InstructionKind::Lsd(..) => 2,
        InstructionKind::Rod(..) => 2,
        InstructionKind::Roxd(..) => 2,
        InstructionKind::Btst(..) => 2,
        InstructionKind::Bchg(..) => 2,
        InstructionKind::Bclr(..) => 2,
        InstructionKind::Bset(..) => 2,
        InstructionKind::Mulu { .. } => 3,
        InstructionKind::Muls { .. } => 3,
        InstructionKind::Divu { .. } => 3,
        InstructionKind::Divs { .. } => 3,
        InstructionKind::DivuL { .. } => 3,
        InstructionKind::DivsL { .. } => 3,
        InstructionKind::MuluL { .. } => 3,
        InstructionKind::MulsL { .. } => 3,
        InstructionKind::Cas { .. } => 3,
        InstructionKind::Cas2 { .. } => 3,
        InstructionKind::Cmp2 { .. } => 3,
        InstructionKind::Chk2 { .. } => 3,
        InstructionKind::Bftst { .. } => 4,
        InstructionKind::Bfchg { .. } => 4,
        InstructionKind::Bfclr { .. } => 4,
        InstructionKind::Bfset { .. } => 4,
        InstructionKind::Bfextu { .. } => 4,
        InstructionKind::Bfexts { .. } => 4,
        InstructionKind::Bfins { .. } => 4,
        InstructionKind::Bfffo { .. } => 4,
        InstructionKind::Trap { .. } => 5,
        InstructionKind::Trapcc { .. } => 5,
        InstructionKind::Bkpt { .. } => 5,
        InstructionKind::Rts => 5,
        InstructionKind::Rtd { .. } => 5,
        InstructionKind::Bra { .. } => 5,
        InstructionKind::Bcc { .. } => 5,
        InstructionKind::DBcc { .. } => 5,
        InstructionKind::Jsr { .. } => 5,
        InstructionKind::Jmp { .. } => 5,
        InstructionKind::Bsr { .. } => 5,
        InstructionKind::Link { .. } => 5,
        InstructionKind::Unlk { .. } => 5,
        InstructionKind::Other { .. } => 5,
    }
}

impl Cpu {
    /// The program counter moves past an instruction that succeeded.
    fn fall_through(&mut self, inst: &Instruction, r: Result<(), CpuError>) -> (out: Result<Event, CpuError>)
        ensures
            match r {
                Ok(()) => out == Ok::<Event, CpuError>(Event::Continue) && final(self)@ == advanced(old(self)@, inst.length),
                Err(e) => out == Err::<Event, CpuError>(e) && final(self)@ == old(self)@,
            },
    {
        match r {
            Ok(()) => {
                self.advance_pc(inst.len());
                Ok(Event::Continue)
            },
            Err(e) => Err(e),
        }
    }

    /// An instruction that set the program counter itself.
    fn jumped_to(r: Result<(), CpuError>) -> (out: Result<Event, CpuError>)
        ensures
            match r {
                Ok(()) => out == Ok::<Event, CpuError>(Event::Continue),
                Err(e) => out == Err::<Event, CpuError>(e),
            },
    {
        match r {
            Ok(()) => Ok(Event::Continue),
            Err(e) => Err(e),
        }
    }

    /// Carry out one decoded instruction. On success the result says whether the
    /// guest asked for a system call, which the caller then performs.
    pub fn execute(&mut self, inst: &Instruction) -> (r: Result<Event, CpuError>)
        requires
            step_ok(old(self)@, *inst),
        ensures
            match step_spec(old(self)@, *inst) {
                Ok((m, ev)) => r == Ok::<Event, CpuError>(ev) && final(self)@ == m,
                Err(e) => r == Err::<Event, CpuError>(e),
            },
            r is Err ==> final(self).pc == old(self).pc,
    {
        let saved_pc = self.pc;
        let out: Result<Event, CpuError> = match inst.kind {
            InstructionKind::Nop => self.fall_through(inst, Ok(())),
            InstructionKind::Moveq { data, dst } => {
                let r = self.exec_moveq(data, dst);
                self.fall_through(inst, r)
            },
            InstructionKind::Move { size, src, dst } => {
                let r = self.exec_move(inst, size, src, dst);
                self.fall_through(inst, r)
            },
            InstructionKind::Movea { size, src, dst } => {
                let r = self.exec_movea(inst, size, src, dst);
                self.fall_through(inst, r)
            },
            InstructionKind::Lea { src, dst } => {
                let r = self.exec_lea(inst, src, dst);
                self.fall_through(inst, r)
            },
            InstructionKind::Pea { mode } => {
                let r = self.exec_pea(inst, mode);
                self.fall_through(inst, r)
            },
            InstructionKind::Exg(exg) => {
                let r = self.exec_exg(exg);
                self.fall_through(inst, r)
            },
            InstructionKind::Swap { data_reg } => {
                let r = self.exec_swap(data_reg);
                self.fall_through(inst, r)
            },
            InstructionKind::Ext { data_reg, mode } => {
                let r = self.exec_ext(data_reg, mode);
                self.fall_through(inst, r)
            },
            InstructionKind::Movem(movem) => {
                let r = self.exec_movem(inst, movem);
                self.fall_through(inst, r)
            },
            InstructionKind::Tst { size, mode } => {
                let r = self.exec_tst(inst, size, mode);
                self.fall_through(inst, r)
            },
            InstructionKind::Clr(op) => {
                let r = self.exec_clr(inst, op);
                self.fall_through(inst, r)
            },
            InstructionKind::Tas { mode } => {
                let r = self.exec_tas(inst, mode);
                self.fall_through(inst, r)
            },
            InstructionKind::Scc { condition, mode } => {
                let r = self.exec_scc(inst, condition, mode);
                self.fall_through(inst, r)
            },
            InstructionKind::OriToCcr { imm } => {
                self.exec_ori_to_ccr(imm);
                self.fall_through(inst, Ok(()))
            },
            InstructionKind::EoriToCcr { imm } => {
                self.exec_eori_to_ccr(imm);
                self.fall_through(inst, Ok(()))
            },
            InstructionKind::MoveToCcr { src } => {
                let r = self.exec_move_to_ccr(inst, &src);
                self.fall_through(inst, r)
            },
            _ => self.execute_arithmetic(inst),
        };
        if out.is_err() {
            // A failed instruction leaves the program counter at itself.
            self.pc = saved_pc;
        }
        out
    }

    /// Integer and decimal arithmetic and comparisons; other kinds go on to
    /// `execute_logic`.
    #[verifier::rlimit(40)]
    fn execute_arithmetic(&mut self, inst: &Instruction) -> (r: Result<Event, CpuError>)
        requires
            step_ok(old(self)@, *inst),
            dispatch_stage(inst.kind) >= 1,
        ensures
            match step_spec(old(self)@, *inst) {
                Ok((m, ev)) => r == Ok::<Event, CpuError>(ev) && final(self)@ == m,
                Err(e) => r == Err::<Event, CpuError>(e),
            },
    {
        match inst.kind {
            InstructionKind::Addq(op) => {
                let r = self.exec_addq(inst, op);
                self.fall_through(inst, r)
            },
            InstructionKind::Subq(op) => {
                let r = self.exec_subq(inst, op);
                self.fall_through(inst, r)
            },
            InstructionKind::Add(add) => {
                let r = self.exec_add(inst, add);
                self.fall_through(inst, r)
            },
            InstructionKind::Sub(sub) => {
                let r = self.exec_sub(inst, sub);
                self.fall_through(inst, r)
            },
            InstructionKind::Adda { addr_reg, size, mode } => {
                let r = self.exec_adda(inst, addr_reg, size, mode);
                self.fall_through(inst, r)
            },
            InstructionKind::Suba { addr_reg, size, mode } => {
                let r = self.exec_suba(inst, addr_reg, size, mode);
                self.fall_through(inst, r)
            },
            InstructionKind::Addi(imm_op) => {
                let r = self.exec_addi(inst, imm_op);
                self.fall_through(inst, r)
            },
            InstructionKind::Subi(imm_op) => {
                let r = self.exec_subi(inst, imm_op);
                self.fall_through(inst, r)
            },
            InstructionKind::Neg(op) => {
                let r = self.exec_neg(inst, op);
                self.fall_through(inst, r)
            },
            InstructionKind::Negx(op) => {
                let r = self.exec_negx(inst, op);
                self.fall_through(inst, r)
            },
            InstructionKind::Addx(addx) => {
                let r = self.exec_addx(addx);
                self.fall_through(inst, r)
            },
            InstructionKind::Subx(subx) => {
                let r = self.exec_subx(subx);
                self.fall_through(inst, r)
            },
            InstructionKind::Abcd(abcd) => {
                let r = self.exec_abcd(abcd);
                self.fall_through(inst, r)
            },
            InstructionKind::Sbcd(sbcd) => {
                let r = self.exec_sbcd(sbcd);
                self.fall_through(inst, r)
            },
            InstructionKind::Cmp(ea_to_dn) => {
                let r = self.exec_cmp(inst, ea_to_dn);
                self.fall_through(inst, r)
            },
            InstructionKind::Cmpa { addr_reg, size, src } => {
                let r = self.exec_cmpa(inst, addr_reg, size, src);
                self.fall_through(inst, r)
            },
            InstructionKind::Cmpi(imm_op) => {
                let r = self.exec_cmpi(inst, imm_op);
                self.fall_through(inst, r)
            },
            InstructionKind::Cmpm { size, src, dst } => {
                let r = self.exec_cmpm(size, src, dst);
                self.fall_through(inst, r)
            },
            _ => self.execute_logic(inst),
        }
    }

    /// Logical operations, shifts, rotations and single-bit operations; other kinds
    /// go on to `execute_multiply_divide`.
    fn execute_logic(&mut self, inst: &Instruction) -> (r: Result<Event, CpuError>)
        requires
            step_ok(old(self)@, *inst),
            dispatch_stage(inst.kind) >= 2,
        ensures
            match step_spec(old(self)@, *inst) {
                Ok((m, ev)) => r == Ok::<Event, CpuError>(ev) && final(self)@ == m,
                Err(e) => r == Err::<Event, CpuError>(e),
            },
    {
        match inst.kind {
            InstructionKind::And(and) => {
                let r = self.exec_and(inst, and);
                self.fall_through(inst, r)
            },
            InstructionKind::Or(or) => {
                let r = self.exec_or(inst, or);
                self.fall_through(inst, r)
            },
            InstructionKind::Eor(dn_to_ea) => {
                let r = self.exec_eor(inst, dn_to_ea);
                self.fall_through(inst, r)
            },
            InstructionKind::Andi(imm_op) => {
                let r = self.exec_andi(inst, imm_op);
                self.fall_through(inst, r)
            },
            InstructionKind::Ori(imm_op) => {
                let r = self.exec_ori(inst, imm_op);
                self.fall_through(inst, r)
            },
            InstructionKind::Eori(imm_op) => {
                let r = self.exec_eori(inst, imm_op);
                self.fall_through(inst, r)
            },
            InstructionKind::Not(op) => {
                let r = self.exec_not(inst, op);
                self.fall_through(inst, r)
            },
            InstructionKind::Asd(shift) => {
                let r = self.exec_asd(inst, shift);
                self.fall_through(inst, r)
            },
            InstructionKind::Lsd(shift) => {
                let r = self.exec_lsd(inst, shift);
                self.fall_through(inst, r)
            },
            InstructionKind::Rod(shift) => {
                let r = self.exec_rod(inst, shift);
                self.fall_through(inst, r)
            },
            InstructionKind::Roxd(shift) => {
                let r = self.exec_roxd(inst, shift);
                self.fall_through(inst, r)
            },
            InstructionKind::Btst(bit_op) => {
                let r = self.exec_btst(inst, bit_op);
                self.fall_through(inst, r)
            },
            InstructionKind::Bchg(bit_op) => {
                let r = self.exec_bchg(inst, bit_op);
                self.fall_through(inst, r)
            },
            InstructionKind::Bclr(bit_op) => {
                let r = self.exec_bclr(inst, bit_op);
                self.fall_through(inst, r)
            },
            InstructionKind::Bset(bit_op) => {
                let r = self.exec_bset(inst, bit_op);
                self.fall_through(inst, r)
            },
            _ => self.execute_multiply_divide(inst),
        }
    }

    /// Multiplication, division, compare-and-swap and bounds checks; other kinds go
    /// on to `execute_bitfield`.
    fn execute_multiply_divide(&mut self, inst: &Instruction) -> (r: Result<Event, CpuError>)
        requires
            step_ok(old(self)@, *inst),
            dispatch_stage(inst.kind) >= 3,
        ensures
            match step_spec(old(self)@, *inst) {
                Ok((m, ev)) => r == Ok::<Event, CpuError>(ev) && final(self)@ == m,
                Err(e) => r == Err::<Event, CpuError>(e),
            },
    {
        match inst.kind {
            InstructionKind::Mulu { src, dst } => {
                let r = self.exec_mulu(src, dst);
                self.fall_through(inst, r)
            },
            InstructionKind::Muls { src, dst } => {
                let r = self.exec_muls(src, dst);
                self.fall_through(inst, r)
            },
            InstructionKind::Divu { src, dst } => {
                let r = self.exec_divu(inst, src, dst);
                self.fall_through(inst, r)
            },
            InstructionKind::Divs { src, dst } => {
                let r = self.exec_divs(inst, src, dst);
                self.fall_through(inst, r)
            },
            InstructionKind::DivuL { src, dq, dr, is_64bit } => {
                let r = self.exec_divul(inst, &src, dq, dr, is_64bit);
                self.fall_through(inst, r)
            },
            InstructionKind::DivsL { src, dq, dr, is_64bit } => {
                let r = self.exec_divsl(inst, &src, dq, dr, is_64bit);
                self.fall_through(inst, r)
            },
            InstructionKind::MuluL { src, dl, dh } => {
                let r = self.exec_mulul(inst, &src, dl, dh);
                self.fall_through(inst, r)
            },
            InstructionKind::MulsL { src, dl, dh } => {
                let r = self.exec_mulsl(inst, &src, dl, dh);
                self.fall_through(inst, r)
            },
            InstructionKind::Cas { size, dc, du, mode } => {
                let r = self.exec_cas(inst, size, dc, du, &mode);
                self.fall_through(inst, r)
            },
            InstructionKind::Cas2 { size, dc1, dc2, du1, du2, rn1, rn2 } => {
                let r = self.exec_cas2(size, dc1, dc2, du1, du2, rn1, rn2);
                self.fall_through(inst, r)
            },
            InstructionKind::Cmp2 { size, mode, reg } => {
                let r = self.exec_cmp2(inst, size, &mode, reg);
                self.fall_through(inst, r)
            },
            InstructionKind::Chk2 { size, mode, reg } => {
                let r = self.exec_chk2(inst, size, &mode, reg);
                self.fall_through(inst, r)
            },
            _ => self.execute_bitfield(inst),
        }
    }

    /// Bit-field operations; other kinds go on to `execute_flow`.
    fn execute_bitfield(&mut self, inst: &Instruction) -> (r: Result<Event, CpuError>)
        requires
            step_ok(old(self)@, *inst),
            dispatch_stage(inst.kind) >= 4,
        ensures
            match step_spec(old(self)@, *inst) {
                Ok((m, ev)) => r == Ok::<Event, CpuError>(ev) && final(self)@ == m,
                Err(e) => r == Err::<Event, CpuError>(e),
            },
    {
        match inst.kind {
            InstructionKind::Bftst { mode, offset, width } => {
                let r = self.exec_bftst(inst, &mode, offset, width);
                self.fall_through(inst, r)
            },
            InstructionKind::Bfchg { mode, offset, width } => {
                let r = self.exec_bfchg(inst, &mode, offset, width);
                self.fall_through(inst, r)
            },
            InstructionKind::Bfclr { mode, offset, width } => {
                let r = self.exec_bfclr(inst, &mode, offset, width);
                self.fall_through(inst, r)
            },
            InstructionKind::Bfset { mode, offset, width } => {
                let r = self.exec_bfset(inst, &mode, offset, width);
                self.fall_through(inst, r)
            },
            InstructionKind::Bfextu { src, dst, offset, width } => {
                let r = self.exec_bfextu(inst, &src, dst, offset, width);
                self.fall_through(inst, r)
            },
            InstructionKind::Bfexts { src, dst, offset, width } => {
                let r = self.exec_bfexts(inst, &src, dst, offset, width);
                self.fall_through(inst, r)
            },
            InstructionKind::Bfins { src, dst, offset, width } => {
                let r = self.exec_bfins(inst, src, &dst, offset, width);
                self.fall_through(inst, r)
            },
            InstructionKind::Bfffo { src, dst, offset, width } => {
                let r = self.exec_bfffo(inst, &src, dst, offset, width);
                self.fall_through(inst, r)
            },
            _ => self.execute_flow(inst),
        }
    }

    /// Program flow: branches, jumps, calls, returns, stack frames and traps.
    fn execute_flow(&mut self, inst: &Instruction) -> (r: Result<Event, CpuError>)
        requires
            step_ok(old(self)@, *inst),
            dispatch_stage(inst.kind) >= 5,
        ensures
            match step_spec(old(self)@, *inst) {
                Ok((m, ev)) => r == Ok::<Event, CpuError>(ev) && final(self)@ == m,
                Err(e) => r == Err::<Event, CpuError>(e),
            },
    {
        match inst.kind {
            InstructionKind::Trap { vector } => {
                let event = self.exec_trap(vector)?;
                self.advance_pc(inst.len());
                Ok(event)
            },
            InstructionKind::Trapcc { condition, operand } => {
                let _ = self.test_condition(condition);
                self.fall_through(inst, Ok(()))
            },
            InstructionKind::Bkpt { vector } => self.fall_through(inst, Ok(())),
            InstructionKind::Rts => {
                let r = self.exec_rts();
                Self::jumped_to(r)
            },
            InstructionKind::Rtd { displacement } => {
                let r = self.exec_rtd(displacement);
                Self::jumped_to(r)
            },
            InstructionKind::Bra { displacement } => {
                self.exec_bra(inst, displacement);
                Ok(Event::Continue)
            },
            InstructionKind::Bcc { condition, displacement } => {
                if self.exec_bcc(inst, condition, displacement) {
                    Ok(Event::Continue)
                } else {
                    self.fall_through(inst, Ok(()))
                }
            },
            InstructionKind::DBcc { condition, data_reg, displacement } => {
                if self.exec_dbcc(inst, condition, data_reg, displacement) {
                    Ok(Event::Continue)
                } else {
                    self.fall_through(inst, Ok(()))
                }
            },
            InstructionKind::Jsr { mode } => {
                let r = self.exec_jsr(inst, mode);
                Self::jumped_to(r)
            },
            InstructionKind::Jmp { mode } => {
                let r = self.exec_jmp(inst, mode);
                Self::jumped_to(r)
            },
            InstructionKind::Bsr { displacement } => {
                let r = self.exec_bsr(inst, displacement);
                Self::jumped_to(r)
            },
            InstructionKind::Link { addr_reg, displacement } => {
                let r = self.exec_link(addr_reg, displacement);
                self.fall_through(inst, r)
            },
            InstructionKind::Unlk { addr_reg } => {
                let r = self.exec_unlk(addr_reg);
                self.fall_through(inst, r)
            },
            InstructionKind::Other { opcode } => Err(CpuError::Unimplemented { opcode }),
            _ => vstd::pervasive::unreached(),
        }
    }
}

} // verus!
