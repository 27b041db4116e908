//! Program flow: branches, jumps, subroutine calls, stack frames and traps.

use vstd::prelude::*;

use crate::alu::{addr_reg_index, areg, data_reg_index, dreg};
use crate::cpu::logic::push_spec;
use crate::cpu::operand::{ea_spec, read_operand_spec, read_sized_spec, wrap_add};
use crate::cpu::{condition_holds, outcome, Cpu, CpuModel};
use crate::decoder::{AddrReg, AddressingMode, Condition, DataReg, Instruction, Size};
use crate::error::CpuError;

verus! {

/// What the interpreter owes the caller after an instruction.
#[derive(Clone, Copy, Debug, PartialEq, Eq, Structural)]
pub enum Event {
    /// The instruction is done; fetch the next one at the program counter.
    Continue,
    /// The guest trapped into the operating system (`TRAP #0`); the system call in
    /// D0 is to be carried out before the next instruction.
    Syscall,
}

/// A PC-relative displacement taken from the address of the opcode word plus two.
pub open spec fn relative_target(addr: usize, disp: int) -> int {
    (addr as i64) as int + 2 + disp
}

/// The target, and the address plus two on the way to it, fit the signed 64-bit
/// arithmetic the interpreter does it in.
pub open spec fn relative_in_range(addr: usize, disp: int) -> bool {
    &&& (addr as i64) as int + 2 <= i64::MAX
    &&& i64::MIN <= relative_target(addr, disp) <= i64::MAX
}

/// The program counter a PC-relative branch lands on.
pub open spec fn branch_target(addr: usize, disp: int) -> usize {
    (relative_target(addr, disp) as i64) as usize
}

/// A branch with a 32-bit displacement stays in range.
pub open spec fn branch_ok(addr: usize, disp: i32) -> bool {
    relative_in_range(addr, disp as int)
}

/// A branch with a 16-bit displacement stays in range.
pub open spec fn short_branch_ok(addr: usize, disp: i16) -> bool {
    relative_in_range(addr, disp as int)
}

/// The program counter a branch with a 32-bit displacement lands on.
pub open spec fn branch_to(addr: usize, disp: i32) -> usize {
    branch_target(addr, disp as int)
}

/// RTS: pop the return address into the program counter.
pub open spec fn rts_spec(m: CpuModel) -> Result<CpuModel, CpuError> {
    match read_sized_spec(m.mem, m.a[7] as usize, Size::Long) {
        Ok(v) => Ok(m.with_a(7, wrap_add(m.a[7], 4)).with_pc(v as usize)),
        Err(e) => Err(e),
    }
}

/// RTD: pop the return address, then release `disp` more bytes of stack.
pub open spec fn rtd_spec(m: CpuModel, disp: i16) -> Result<CpuModel, CpuError> {
    match read_sized_spec(m.mem, m.a[7] as usize, Size::Long) {
        Ok(v) => Ok(m.with_a(7, wrap_add(wrap_add(m.a[7], 4), disp as u32)).with_pc(v as usize)),
        Err(e) => Err(e),
    }
}

/// MOVE to CCR: the low byte of the source word replaces the low byte of SR.
pub open spec fn move_to_ccr_spec(m: CpuModel, inst_addr: usize, src: AddressingMode) -> Result<CpuModel, CpuError> {
    match read_operand_spec(m, src, Size::Word, inst_addr) {
        Ok((m1, v)) => Ok(m1.with_sr((m1.sr & 0xff00) | ((v as u16) & 0xff))),
        Err(e) => Err(e),
    }
}

/// ORI to CCR: the immediate is or-ed into SR.
pub open spec fn ori_to_ccr_sr(sr: u16, imm: u8) -> u16 {
    sr | imm as u16
}

/// EORI to CCR: the immediate is exclusive-or-ed into SR.
pub open spec fn eori_to_ccr_sr(sr: u16, imm: u8) -> u16 {
    sr ^ imm as u16
}

/// The address of the instruction after `inst`.
pub open spec fn next_address(inst: Instruction) -> int {
    inst.address + inst.length
}

/// JSR: push the return address and jump to the effective address.
pub open spec fn jsr_spec(m: CpuModel, inst: Instruction, mode: AddressingMode) -> Result<CpuModel, CpuError> {
    match ea_spec(m, mode, inst.address) {
        Err(e) => Err(e),
        Ok(target) => match push_spec(m, next_address(inst) as u32) {
            Ok(m1) => Ok(m1.with_pc(target)),
            Err(e) => Err(e),
        },
    }
}

/// JMP: jump to the effective address.
pub open spec fn jmp_spec(m: CpuModel, inst: Instruction, mode: AddressingMode) -> Result<CpuModel, CpuError> {
    match ea_spec(m, mode, inst.address) {
        Err(e) => Err(e),
        Ok(target) => Ok(m.with_pc(target)),
    }
}

/// BSR: push the return address and branch.
pub open spec fn bsr_spec(m: CpuModel, inst: Instruction, disp: i32) -> Result<CpuModel, CpuError> {
    match push_spec(m, next_address(inst) as u32) {
        Ok(m1) => Ok(m1.with_pc(branch_target(inst.address, disp as int))),
        Err(e) => Err(e),
    }
}

/// The new stack pointer of LINK, before it is stored.
pub open spec fn link_sp(sp: u32, disp: i16) -> int {
    (sp as i32) as int + disp as int
}

/// LINK cannot move the stack pointer past the signed 32-bit range.
pub open spec fn link_in_range(m: CpuModel, reg: AddrReg, disp: i16) -> bool {
    match push_spec(m, m.a[areg(reg)]) {
        Ok(m1) => i32::MIN <= link_sp(m1.a[7], disp) <= i32::MAX,
        Err(_) => true,
    }
}

/// LINK: push An, let An point at the saved value and move the stack pointer by the
/// displacement.
pub open spec fn link_spec(m: CpuModel, reg: AddrReg, disp: i16) -> Result<CpuModel, CpuError> {
    let i = areg(reg);
    match push_spec(m, m.a[i]) {
        Ok(m1) => {
            let m2 = m1.with_a(i, m1.a[7]);
            Ok(m2.with_a(7, (link_sp(m2.a[7], disp) as i32) as u32))
        },
        Err(e) => Err(e),
    }
}

/// UNLK: the stack pointer takes An, then An is popped.
pub open spec fn unlk_spec(m: CpuModel, reg: AddrReg) -> Result<CpuModel, CpuError> {
    let i = areg(reg);
    let m1 = m.with_a(7, m.a[i]);
    match read_sized_spec(m1.mem, m1.a[7] as usize, Size::Long) {
        Ok(v) => Ok(m1.with_a(7, wrap_add(m1.a[7], 4)).with_a(i, v)),
        Err(e) => Err(e),
    }
}

/// DBcc: the branch is taken where the condition is false and the decremented low
/// word of Dn is not -1.
pub open spec fn dbcc_taken(m: CpuModel, condition: Condition, reg: DataReg) -> bool {
    !condition_holds(m.sr, condition) && (m.d[dreg(reg)] as u16) != 0
}

/// The state DBcc leaves behind.
pub open spec fn dbcc_spec(m: CpuModel, inst: Instruction, condition: Condition, reg: DataReg, disp: i16) -> CpuModel {
    if condition_holds(m.sr, condition) {
        m
    } else {
        let i = dreg(reg);
        let low = if (m.d[i] as u16) == 0 {
            0xFFFFu16
        } else {
            ((m.d[i] as u16) - 1) as u16
        };
        let m1 = m.with_d(i, ((m.d[i] as int / 0x1_0000) * 0x1_0000 + low as int) as u32);
        if low == 0xFFFF {
            m1
        } else {
            m1.with_pc(branch_target(inst.address, disp as int))
        }
    }
}

impl Cpu {
    /// BRA: PC = address + 2 + displacement.
    pub fn exec_bra(&mut self, inst: &Instruction, displacement: i32)
        requires
            relative_in_range(inst.address, displacement as int),
        ensures
            final(self)@ == old(self)@.with_pc(branch_target(inst.address, displacement as int)),
    {
        let new_pc = (inst.address as i64) + 2 + (displacement as i64);
        self.pc = new_pc as usize;
    }

    /// Bcc: branch where the condition holds; the result says whether it did.
    pub fn exec_bcc(&mut self, inst: &Instruction, condition: Condition, displacement: i32) -> (r: bool)
        requires
            relative_in_range(inst.address, displacement as int),
        ensures
            r == condition_holds(old(self).sr, condition),
            final(self)@ == if r {
                old(self)@.with_pc(branch_target(inst.address, displacement as int))
            } else {
                old(self)@
            },
    {
        if self.test_condition(condition) {
            let new_pc = (inst.address as i64) + 2 + (displacement as i64);
            self.pc = new_pc as usize;
            true
        } else {
            false
        }
    }

    /// JSR: push the address of the next instruction and jump.
    pub fn exec_jsr(&mut self, inst: &Instruction, mode: AddressingMode) -> (r: Result<(), CpuError>)
        requires
            next_address(*inst) <= usize::MAX,
        ensures
            outcome(r, final(self)@, jsr_spec(old(self)@, *inst, mode)),
    {
        let target = self.compute_effective_address(&mode, inst.address)?;
        let return_addr = inst.address + inst.len();
        self.push_long(return_addr as u32)?;
        self.pc = target;
        Ok(())
    }

    /// JMP: jump to the effective address.
    pub fn exec_jmp(&mut self, inst: &Instruction, mode: AddressingMode) -> (r: Result<(), CpuError>)
        ensures
            outcome(r, final(self)@, jmp_spec(old(self)@, *inst, mode)),
            r is Err ==> crate::cpu::only_addr_regs_moved(old(self)@, final(self)@),
    {
        let target = self.compute_effective_address(&mode, inst.address)?;
        self.pc = target;
        Ok(())
    }

    /// BSR: push the address of the next instruction and branch.
    pub fn exec_bsr(&mut self, inst: &Instruction, displacement: i32) -> (r: Result<(), CpuError>)
        requires
            next_address(*inst) <= usize::MAX,
            relative_in_range(inst.address, displacement as int),
        ensures
            outcome(r, final(self)@, bsr_spec(old(self)@, *inst, displacement)),
    {
        let return_addr = inst.address + inst.len();
        self.push_long(return_addr as u32)?;
        let target = (inst.address as i64) + 2 + (displacement as i64);
        self.pc = target as usize;
        Ok(())
    }

    /// LINK: build a stack frame.
    pub fn exec_link(&mut self, addr_reg: AddrReg, displacement: i16) -> (r: Result<(), CpuError>)
        requires
            link_in_range(old(self)@, addr_reg, displacement),
        ensures
            outcome(r, final(self)@, link_spec(old(self)@, addr_reg, displacement)),
    {
        let idx = addr_reg_index(addr_reg);
        self.push_long(self.addr_regs[idx])?;
        self.addr_regs[idx] = self.addr_regs[7];
        self.addr_regs[7] = (self.addr_regs[7] as i32 + displacement as i32) as u32;
        Ok(())
    }

    /// UNLK: tear a stack frame down.
    pub fn exec_unlk(&mut self, addr_reg: AddrReg) -> (r: Result<(), CpuError>)
        ensures
            outcome(r, final(self)@, unlk_spec(old(self)@, addr_reg)),
            r is Err ==> crate::cpu::only_addr_regs_moved(old(self)@, final(self)@),
    {
        let idx = addr_reg_index(addr_reg);
        self.addr_regs[7] = self.addr_regs[idx];
        self.addr_regs[idx] = self.pop_long()?;
        Ok(())
    }

    /// DBcc: decrement and branch until the condition holds or the counter runs out;
    /// the result says whether the branch was taken.
    pub fn exec_dbcc(&mut self, inst: &Instruction, condition: Condition, data_reg: DataReg, displacement: i16) -> (r:
        bool)
        requires
            relative_in_range(inst.address, displacement as int),
        ensures
            r == dbcc_taken(old(self)@, condition, data_reg),
            final(self)@ == dbcc_spec(old(self)@, *inst, condition, data_reg, displacement),
    {
        if self.test_condition(condition) {
            return false;
        }
        let idx = data_reg_index(data_reg);
        let low_word = (self.data_regs[idx] as u16).wrapping_sub(1);
        let high = self.data_regs[idx] & 0xFFFF_0000;
        proof {
            let v = self.data_regs[idx as int];
            assert(v & 0xFFFF_0000 == (v / 0x1_0000) * 0x1_0000 && (v & 0xFFFF_0000) | (low_word as u32) == (v
                & 0xFFFF_0000) + (low_word as u32)) by (bit_vector);
        }
        self.data_regs[idx] = high | (low_word as u32);
        if low_word == 0xFFFF {
            return false;
        }
        let target = (inst.address as i64) + 2 + (displacement as i64);
        self.pc = target as usize;
        true
    }

    /// TRAP: vector 0 is the system call gate; the others are not handled.
    pub fn exec_trap(&mut self, vector: u8) -> (r: Result<Event, CpuError>)
        ensures
            final(self)@ == old(self)@,
            r == if vector == 0 {
                Ok::<Event, CpuError>(Event::Syscall)
            } else {
                Err::<Event, CpuError>(CpuError::TrapNotImplemented { vector })
            },
    {
        match vector {
            0 => Ok(Event::Syscall),
            _ => Err(CpuError::TrapNotImplemented { vector }),
        }
    }

    /// RTS: return from subroutine.
    pub fn exec_rts(&mut self) -> (r: Result<(), CpuError>)
        ensures
            outcome(r, final(self)@, rts_spec(old(self)@)),
            r is Err ==> crate::cpu::only_addr_regs_moved(old(self)@, final(self)@),
    {
        let return_addr = self.memory.read_long(self.addr_regs[7] as usize)?;
        self.addr_regs[7] = self.addr_regs[7].wrapping_add(4);
        self.pc = return_addr as usize;
        Ok(())
    }

    /// RTD: return and deallocate parameters.
    pub fn exec_rtd(&mut self, displacement: i16) -> (r: Result<(), CpuError>)
        ensures
            outcome(r, final(self)@, rtd_spec(old(self)@, displacement)),
            r is Err ==> crate::cpu::only_addr_regs_moved(old(self)@, final(self)@),
    {
        let return_addr = self.memory.read_long(self.addr_regs[7] as usize)?;
        let sp = self.addr_regs[7].wrapping_add(4);
        let d = displacement as u32;
        let new_sp = sp.wrapping_add(d);
        assert(sp == wrap_add(old(self).addr_regs[7], 4));
        assert(new_sp == wrap_add(sp, d));
        self.addr_regs[7] = new_sp;
        self.pc = return_addr as usize;
        assert(self@ =~= old(self)@.with_a(7, new_sp).with_pc(return_addr as usize));
        Ok(())
    }

    /// ORI to CCR.
    pub fn exec_ori_to_ccr(&mut self, imm: u8)
        ensures
            final(self)@ == old(self)@.with_sr(ori_to_ccr_sr(old(self).sr, imm)),
    {
        self.sr = self.sr | imm as u16;
    }

    /// EORI to CCR.
    pub fn exec_eori_to_ccr(&mut self, imm: u8)
        ensures
            final(self)@ == old(self)@.with_sr(eori_to_ccr_sr(old(self).sr, imm)),
    {
        self.sr = self.sr ^ imm as u16;
    }

    /// MOVE to CCR: source word to the low byte of SR.
    pub fn exec_move_to_ccr(&mut self, inst: &Instruction, src: &AddressingMode) -> (r: Result<(), CpuError>)
        ensures
            outcome(r, final(self)@, move_to_ccr_spec(old(self)@, inst.address, *src)),
            r is Err ==> crate::cpu::only_addr_regs_moved(old(self)@, final(self)@),
    {
        let value = self.read_operand(src, Size::Word, inst.address)?;
        self.sr = (self.sr & 0xff00) | ((value as u16) & 0xff);
        Ok(())
    }
}

} // verus!
