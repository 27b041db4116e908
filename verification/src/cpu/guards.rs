//! Executable tests of the preconditions of `execute`: a caller that cannot prove
//! `step_ok` asks here before it runs an instruction.

use vstd::prelude::*;

use crate::alu::size_to_bytes;
use crate::cpu::bitfield::{bf_access_ok, bf_mem_in_range, bf_width_of};
use crate::cpu::bounds::bounds_in_range;
use crate::cpu::control::{link_in_range, link_sp, relative_in_range};
use crate::cpu::execute::step_ok;
use crate::cpu::operand::{sized_bytes, wrap_sub};
use crate::cpu::setup::ensure_tls_ok;
use crate::cpu::syscall::{brk_ok, read_longs, read_longs_ok, syscall_class, syscall_ok, SyscallClass};
use crate::cpu::{align_up, Cpu, CpuModel, TLS_DATA_PAD};
use crate::decoder::{AddrReg, AddressingMode, BitFieldParam, EffectiveAddress, Instruction, InstructionKind, Size};
use crate::memory::lemma_find_base_from;

verus! {

/// Every bit-field width the instruction names is at most 32. The decoder gives
/// immediate widths five bits, so this holds of everything it produces.
pub open spec fn bf_widths_fit(m: CpuModel, inst: Instruction) -> bool {
    match inst.kind {
        InstructionKind::Bftst { mode, offset, width } => bf_width_of(m, width) <= 32,
        InstructionKind::Bfchg { mode, offset, width } => bf_width_of(m, width) <= 32,
        InstructionKind::Bfclr { mode, offset, width } => bf_width_of(m, width) <= 32,
        InstructionKind::Bfset { mode, offset, width } => bf_width_of(m, width) <= 32,
        InstructionKind::Bfextu { src, dst, offset, width } => bf_width_of(m, width) <= 32,
        InstructionKind::Bfexts { src, dst, offset, width } => bf_width_of(m, width) <= 32,
        InstructionKind::Bfffo { src, dst, offset, width } => bf_width_of(m, width) <= 32,
        InstructionKind::Bfins { src, dst, offset, width } => bf_width_of(m, width) <= 32,
        _ => true,
    }
}

/// Whether a PC-relative target can be computed.
fn relative_fits(addr: usize, disp: i32) -> (r: bool)
    ensures
        r == relative_in_range(addr, disp as int),
{
    let base = addr as i64 as i128;
    let target = base + 2 + disp as i128;
    base + 2 <= i64::MAX as i128 && i64::MIN as i128 <= target && target <= i64::MAX as i128
}

/// Whether the bit arithmetic of a memory bit field stays in range.
fn bf_mem_fits(base: u32, offset: i32, width: u32) -> (r: bool)
    ensures
        r == bf_mem_in_range(base, offset, width),
{
    let a: i64 = base as i64 * 8 + offset as i64;
    if a >= 0 {
        let q: u64 = (a as u64) / 8;
        (q as u128) + 5 <= usize::MAX as u128
    } else {
        true
    }
}

/// The width a bit-field parameter names, 0 standing for 32.
fn width_of(cpu: &Cpu, width: BitFieldParam) -> (r: u32)
    ensures
        r == bf_width_of(cpu@, width),
{
    match width {
        BitFieldParam::Immediate(v) => if v == 0 {
            32
        } else {
            v as u32
        },
        BitFieldParam::Register(reg) => {
            let w = cpu.data_regs[crate::alu::data_reg_index(reg)] & 0x1f;
            if w == 0 {
                32
            } else {
                w
            }
        },
    }
}

/// Whether a bit-field operand's memory arithmetic stays in range and its width is at
/// most 32.
fn bf_fits(cpu: &Cpu, inst_addr: usize, mode: &AddressingMode, offset: BitFieldParam, width: BitFieldParam) -> (r:
    bool)
    ensures
        r == (bf_access_ok(cpu@, inst_addr, *mode, offset, width) && bf_width_of(cpu@, width) <= 32),
{
    let w = width_of(cpu, width);
    if w > 32 {
        return false;
    }
    match mode.ea {
        EffectiveAddress::Dr(_) => true,
        _ => match cpu.compute_effective_address(mode, inst_addr) {
            Ok(addr) => {
                let off = match offset {
                    BitFieldParam::Immediate(v) => v as i32,
                    BitFieldParam::Register(reg) => cpu.data_regs[crate::alu::data_reg_index(reg)] as i32,
                };
                bf_mem_fits(addr as u32, off, w)
            },
            Err(_) => true,
        },
    }
}

/// Whether the two bounds of CMP2/CHK2 can be addressed.
fn bounds_fit(cpu: &Cpu, inst_addr: usize, size: Size, mode: &AddressingMode) -> (r: bool)
    ensures
        r == bounds_in_range(cpu@, inst_addr, size, *mode),
{
    match cpu.compute_effective_address(mode, inst_addr) {
        Ok(addr) => addr.checked_add(size_to_bytes(size) as usize).is_some(),
        Err(_) => true,
    }
}

/// Whether LINK keeps the stack pointer in the signed 32-bit range.
fn link_fits(cpu: &Cpu, addr_reg: AddrReg, disp: i16) -> (r: bool)
    ensures
        r == link_in_range(cpu@, addr_reg, disp),
{
    let sp = cpu.addr_regs[7].wrapping_sub(4);
    proof {
        assert(sp == wrap_sub(cpu@.a[7], 4));
        let v = cpu@.a[crate::alu::areg(addr_reg)];
        assert(sized_bytes(v, Size::Long).len() == 4);
    }
    if cpu.memory.covers_range(sp as usize, 4) {
        let new_sp = sp as i32 as i64 + disp as i64;
        proof {
            assert(new_sp == link_sp(sp, disp));
        }
        i32::MIN as i64 <= new_sp && new_sp <= i32::MAX as i64
    } else {
        true
    }
}

/// Whether the program break arithmetic of brk stays in range.
fn brk_fits(cpu: &Cpu) -> (r: bool)
    ensures
        r == brk_ok(cpu@),
{
    let req = cpu.data_regs[1] as usize;
    if req == 0 {
        return true;
    }
    let target = if req < cpu.brk_base {
        cpu.brk_base
    } else {
        req
    };
    if target.checked_add(4096).is_none() || cpu.brk.checked_add(4096).is_none() {
        return false;
    }
    let aligned = align_up(target, 0x1000);
    aligned.checked_add(0x1000).is_some()
}

/// Whether the TLS area above `tp` can be measured against the heap and the stack.
fn tls_fits(cpu: &Cpu, tp: usize) -> (r: bool)
    ensures
        r == ensure_tls_ok(cpu@, tp),
{
    match cpu.memory.find_segment_by_base(cpu.heap_segment_base) {
        None => true,
        Some(i) => {
            proof {
                lemma_find_base_from(cpu@.mem, cpu.heap_segment_base as int, 0);
                assert(cpu@.mem[i as int] == cpu.memory.segments@[i as int]@);
            }
            let len = cpu.memory.segments[i].len();
            match cpu.heap_segment_base.checked_add(len) {
                None => false,
                Some(heap_end) => match tp.checked_add(TLS_DATA_PAD) {
                    None => true,
                    Some(end) => end <= heap_end || end.checked_add(0x1000).is_some(),
                },
            }
        },
    }
}

impl Cpu {
    /// Whether `handle_syscall` may be called in this state: it says `syscall_ok`
    /// wherever it returns true, and on a 64-bit host it returns true wherever
    /// `syscall_ok` holds.
    pub fn syscall_allowed(&self) -> (r: bool)
        ensures
            r ==> syscall_ok(self@),
            syscall_ok(self@) && usize::MAX == u64::MAX ==> r,
    {
        let n = self.data_regs[0];
        match syscall_class(n) {
            SyscallClass::Internal => {
                let d1 = self.data_regs[1] as usize;
                let d2 = self.data_regs[2] as usize;
                if n == 45 {
                    brk_fits(self)
                } else if n == 90 {
                    // The six longs of the argument block, and a length read from it
                    // rounded up to pages, stay in the address range.
                    let ok = d1.checked_add(24).is_some() && (0xFFFF_FFFFu64 + 4095) as u128 <= usize::MAX as u128;
                    proof {
                        if ok {
                            assert forall|i: nat| i < 6 && (#[trigger] read_longs(self@.mem, d1, i)) is Ok implies d1 + 4
                                * i <= usize::MAX by {}
                            assert(read_longs_ok(self@.mem, d1, 6));
                        }
                    }
                    ok
                } else if n == 125 || n == 381 {
                    d2 <= 1 || d1.checked_add(d2).is_some()
                } else if n == 192 {
                    d2.checked_add(4095).is_some()
                } else if n == 237 {
                    d2.checked_add(4096).is_some()
                } else if n == 334 {
                    tls_fits(self, d1)
                } else {
                    true
                }
            },
            _ => true,
        }
    }

    /// Whether `execute` may be called on this instruction in this state: it says
    /// `step_ok` wherever it returns true, and returns true wherever `step_ok` holds
    /// and the bit-field widths fit (always, for decoded instructions).
    pub fn step_allowed(&self, inst: &Instruction) -> (r: bool)
        ensures
            r ==> step_ok(self@, *inst),
            step_ok(self@, *inst) && bf_widths_fit(self@, *inst) ==> r,
    {
        let a = inst.address;
        match inst.kind {
            InstructionKind::Bra { displacement } => relative_fits(a, displacement),
            InstructionKind::Bcc { condition, displacement } => relative_fits(a, displacement),
            InstructionKind::DBcc { condition, data_reg, displacement } => relative_fits(a, displacement as i32),
            InstructionKind::Jsr { mode } => a.checked_add(inst.len()).is_some(),
            InstructionKind::Bsr { displacement } => a.checked_add(inst.len()).is_some() && relative_fits(
                a,
                displacement,
            ),
            InstructionKind::Link { addr_reg, displacement } => link_fits(self, addr_reg, displacement),
            InstructionKind::Cmp2 { size, mode, reg } => bounds_fit(self, a, size, &mode),
            InstructionKind::Chk2 { size, mode, reg } => bounds_fit(self, a, size, &mode),
            InstructionKind::Bftst { mode, offset, width } => bf_fits(self, a, &mode, offset, width),
            InstructionKind::Bfchg { mode, offset, width } => bf_fits(self, a, &mode, offset, width),
            InstructionKind::Bfclr { mode, offset, width } => bf_fits(self, a, &mode, offset, width),
            InstructionKind::Bfset { mode, offset, width } => bf_fits(self, a, &mode, offset, width),
            InstructionKind::Bfextu { src, dst, offset, width } => bf_fits(self, a, &src, offset, width),
            InstructionKind::Bfexts { src, dst, offset, width } => bf_fits(self, a, &src, offset, width),
            InstructionKind::Bfffo { src, dst, offset, width } => bf_fits(self, a, &src, offset, width),
            InstructionKind::Bfins { src, dst, offset, width } => bf_fits(self, a, &dst, offset, width),
            _ => true,
        }
    }
}

} // verus!
