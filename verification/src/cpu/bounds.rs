//! Bounds checks against a pair of bounds in memory: CMP2 and CHK2 (68020+).

use vstd::prelude::*;

use crate::alu::{addr_reg_index, areg, bytes_of, data_reg_index, dreg, sized, size_mask, size_to_bytes};
use crate::cpu::operand::{ea_spec, read_sized_spec};
use crate::cpu::{with_flag, Cpu, CpuModel, FLAG_C, FLAG_Z};
use crate::decoder::{AddressingMode, Instruction, Register, Size};
use crate::error::CpuError;

verus! {

/// The register a bounds check tests, reduced to the operation size.
pub open spec fn checked_value(m: CpuModel, reg: Register, size: Size) -> u32 {
    match reg {
        Register::Data(r) => sized(m.d[dreg(r)], size),
        Register::Address(r) => sized(m.a[areg(r)], size),
    }
}

/// The address of the upper bound fits the address range.
pub open spec fn bounds_in_range(m: CpuModel, inst_addr: usize, size: Size, mode: AddressingMode) -> bool {
    match ea_spec(m, mode, inst_addr) {
        Ok(addr) => addr + bytes_of(size) <= usize::MAX,
        Err(_) => true,
    }
}

/// The tested value with the lower bound at the effective address and the upper
/// bound right after it.
pub open spec fn bounds_spec(m: CpuModel, inst_addr: usize, size: Size, mode: AddressingMode, reg: Register) -> Result<
    (u32, u32, u32),
    CpuError,
> {
    match ea_spec(m, mode, inst_addr) {
        Err(e) => Err(e),
        Ok(addr) => match read_sized_spec(m.mem, addr, size) {
            Err(e) => Err(e),
            Ok(lower) => match read_sized_spec(m.mem, (addr + bytes_of(size)) as usize, size) {
                Err(e) => Err(e),
                Ok(upper) => Ok((checked_value(m, reg, size), lower, upper)),
            },
        },
    }
}

/// The value lies outside the bounds.
pub open spec fn out_of_bounds(v: (u32, u32, u32)) -> bool {
    v.0 < v.1 || v.0 > v.2
}

/// Condition codes of a bounds check: C where the value is out of bounds, Z where it
/// equals either bound; N and V kept.
pub open spec fn bounds_sr(sr: u16, v: (u32, u32, u32)) -> u16 {
    with_flag(with_flag(sr, FLAG_C, out_of_bounds(v)), FLAG_Z, v.0 == v.1 || v.0 == v.2)
}

/// CMP2: the condition codes of the bounds check.
pub open spec fn bounds_compare_spec(m: CpuModel, inst_addr: usize, size: Size, mode: AddressingMode, reg: Register) -> Result<
    CpuModel,
    CpuError,
> {
    match bounds_spec(m, inst_addr, size, mode, reg) {
        Err(e) => Err(e),
        Ok(v) => Ok(m.with_sr(bounds_sr(m.sr, v))),
    }
}

/// CHK2: the bounds check, failing where the value is out of bounds.
pub open spec fn bounds_check_spec(m: CpuModel, inst_addr: usize, size: Size, mode: AddressingMode, reg: Register) -> Result<
    CpuModel,
    CpuError,
> {
    match bounds_spec(m, inst_addr, size, mode, reg) {
        Err(e) => Err(e),
        Ok(v) => if out_of_bounds(v) {
            Err(CpuError::BoundsCheck)
        } else {
            Ok(m.with_sr(bounds_sr(m.sr, v)))
        },
    }
}

impl Cpu {
    /// Read the tested register and the two bounds.
    fn read_bounds(&mut self, inst_addr: usize, size: Size, mode: &AddressingMode, reg: Register) -> (r: Result<
        (u32, u32, u32),
        CpuError,
    >)
        requires
            bounds_in_range(old(self)@, inst_addr, size, *mode),
        ensures
            r == bounds_spec(old(self)@, inst_addr, size, *mode, reg),
            final(self)@ == old(self)@,
    {
        let reg_value = match reg {
            Register::Data(r) => self.data_regs[data_reg_index(r)],
            Register::Address(r) => self.addr_regs[addr_reg_index(r)],
        };
        let reg_value = size_mask(reg_value, size);
        let addr = self.compute_effective_address(mode, inst_addr)?;
        let lower_bound = self.read_mem(addr, size)?;
        let size_bytes = size_to_bytes(size) as usize;
        let upper_bound = self.read_mem(addr + size_bytes, size)?;
        Ok((reg_value, lower_bound, upper_bound))
    }

    /// Set C and Z from a bounds check; the result says whether the value is out of
    /// bounds.
    fn set_bounds_flags(&mut self, v: (u32, u32, u32)) -> (r: bool)
        ensures
            r == out_of_bounds(v),
            final(self)@ == old(self)@.with_sr(bounds_sr(old(self).sr, v)),
    {
        let (reg_value, lower_bound, upper_bound) = v;
        let out = reg_value < lower_bound || reg_value > upper_bound;
        let at_boundary = reg_value == lower_bound || reg_value == upper_bound;
        self.set_flag(FLAG_C, out);
        self.set_flag(FLAG_Z, at_boundary);
        out
    }

    /// CMP2 - Compare Register Against Bounds (68020+)
    pub fn exec_cmp2(&mut self, inst: &Instruction, size: Size, mode: &AddressingMode, reg: Register) -> (r: Result<
        (),
        CpuError,
    >)
        requires
            bounds_in_range(old(self)@, inst.address, size, *mode),
        ensures
            crate::cpu::outcome(r, final(self)@, bounds_compare_spec(old(self)@, inst.address, size, *mode, reg)),
            r is Err ==> crate::cpu::only_addr_regs_moved(old(self)@, final(self)@),
    {
        let v = self.read_bounds(inst.address, size, mode, reg)?;
        self.set_bounds_flags(v);
        Ok(())
    }

    /// CHK2 - Check Register Against Bounds (68020+)
    pub fn exec_chk2(&mut self, inst: &Instruction, size: Size, mode: &AddressingMode, reg: Register) -> (r: Result<
        (),
        CpuError,
    >)
        requires
            bounds_in_range(old(self)@, inst.address, size, *mode),
        ensures
            crate::cpu::outcome(r, final(self)@, bounds_check_spec(old(self)@, inst.address, size, *mode, reg)),
            match bounds_spec(old(self)@, inst.address, size, *mode, reg) {
                Ok(v) => final(self)@ == old(self)@.with_sr(bounds_sr(old(self).sr, v)),
                Err(_) => final(self)@ == old(self)@,
            },
    {
        let v = self.read_bounds(inst.address, size, mode, reg)?;
        if self.set_bounds_flags(v) {
            return Err(CpuError::BoundsCheck);
        }
        Ok(())
    }
}

} // verus!
