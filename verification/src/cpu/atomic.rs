//! Compare-and-swap: CAS on one operand and CAS2 on two (68020+).

use vstd::prelude::*;

use crate::alu::{areg, data_reg_index, addr_reg_index, dreg, lemma_masks, merge_sized, msb, sized, write_sized_data_reg, SizeInfo};
use crate::cpu::flags::{lemma_sized_idem, lemma_wrap_mod, sub_overflow, sub_value};
use crate::cpu::operand::{ea_spec, read_sized_spec, write_sized_spec};
use crate::cpu::{with_flag, Cpu, CpuModel, FLAG_C, FLAG_N, FLAG_V, FLAG_Z};
use crate::decoder::{AddrReg, AddressingMode, DataReg, Instruction, Size};
use crate::error::CpuError;

verus! {

/// Condition codes of a compare-and-swap, as for a compare of the operand with the
/// expected value: N from their difference, V where that difference overflows as a
/// signed number, C where the operand is below the expected value; Z as given.
pub open spec fn cas_sr(sr: u16, operand: u32, expected: u32, size: Size, z: bool) -> u16 {
    let d = sub_value(operand, expected, size);
    with_flag(
        with_flag(
            with_flag(with_flag(sr, FLAG_N, msb(d, size)), FLAG_Z, z),
            FLAG_V,
            sub_overflow(operand, expected, size),
        ),
        FLAG_C,
        operand < expected,
    )
}

/// CAS: where the operand equals Dc, Du is stored in its place; otherwise the operand
/// is loaded into Dc.
pub open spec fn cas_spec(m: CpuModel, inst_addr: usize, size: Size, dc: DataReg, du: DataReg, mode: AddressingMode) -> Result<
    CpuModel,
    CpuError,
> {
    match ea_spec(m, mode, inst_addr) {
        Err(e) => Err(e),
        Ok(addr) => match read_sized_spec(m.mem, addr, size) {
            Err(e) => Err(e),
            Ok(operand) => {
                let expected = sized(m.d[dreg(dc)], size);
                let m1 = m.with_sr(cas_sr(m.sr, operand, expected, size, operand == expected));
                if operand == expected {
                    match write_sized_spec(m1.mem, addr, size, sized(m.d[dreg(du)], size)) {
                        Ok(mem) => Ok(m1.with_mem(mem)),
                        Err(e) => Err(e),
                    }
                } else {
                    Ok(m1.with_d(dreg(dc), merge_sized(m.d[dreg(dc)], operand, size)))
                }
            },
        },
    }
}

/// CAS2: where both operands equal Dc1 and Dc2, Du1 and Du2 are stored in their
/// places; otherwise both operands are loaded into Dc1 and Dc2.
pub open spec fn cas2_spec(
    m: CpuModel,
    size: Size,
    dc1: DataReg,
    dc2: DataReg,
    du1: DataReg,
    du2: DataReg,
    rn1: AddrReg,
    rn2: AddrReg,
) -> Result<CpuModel, CpuError> {
    let addr1 = m.a[areg(rn1)] as usize;
    let addr2 = m.a[areg(rn2)] as usize;
    match read_sized_spec(m.mem, addr1, size) {
        Err(e) => Err(e),
        Ok(op1) => match read_sized_spec(m.mem, addr2, size) {
            Err(e) => Err(e),
            Ok(op2) => {
                let e1 = sized(m.d[dreg(dc1)], size);
                let e2 = sized(m.d[dreg(dc2)], size);
                let both = op1 == e1 && op2 == e2;
                let m1 = m.with_sr(cas_sr(m.sr, op1, e1, size, both));
                if both {
                    cas2_store(m1, addr1, addr2, size, sized(m.d[dreg(du1)], size), sized(m.d[dreg(du2)], size))
                } else {
                    Ok(cas2_load(m1, dc1, dc2, op1, op2, size))
                }
            },
        },
    }
}

/// Both new values stored, the first before the second.
pub open spec fn cas2_store(m: CpuModel, addr1: usize, addr2: usize, size: Size, v1: u32, v2: u32) -> Result<
    CpuModel,
    CpuError,
> {
    match write_sized_spec(m.mem, addr1, size, v1) {
        Err(e) => Err(e),
        Ok(mem1) => match write_sized_spec(mem1, addr2, size, v2) {
            Err(e) => Err(e),
            Ok(mem2) => Ok(m.with_mem(mem2)),
        },
    }
}

/// Both operands loaded into the compare registers, the first before the second.
pub open spec fn cas2_load(m: CpuModel, dc1: DataReg, dc2: DataReg, op1: u32, op2: u32, size: Size) -> CpuModel {
    let m2 = m.with_d(dreg(dc1), merge_sized(m.d[dreg(dc1)], op1, size));
    m2.with_d(dreg(dc2), merge_sized(m2.d[dreg(dc2)], op2, size))
}

/// A value read at a size is already reduced to that size.
proof fn lemma_read_sized(mem: Seq<crate::memory::SegmentView>, addr: usize, size: Size)
    ensures
        read_sized_spec(mem, addr, size) matches Ok(v) ==> sized(v, size) == v,
{
    match read_sized_spec(mem, addr, size) {
        Ok(v) => {
            match size {
                Size::Byte => {},
                Size::Word => {
                    let b = crate::memory::mem_read(mem, addr as int, 2)->Some_0;
                    assert(crate::memory::be_u16(b) < 0x1_0000);
                },
                Size::Long => {},
            }
        },
        Err(_) => {},
    }
}

impl Cpu {
    /// Set the condition codes of a compare-and-swap.
    fn set_cas_flags(&mut self, operand: u32, expected: u32, size: Size, z: bool)
        requires
            sized(operand, size) == operand,
            sized(expected, size) == expected,
        ensures
            final(self)@ == old(self)@.with_sr(cas_sr(old(self).sr, operand, expected, size, z)),
    {
        let si = SizeInfo::new(size);
        proof {
            lemma_wrap_mod(operand - expected, size);
            lemma_masks(operand.wrapping_sub(expected));
        }
        let result = si.apply(operand.wrapping_sub(expected));
        proof {
            lemma_sized_idem(result, size);
        }
        let v = (si.is_negative(expected) != si.is_negative(operand)) && (si.is_negative(result)
            != si.is_negative(operand));
        self.set_flag(FLAG_N, si.is_negative(result));
        self.set_flag(FLAG_Z, z);
        self.set_flag(FLAG_V, v);
        self.set_flag(FLAG_C, operand < expected);
    }

    /// CAS - Compare and Swap (68020+)
    pub fn exec_cas(&mut self, inst: &Instruction, size: Size, dc: DataReg, du: DataReg, mode: &AddressingMode) -> (r:
        Result<(), CpuError>)
        ensures
            crate::cpu::outcome(r, final(self)@, cas_spec(old(self)@, inst.address, size, dc, du, *mode)),
            r is Err ==> crate::cpu::only_addr_regs_moved(old(self)@, final(self)@),
    {
        let addr = self.compute_effective_address(mode, inst.address)?;
        proof {
            lemma_read_sized(self@.mem, addr, size);
        }
        let operand = self.read_mem(addr, size)?;
        let dc_idx = data_reg_index(dc);
        let si = SizeInfo::new(size);
        let expected = si.apply(self.data_regs[dc_idx]);
        proof {
            lemma_sized_idem(self.data_regs[dc_idx as int], size);
        }
        self.set_cas_flags(operand, expected, size, operand == expected);
        if operand == expected {
            let du_idx = data_reg_index(du);
            let update_val = si.apply(self.data_regs[du_idx]);
            self.write_mem(addr, size, update_val)?;
        } else {
            self.data_regs[dc_idx] = write_sized_data_reg(self.data_regs[dc_idx], operand, size);
        }
        Ok(())
    }

    /// CAS2 - Compare and Swap 2 (68020+)
    #[verifier::rlimit(60)]
    pub fn exec_cas2(
        &mut self,
        size: Size,
        dc1: DataReg,
        dc2: DataReg,
        du1: DataReg,
        du2: DataReg,
        rn1: AddrReg,
        rn2: AddrReg,
    ) -> (r: Result<(), CpuError>)
        ensures
            crate::cpu::outcome(r, final(self)@, cas2_spec(old(self)@, size, dc1, dc2, du1, du2, rn1, rn2)),
    {
        let addr1 = self.addr_regs[addr_reg_index(rn1)] as usize;
        let addr2 = self.addr_regs[addr_reg_index(rn2)] as usize;
        proof {
            lemma_read_sized(self@.mem, addr1, size);
            lemma_read_sized(self@.mem, addr2, size);
        }
        let operand1 = self.read_mem(addr1, size)?;
        let operand2 = self.read_mem(addr2, size)?;
        let dc1_idx = data_reg_index(dc1);
        let dc2_idx = data_reg_index(dc2);
        let si = SizeInfo::new(size);
        let expected1 = si.apply(self.data_regs[dc1_idx]);
        let expected2 = si.apply(self.data_regs[dc2_idx]);
        proof {
            lemma_sized_idem(self.data_regs[dc1_idx as int], size);
        }
        let match1 = operand1 == expected1;
        let match2 = operand2 == expected2;
        self.set_cas_flags(operand1, expected1, size, match1 && match2);
        if match1 && match2 {
            let update_val1 = si.apply(self.data_regs[data_reg_index(du1)]);
            let update_val2 = si.apply(self.data_regs[data_reg_index(du2)]);
            self.store_pair(addr1, addr2, size, update_val1, update_val2)
        } else {
            self.data_regs[dc1_idx] = write_sized_data_reg(self.data_regs[dc1_idx], operand1, size);
            self.data_regs[dc2_idx] = write_sized_data_reg(self.data_regs[dc2_idx], operand2, size);
            Ok(())
        }
    }

    /// Store two values, the first before the second.
    fn store_pair(&mut self, addr1: usize, addr2: usize, size: Size, v1: u32, v2: u32) -> (r: Result<(), CpuError>)
        ensures
            crate::cpu::outcome(r, final(self)@, cas2_store(old(self)@, addr1, addr2, size, v1, v2)),
    {
        self.write_mem(addr1, size, v1)?;
        self.write_mem(addr2, size, v2)?;
        Ok(())
    }
}

} // verus!
