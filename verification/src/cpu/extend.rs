//! Multi-precision arithmetic: ADDX, SUBX and the decimal ABCD and SBCD, which
//! take the extend bit in and give it out again.

use vstd::prelude::*;

use crate::alu::{
    add_bcd, add_bcd_spec, addr_reg_index, areg, bytes_of, data_reg_index, dreg, lemma_merge_byte,
    merge_sized, size_mask, size_to_bytes, sized, sub_bcd, sub_bcd_spec, write_sized_data_reg,
};
use crate::cpu::flags::{addx_sr, addx_value, addx_with_flags, subx_sr, subx_value, subx_with_flags};
use crate::cpu::operand::{read_sized_spec, wrap_sub, write_sized_spec};
use crate::cpu::{flag, outcome, with_flag, Cpu, CpuModel, FLAG_C, FLAG_X, FLAG_Z};
use crate::decoder::{Abcd, Addx, Sbcd, Subx};
use crate::error::CpuError;
use crate::memory::{mem_read, mem_write};

verus! {

/// The extend bit as a number.
pub open spec fn x_value(sr: u16) -> u32 {
    if flag(sr, FLAG_X) {
        1
    } else {
        0
    }
}

/// ADDX: `dst + src + X`, register to register or `-(Ay)` to `-(Ax)`.
pub open spec fn addx_spec(m: CpuModel, addx: Addx) -> Result<CpuModel, CpuError> {
    let x = x_value(m.sr);
    match addx {
        Addx::Dn(op) => {
            let s = sized(m.d[dreg(op.src)], op.size);
            let i = dreg(op.dst);
            let d = sized(m.d[i], op.size);
            Ok(m.with_sr(addx_sr(m.sr, s, d, x, op.size)).with_d(i, merge_sized(m.d[i], addx_value(s, d, x, op.size), op.size)))
        },
        Addx::PreDec(op) => {
            let si = areg(op.src);
            let di = areg(op.dst);
            let m1 = m.with_a(si, wrap_sub(m.a[si], bytes_of(op.size)));
            let m2 = m1.with_a(di, wrap_sub(m1.a[di], bytes_of(op.size)));
            match read_sized_spec(m2.mem, m2.a[si] as usize, op.size) {
                Err(e) => Err(e),
                Ok(s) => match read_sized_spec(m2.mem, m2.a[di] as usize, op.size) {
                    Err(e) => Err(e),
                    Ok(d) => match write_sized_spec(m2.mem, m2.a[di] as usize, op.size, addx_value(s, d, x, op.size)) {
                        Err(e) => Err(e),
                        Ok(mem) => Ok(m2.with_sr(addx_sr(m2.sr, s, d, x, op.size)).with_mem(mem)),
                    },
                },
            }
        },
    }
}

/// SUBX: `dst - src - X`, register to register or `-(Ay)` from `-(Ax)`.
pub open spec fn subx_spec(m: CpuModel, subx: Subx) -> Result<CpuModel, CpuError> {
    let x = x_value(m.sr);
    match subx {
        Subx::Dn(op) => {
            let s = sized(m.d[dreg(op.src)], op.size);
            let i = dreg(op.dst);
            let d = sized(m.d[i], op.size);
            Ok(m.with_sr(subx_sr(m.sr, d, s, x, op.size)).with_d(i, merge_sized(m.d[i], subx_value(d, s, x, op.size), op.size)))
        },
        Subx::PreDec(op) => {
            let si = areg(op.src);
            let di = areg(op.dst);
            let m1 = m.with_a(si, wrap_sub(m.a[si], bytes_of(op.size)));
            let m2 = m1.with_a(di, wrap_sub(m1.a[di], bytes_of(op.size)));
            match read_sized_spec(m2.mem, m2.a[si] as usize, op.size) {
                Err(e) => Err(e),
                Ok(s) => match read_sized_spec(m2.mem, m2.a[di] as usize, op.size) {
                    Err(e) => Err(e),
                    Ok(d) => match write_sized_spec(m2.mem, m2.a[di] as usize, op.size, subx_value(d, s, x, op.size)) {
                        Err(e) => Err(e),
                        Ok(mem) => Ok(m2.with_sr(subx_sr(m2.sr, d, s, x, op.size)).with_mem(mem)),
                    },
                },
            }
        },
    }
}

/// Status register after ABCD/SBCD: Z cleared by a non-zero result and otherwise
/// kept, C and X = the decimal carry or borrow.
pub open spec fn bcd_sr(sr: u16, result: u8, carry: bool) -> u16 {
    let sr1 = if result != 0 { with_flag(sr, FLAG_Z, false) } else { sr };
    with_flag(with_flag(sr1, FLAG_C, carry), FLAG_X, carry)
}

/// The byte at `addr`.
pub open spec fn byte_at(mem: Seq<crate::memory::SegmentView>, addr: usize) -> Result<u8, CpuError> {
    match mem_read(mem, addr as int, 1) {
        Some(b) => Ok(b[0]),
        None => Err(CpuError::MemoryFault { addr, len: 1 }),
    }
}

/// ABCD/SBCD in memory: decrement both address registers, read both bytes, write
/// `op(src, dst)` at the destination.
pub open spec fn bcd_predec_spec(m: CpuModel, src: int, dst: int, sub: bool) -> Result<CpuModel, CpuError> {
    let x: u8 = if flag(m.sr, FLAG_X) { 1 } else { 0 };
    let m1 = m.with_a(src, wrap_sub(m.a[src], 1));
    let m2 = m1.with_a(dst, wrap_sub(m1.a[dst], 1));
    match byte_at(m2.mem, m2.a[src] as usize) {
        Err(e) => Err(e),
        Ok(s) => match byte_at(m2.mem, m2.a[dst] as usize) {
            Err(e) => Err(e),
            Ok(d) => {
                let (result, carry) = if sub { sub_bcd_spec(d, s, x) } else { add_bcd_spec(s, d, x) };
                match mem_write(m2.mem, m2.a[dst] as usize as int, seq![result]) {
                    None => Err(CpuError::MemoryFault { addr: m2.a[dst] as usize, len: 1 }),
                    Some(mem) => Ok(m2.with_mem(mem).with_sr(bcd_sr(m2.sr, result, carry))),
                }
            },
        },
    }
}

/// ABCD: decimal `dst + src + X` of the low bytes.
pub open spec fn abcd_spec(m: CpuModel, abcd: Abcd) -> Result<CpuModel, CpuError> {
    match abcd {
        Abcd::Dn { src, dst } => {
            let x: u8 = if flag(m.sr, FLAG_X) { 1 } else { 0 };
            let i = dreg(dst);
            let (result, carry) = add_bcd_spec(m.d[dreg(src)] as u8, m.d[i] as u8, x);
            Ok(m.with_d(i, merge_sized(m.d[i], result as u32, crate::decoder::Size::Byte)).with_sr(bcd_sr(m.sr, result, carry)))
        },
        Abcd::PreDec { src, dst } => bcd_predec_spec(m, areg(src), areg(dst), false),
    }
}

/// SBCD: decimal `dst - src - X` of the low bytes.
pub open spec fn sbcd_spec(m: CpuModel, sbcd: Sbcd) -> Result<CpuModel, CpuError> {
    match sbcd {
        Sbcd::Dn { src, dst } => {
            let x: u8 = if flag(m.sr, FLAG_X) { 1 } else { 0 };
            let i = dreg(dst);
            let (result, borrow) = sub_bcd_spec(m.d[i] as u8, m.d[dreg(src)] as u8, x);
            Ok(m.with_d(i, merge_sized(m.d[i], result as u32, crate::decoder::Size::Byte)).with_sr(bcd_sr(m.sr, result, borrow)))
        },
        Sbcd::PreDec { src, dst } => bcd_predec_spec(m, areg(src), areg(dst), true),
    }
}

impl Cpu {
    // ADDX - Add with Extend
    pub fn exec_addx(&mut self, addx: Addx) -> (r: Result<(), CpuError>)
        ensures
            outcome(r, final(self)@, addx_spec(old(self)@, addx)),
    {
        let x = if self.get_flag(FLAG_X) {
            1u32
        } else {
            0u32
        };
        match addx {
            Addx::Dn(dn) => {
                let src_idx = data_reg_index(dn.src);
                let dst_idx = data_reg_index(dn.dst);
                let src = size_mask(self.data_regs[src_idx], dn.size);
                let dst = size_mask(self.data_regs[dst_idx], dn.size);
                let result = addx_with_flags(src, dst, x, dn.size, self);
                self.data_regs[dst_idx] = write_sized_data_reg(self.data_regs[dst_idx], result, dn.size);
            },
            Addx::PreDec(predec) => {
                let size_bytes = size_to_bytes(predec.size);
                let src_idx = addr_reg_index(predec.src);
                let dst_idx = addr_reg_index(predec.dst);
                self.addr_regs[src_idx] = self.addr_regs[src_idx].wrapping_sub(size_bytes);
                self.addr_regs[dst_idx] = self.addr_regs[dst_idx].wrapping_sub(size_bytes);
                let src = self.read_mem(self.addr_regs[src_idx] as usize, predec.size)?;
                let dst = self.read_mem(self.addr_regs[dst_idx] as usize, predec.size)?;
                let result = addx_with_flags(src, dst, x, predec.size, self);
                self.write_mem(self.addr_regs[dst_idx] as usize, predec.size, result)?;
            },
        }
        Ok(())
    }

    // SUBX - Subtract with Extend
    pub fn exec_subx(&mut self, subx: Subx) -> (r: Result<(), CpuError>)
        ensures
            outcome(r, final(self)@, subx_spec(old(self)@, subx)),
            r is Err ==> crate::cpu::only_addr_regs_moved(old(self)@, final(self)@),
    {
        let x = if self.get_flag(FLAG_X) {
            1u32
        } else {
            0u32
        };
        match subx {
            Subx::Dn(dn) => {
                let src_idx = data_reg_index(dn.src);
                let dst_idx = data_reg_index(dn.dst);
                let src = size_mask(self.data_regs[src_idx], dn.size);
                let dst = size_mask(self.data_regs[dst_idx], dn.size);
                let result = subx_with_flags(dst, src, x, dn.size, self);
                self.data_regs[dst_idx] = write_sized_data_reg(self.data_regs[dst_idx], result, dn.size);
            },
            Subx::PreDec(predec) => {
                let size_bytes = size_to_bytes(predec.size);
                let src_idx = addr_reg_index(predec.src);
                let dst_idx = addr_reg_index(predec.dst);
                self.addr_regs[src_idx] = self.addr_regs[src_idx].wrapping_sub(size_bytes);
                self.addr_regs[dst_idx] = self.addr_regs[dst_idx].wrapping_sub(size_bytes);
                let src = self.read_mem(self.addr_regs[src_idx] as usize, predec.size)?;
                let dst = self.read_mem(self.addr_regs[dst_idx] as usize, predec.size)?;
                let result = subx_with_flags(dst, src, x, predec.size, self);
                self.write_mem(self.addr_regs[dst_idx] as usize, predec.size, result)?;
            },
        }
        Ok(())
    }

    // ABCD - Add BCD with Extend
    #[verifier::rlimit(40)]
    pub fn exec_abcd(&mut self, abcd: Abcd) -> (r: Result<(), CpuError>)
        ensures
            outcome(r, final(self)@, abcd_spec(old(self)@, abcd)),
            r is Err ==> crate::cpu::only_addr_regs_moved(old(self)@, final(self)@),
    {
        let x = if self.get_flag(FLAG_X) {
            1u8
        } else {
            0u8
        };
        match abcd {
            Abcd::Dn { src, dst } => {
                let src_idx = data_reg_index(src);
                let dst_idx = data_reg_index(dst);
                let src_val = self.data_regs[src_idx] as u8;
                let dst_val = self.data_regs[dst_idx] as u8;
                let (result, carry) = add_bcd(src_val, dst_val, x);
                proof {
                    lemma_merge_byte(self.data_regs[dst_idx as int], result);
                }
                self.data_regs[dst_idx] = (self.data_regs[dst_idx] & 0xFFFFFF00) | (result as u32);
                if result != 0 {
                    self.set_flag(FLAG_Z, false);
                }
                self.set_flag(FLAG_C, carry);
                self.set_flag(FLAG_X, carry);
            },
            Abcd::PreDec { src, dst } => {
                let src_idx = addr_reg_index(src);
                let dst_idx = addr_reg_index(dst);
                self.addr_regs[src_idx] = self.addr_regs[src_idx].wrapping_sub(1);
                self.addr_regs[dst_idx] = self.addr_regs[dst_idx].wrapping_sub(1);
                let src_val = self.memory.read_byte(self.addr_regs[src_idx] as usize)?;
                let dst_val = self.memory.read_byte(self.addr_regs[dst_idx] as usize)?;
                let (result, carry) = add_bcd(src_val, dst_val, x);
                let b = [result];
                assert(b@ =~= seq![result]);
                self.memory.write_data(self.addr_regs[dst_idx] as usize, &b)?;
                if result != 0 {
                    self.set_flag(FLAG_Z, false);
                }
                self.set_flag(FLAG_C, carry);
                self.set_flag(FLAG_X, carry);
            },
        }
        Ok(())
    }

    // SBCD - Subtract BCD with Extend
    #[verifier::rlimit(40)]
    pub fn exec_sbcd(&mut self, sbcd: Sbcd) -> (r: Result<(), CpuError>)
        ensures
            outcome(r, final(self)@, sbcd_spec(old(self)@, sbcd)),
            r is Err ==> crate::cpu::only_addr_regs_moved(old(self)@, final(self)@),
    {
        let x = if self.get_flag(FLAG_X) {
            1u8
        } else {
            0u8
        };
        match sbcd {
            Sbcd::Dn { src, dst } => {
                let src_idx = data_reg_index(src);
                let dst_idx = data_reg_index(dst);
                let src_val = self.data_regs[src_idx] as u8;
                let dst_val = self.data_regs[dst_idx] as u8;
                let (result, borrow) = sub_bcd(dst_val, src_val, x);
                proof {
                    lemma_merge_byte(self.data_regs[dst_idx as int], result);
                }
                self.data_regs[dst_idx] = (self.data_regs[dst_idx] & 0xFFFFFF00) | (result as u32);
                if result != 0 {
                    self.set_flag(FLAG_Z, false);
                }
                self.set_flag(FLAG_C, borrow);
                self.set_flag(FLAG_X, borrow);
            },
            Sbcd::PreDec { src, dst } => {
                let src_idx = addr_reg_index(src);
                let dst_idx = addr_reg_index(dst);
                self.addr_regs[src_idx] = self.addr_regs[src_idx].wrapping_sub(1);
                self.addr_regs[dst_idx] = self.addr_regs[dst_idx].wrapping_sub(1);
                let src_val = self.memory.read_byte(self.addr_regs[src_idx] as usize)?;
                let dst_val = self.memory.read_byte(self.addr_regs[dst_idx] as usize)?;
                let (result, borrow) = sub_bcd(dst_val, src_val, x);
                let b = [result];
                assert(b@ =~= seq![result]);
                self.memory.write_data(self.addr_regs[dst_idx] as usize, &b)?;
                if result != 0 {
                    self.set_flag(FLAG_Z, false);
                }
                self.set_flag(FLAG_C, borrow);
                self.set_flag(FLAG_X, borrow);
            },
        }
        Ok(())
    }
}

} // verus!
