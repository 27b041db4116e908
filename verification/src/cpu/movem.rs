//! MOVEM: moving a set of registers to or from consecutive memory.

use vstd::prelude::*;

use crate::alu::{addr_reg_index, areg, sext_word, sign_extend_word};
use crate::cpu::operand::{ea_spec, read_sized_spec, write_sized_spec};
use crate::cpu::{Cpu, CpuModel};
use crate::decoder::{DataDir, EffectiveAddress, Instruction, Movem, Size};
use crate::error::CpuError;

verus! {

/// MOVEM moves words for a word-sized instruction and longs otherwise.
pub open spec fn movem_unit(size: Size) -> Size {
    if size == Size::Word {
        Size::Word
    } else {
        Size::Long
    }
}

/// The bytes one register takes in memory.
pub open spec fn unit_bytes(size: Size) -> usize {
    if size == Size::Word {
        2
    } else {
        4
    }
}

/// Bit `bit` of the register mask is set.
pub open spec fn mask_bit(mask: u16, bit: int) -> bool {
    mask & (1u16 << (bit as u16)) != 0
}

/// Register `n` in the order D0..D7, A0..A7.
pub open spec fn reg_value(m: CpuModel, n: int) -> u32 {
    if n < 8 {
        m.d[n]
    } else {
        m.a[n - 8]
    }
}

/// The state and address after the first `k` bits of the mask are stored. With
/// predecrement the mask runs from A7 (bit 0) down to D0 (bit 15) and each register
/// goes below the previous one; otherwise it runs from D0 (bit 0) to A7 (bit 15)
/// upwards.
pub open spec fn store_regs(m: CpuModel, addr: usize, size: Size, mask: u16, predec: bool, k: nat) -> Result<
    (CpuModel, usize),
    CpuError,
>
    decreases k,
{
    if k == 0 {
        Ok((m, addr))
    } else {
        match store_regs(m, addr, size, mask, predec, (k - 1) as nat) {
            Err(e) => Err(e),
            Ok((m1, a1)) => {
                let bit = k - 1;
                if !mask_bit(mask, bit) {
                    Ok((m1, a1))
                } else if predec {
                    let a2 = a1.wrapping_sub(unit_bytes(size));
                    match write_sized_spec(m1.mem, a2, movem_unit(size), reg_value(m1, 15 - bit)) {
                        Ok(mem) => Ok((m1.with_mem(mem), a2)),
                        Err(e) => Err(e),
                    }
                } else {
                    match write_sized_spec(m1.mem, a1, movem_unit(size), reg_value(m1, bit)) {
                        Ok(mem) => Ok((m1.with_mem(mem), a1.wrapping_add(unit_bytes(size)))),
                        Err(e) => Err(e),
                    }
                }
            },
        }
    }
}

/// A loaded word is sign-extended to a long.
pub open spec fn loaded_value(v: u32, size: Size) -> u32 {
    if size == Size::Word {
        sext_word(v)
    } else {
        v
    }
}

/// The state and address after the registers of the first `k` bits of the mask
/// (D0 at bit 0 up to A7 at bit 15) are loaded from consecutive memory.
pub open spec fn load_regs(m: CpuModel, addr: usize, size: Size, mask: u16, k: nat) -> Result<(CpuModel, usize), CpuError>
    decreases k,
{
    if k == 0 {
        Ok((m, addr))
    } else {
        match load_regs(m, addr, size, mask, (k - 1) as nat) {
            Err(e) => Err(e),
            Ok((m1, a1)) => {
                let bit = k - 1;
                if !mask_bit(mask, bit) {
                    Ok((m1, a1))
                } else {
                    match read_sized_spec(m1.mem, a1, movem_unit(size)) {
                        Err(e) => Err(e),
                        Ok(v) => {
                            let val = loaded_value(v, size);
                            let m2 = if bit < 8 {
                                m1.with_d(bit, val)
                            } else {
                                m1.with_a(bit - 8, val)
                            };
                            Ok((m2, a1.wrapping_add(unit_bytes(size))))
                        },
                    }
                }
            },
        }
    }
}

/// MOVEM: registers to memory (predecrement storing downwards and updating An) or
/// memory to registers (postincrement updating An).
pub open spec fn movem_spec(m: CpuModel, inst_addr: usize, movem: Movem) -> Result<CpuModel, CpuError> {
    let predec = movem.mode.ea is AddrPreDecr;
    match ea_spec(m, movem.mode, inst_addr) {
        Err(e) => Err(e),
        Ok(addr) => match movem.direction {
            DataDir::RegToMem => match store_regs(m, addr, movem.size, movem.register_mask, predec, 16) {
                Err(e) => Err(e),
                Ok((m1, a1)) => Ok(
                    match movem.mode.ea {
                        EffectiveAddress::AddrPreDecr(ar) => m1.with_a(areg(ar), a1 as u32),
                        _ => m1,
                    },
                ),
            },
            DataDir::MemToReg => match load_regs(m, addr, movem.size, movem.register_mask, 16) {
                Err(e) => Err(e),
                Ok((m1, a1)) => Ok(
                    match movem.mode.ea {
                        EffectiveAddress::AddrPostIncr(ar) => m1.with_a(areg(ar), a1 as u32),
                        _ => m1,
                    },
                ),
            },
        },
    }
}

/// A failed store stays failed as more bits are processed.
proof fn lemma_store_err_extends(m: CpuModel, addr: usize, size: Size, mask: u16, predec: bool, k: nat, n: nat)
    requires
        k <= n,
        store_regs(m, addr, size, mask, predec, k) is Err,
    ensures
        store_regs(m, addr, size, mask, predec, n) == store_regs(m, addr, size, mask, predec, k),
    decreases n - k,
{
    if k < n {
        lemma_store_err_extends(m, addr, size, mask, predec, k, (n - 1) as nat);
    }
}

/// A failed load stays failed as more bits are processed.
proof fn lemma_load_err_extends(m: CpuModel, addr: usize, size: Size, mask: u16, k: nat, n: nat)
    requires
        k <= n,
        load_regs(m, addr, size, mask, k) is Err,
    ensures
        load_regs(m, addr, size, mask, n) == load_regs(m, addr, size, mask, k),
    decreases n - k,
{
    if k < n {
        lemma_load_err_extends(m, addr, size, mask, k, (n - 1) as nat);
    }
}

/// Storing only writes memory: the registers stay as they were.
proof fn lemma_store_keeps_regs(m: CpuModel, addr: usize, size: Size, mask: u16, predec: bool, k: nat)
    ensures
        store_regs(m, addr, size, mask, predec, k) matches Ok((m1, a1)) ==> m1.d == m.d && m1.a == m.a,
    decreases k,
{
    if k > 0 {
        lemma_store_keeps_regs(m, addr, size, mask, predec, (k - 1) as nat);
    }
}

impl Cpu {
    /// Store the registers of the mask, from `addr` on.
    fn store_registers(&mut self, start: usize, size: Size, mask: u16, predec: bool) -> (r: Result<usize, CpuError>)
        ensures
            match store_regs(old(self)@, start, size, mask, predec, 16) {
                Ok((m1, a1)) => r == Ok::<usize, CpuError>(a1) && final(self)@ == m1,
                Err(e) => r == Err::<usize, CpuError>(e),
            },
    {
        let size_bytes: usize = if size == Size::Word {
            2
        } else {
            4
        };
        let unit = if size == Size::Word {
            Size::Word
        } else {
            Size::Long
        };
        let mut addr = start;
        let mut bit: usize = 0;
        while bit < 16
            invariant
                bit <= 16,
                size_bytes == unit_bytes(size),
                unit == movem_unit(size),
                store_regs(old(self)@, start, size, mask, predec, bit as nat) == Ok::<
                    (CpuModel, usize),
                    CpuError,
                >((self@, addr)),
            decreases 16 - bit,
        {
            proof {
                lemma_store_keeps_regs(old(self)@, start, size, mask, predec, bit as nat);
            }
            if (mask & (1u16 << bit)) != 0 {
                let target = if predec {
                    addr.wrapping_sub(size_bytes)
                } else {
                    addr
                };
                let reg = if predec {
                    15 - bit
                } else {
                    bit
                };
                let val = if reg < 8 {
                    self.data_regs[reg]
                } else {
                    self.addr_regs[reg - 8]
                };
                match self.write_mem(target, unit, val) {
                    Ok(()) => {},
                    Err(e) => {
                        proof {
                            lemma_store_err_extends(old(self)@, start, size, mask, predec, (bit + 1) as nat, 16);
                        }
                        return Err(e);
                    },
                }
                addr = if predec {
                    target
                } else {
                    addr.wrapping_add(size_bytes)
                };
            }
            bit = bit + 1;
        }
        Ok(addr)
    }

    /// Load the registers of the mask from `addr` on.
    fn load_registers(&mut self, start: usize, size: Size, mask: u16) -> (r: Result<usize, CpuError>)
        ensures
            match load_regs(old(self)@, start, size, mask, 16) {
                Ok((m1, a1)) => r == Ok::<usize, CpuError>(a1) && final(self)@ == m1,
                Err(e) => r == Err::<usize, CpuError>(e),
            },
    {
        let size_bytes: usize = if size == Size::Word {
            2
        } else {
            4
        };
        let unit = if size == Size::Word {
            Size::Word
        } else {
            Size::Long
        };
        let mut addr = start;
        let mut bit: usize = 0;
        while bit < 16
            invariant
                bit <= 16,
                size_bytes == unit_bytes(size),
                unit == movem_unit(size),
                load_regs(old(self)@, start, size, mask, bit as nat) == Ok::<(CpuModel, usize), CpuError>(
                    (self@, addr),
                ),
            decreases 16 - bit,
        {
            if (mask & (1u16 << bit)) != 0 {
                let v = match self.read_mem(addr, unit) {
                    Ok(v) => v,
                    Err(e) => {
                        proof {
                            lemma_load_err_extends(old(self)@, start, size, mask, (bit + 1) as nat, 16);
                        }
                        return Err(e);
                    },
                };
                let val = if size == Size::Word {
                    sign_extend_word(v)
                } else {
                    v
                };
                if bit < 8 {
                    self.data_regs[bit] = val;
                } else {
                    self.addr_regs[bit - 8] = val;
                }
                addr = addr.wrapping_add(size_bytes);
            }
            bit = bit + 1;
        }
        Ok(addr)
    }

    /// MOVEM - Move Multiple Registers
    pub fn exec_movem(&mut self, inst: &Instruction, movem: Movem) -> (r: Result<(), CpuError>)
        ensures
            crate::cpu::outcome(r, final(self)@, movem_spec(old(self)@, inst.address, movem)),
    {
        let is_predec = matches!(movem.mode.ea, EffectiveAddress::AddrPreDecr(_));
        match movem.direction {
            DataDir::RegToMem => {
                let addr = self.compute_effective_address(&movem.mode, inst.address)?;
                let addr = self.store_registers(addr, movem.size, movem.register_mask, is_predec)?;
                if let EffectiveAddress::AddrPreDecr(ar) = movem.mode.ea {
                    self.addr_regs[addr_reg_index(ar)] = addr as u32;
                }
            },
            DataDir::MemToReg => {
                let addr = self.compute_effective_address(&movem.mode, inst.address)?;
                let addr = self.load_registers(addr, movem.size, movem.register_mask)?;
                if let EffectiveAddress::AddrPostIncr(ar) = movem.mode.ea {
                    self.addr_regs[addr_reg_index(ar)] = addr as u32;
                }
            },
        }
        Ok(())
    }
}

} // verus!
