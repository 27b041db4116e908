//! Memory access, effective addresses and operand reads and writes.

use vstd::prelude::*;

use crate::alu::{
    addr_reg_index, areg, data_reg_index, dreg, lemma_masks, merge_sized, size_mask, sized,
    write_sized_data_reg,
};
use crate::cpu::{only_addr_regs_moved, Cpu, CpuModel};
use crate::decoder::{AddrReg, AddressingMode, EffectiveAddress, ExtensionData, Immediate, Size};
use crate::error::CpuError;
use crate::memory::{be_u16, be_u32, mem_read, mem_write, u16_be_bytes, u32_be_bytes, SegmentView};

verus! {

/// The sum of two longs modulo 2^32.
pub open spec fn wrap_add(a: u32, b: u32) -> u32 {
    if a + b > u32::MAX {
        (a + b - 0x1_0000_0000) as u32
    } else {
        (a + b) as u32
    }
}

/// The difference of two longs modulo 2^32.
pub open spec fn wrap_sub(a: u32, b: u32) -> u32 {
    if a - b < 0 {
        (a - b + 0x1_0000_0000) as u32
    } else {
        (a - b) as u32
    }
}

/// The value of `size` at `addr`, big-endian and zero-extended.
pub open spec fn read_sized_spec(mem: Seq<SegmentView>, addr: usize, size: Size) -> Result<u32, CpuError> {
    match size {
        Size::Byte => match mem_read(mem, addr as int, 1) {
            Some(b) => Ok(b[0] as u32),
            None => Err(CpuError::MemoryFault { addr, len: 1 }),
        },
        Size::Word => match mem_read(mem, addr as int, 2) {
            Some(b) => Ok(be_u16(b) as u32),
            None => Err(CpuError::MemoryFault { addr, len: 2 }),
        },
        Size::Long => match mem_read(mem, addr as int, 4) {
            Some(b) => Ok(be_u32(b)),
            None => Err(CpuError::MemoryFault { addr, len: 4 }),
        },
    }
}

/// The big-endian bytes of the low `size` part of a value.
pub open spec fn sized_bytes(value: u32, size: Size) -> Seq<u8> {
    match size {
        Size::Byte => seq![(value % 0x100) as u8],
        Size::Word => u16_be_bytes((value % 0x1_0000) as u16),
        Size::Long => u32_be_bytes(value),
    }
}

/// Memory after writing the low `size` part of `value` at `addr`.
pub open spec fn write_sized_spec(mem: Seq<SegmentView>, addr: usize, size: Size, value: u32) -> Result<
    Seq<SegmentView>,
    CpuError,
> {
    match mem_write(mem, addr as int, sized_bytes(value, size)) {
        Some(m) => Ok(m),
        None => Err(
            CpuError::MemoryFault {
                addr,
                len: match size {
                    Size::Byte => 1usize,
                    Size::Word => 2usize,
                    Size::Long => 4usize,
                },
            },
        ),
    }
}

/// Address register increment or decrement of a (post/pre) access: bytes keep the
/// stack pointer word-aligned.
pub open spec fn ea_step_spec(size: Size, is_a7: bool) -> u32 {
    match size {
        Size::Byte => if is_a7 {
            2
        } else {
            1
        },
        Size::Word => 2,
        Size::Long => 4,
    }
}

/// The short extension word of an operand.
pub open spec fn short_of(mode: AddressingMode) -> Option<u16> {
    match mode.data {
        Some(ExtensionData::Short(v)) => Some(v),
        _ => None,
    }
}

/// The long extension of an operand.
pub open spec fn long_of(mode: AddressingMode) -> Option<u32> {
    match mode.data {
        Some(ExtensionData::Long(v)) => Some(v),
        _ => None,
    }
}

/// An `i64` sum, where it does not overflow.
pub open spec fn checked_i64(v: int) -> Option<i64> {
    if i64::MIN <= v <= i64::MAX {
        Some(v as i64)
    } else {
        None
    }
}

/// The scaled index of an index extension word: the named register, as a sign-extended
/// word or a long, times 1, 2, 4 or 8; zero when the full format suppresses it.
pub open spec fn index_value(m: CpuModel, ext_word: u16) -> i64 {
    let is_full_format = (ext_word & 0x0100) != 0;
    if is_full_format && (ext_word & 0x0040) != 0 {
        0
    } else {
        let reg_num = ((ext_word >> 12) & 0x7) as int;
        let reg_value = if (ext_word & 0x8000) != 0 {
            m.a[reg_num]
        } else {
            m.d[reg_num]
        };
        let index: int = if (ext_word & 0x0800) != 0 {
            reg_value as i32 as int
        } else {
            reg_value as i16 as int
        };
        let scale: int = match (ext_word >> 9) & 0x3 {
            0 => 1,
            1 => 2,
            2 => 4,
            _ => 8,
        };
        (index * scale) as i64
    }
}

/// The address an operand names.
pub open spec fn ea_spec(m: CpuModel, mode: AddressingMode, inst_addr: usize) -> Result<usize, CpuError> {
    match mode.ea {
        EffectiveAddress::Addr(reg) => Ok(m.a[areg(reg)] as usize),
        EffectiveAddress::AddrPostIncr(reg) => Ok(m.a[areg(reg)] as usize),
        EffectiveAddress::AddrPreDecr(reg) => Ok(m.a[areg(reg)] as usize),
        EffectiveAddress::AddrDisplace(reg) => match short_of(mode) {
            None => Err(CpuError::MissingExtension),
            Some(d) => Ok(((m.a[areg(reg)] as int + d as i16 as int) as u32) as usize),
        },
        EffectiveAddress::AbsShort => match short_of(mode) {
            None => Err(CpuError::MissingExtension),
            Some(v) => Ok(v as i16 as i32 as u32 as usize),
        },
        EffectiveAddress::AbsLong => match long_of(mode) {
            None => Err(CpuError::MissingExtension),
            Some(v) => Ok(v as usize),
        },
        EffectiveAddress::PCDisplace => match short_of(mode) {
            None => Err(CpuError::MissingExtension),
            Some(d) => if inst_addr + 2 > usize::MAX {
                Err(CpuError::AddressOverflow)
            } else {
                match checked_i64((inst_addr + 2) as usize as i64 as int + d as i16 as int) {
                    None => Err(CpuError::AddressOverflow),
                    Some(eff) => Ok(eff as u32 as usize),
                }
            },
        },
        EffectiveAddress::AddrIndex(reg) => match mode.data {
            Some(ExtensionData::Index { ext_word, base_disp }) => {
                let is_full_format = (ext_word & 0x0100) != 0;
                let base_suppress = is_full_format && (ext_word & 0x0080) != 0;
                let base: int = if base_suppress {
                    0
                } else {
                    m.a[areg(reg)] as int
                };
                Ok(((base + index_value(m, ext_word) + base_disp) as u32) as usize)
            },
            _ => Err(CpuError::MissingExtension),
        },
        EffectiveAddress::PCIndex => match mode.data {
            Some(ExtensionData::Index { ext_word, base_disp }) => {
                let is_full_format = (ext_word & 0x0100) != 0;
                let base_suppress = is_full_format && (ext_word & 0x0080) != 0;
                if !base_suppress && inst_addr + 2 > usize::MAX {
                    Err(CpuError::AddressOverflow)
                } else {
                    let base: int = if base_suppress {
                        0
                    } else {
                        (inst_addr + 2) as usize as i64 as int
                    };
                    let i_is = ext_word & 0x7;
                    let index = index_value(m, ext_word) as int;
                    if is_full_format && i_is != 0 {
                        let is_postindexed = (i_is & 0x4) != 0;
                        let intermediate = if is_postindexed {
                            checked_i64(base + base_disp)
                        } else {
                            match checked_i64(base + index) {
                                Some(v) => checked_i64(v + base_disp),
                                None => None,
                            }
                        };
                        match intermediate {
                            None => Err(CpuError::AddressOverflow),
                            Some(im) => if im < 0 || im > usize::MAX {
                                Err(CpuError::AddressOverflow)
                            } else {
                                match mem_read(m.mem, im as int, 4) {
                                    None => Err(CpuError::MemoryFault { addr: im as usize, len: 4 }),
                                    Some(b) => {
                                        let ptr = be_u32(b) as int;
                                        if is_postindexed {
                                            match checked_i64(ptr + index) {
                                                None => Err(CpuError::AddressOverflow),
                                                Some(f) => Ok(f as u32 as usize),
                                            }
                                        } else {
                                            Ok(ptr as u32 as usize)
                                        }
                                    },
                                }
                            },
                        }
                    } else {
                        match checked_i64(base + index) {
                            None => Err(CpuError::AddressOverflow),
                            Some(v) => match checked_i64(v + base_disp) {
                                None => Err(CpuError::AddressOverflow),
                                Some(eff) => if eff < 0 || eff > usize::MAX {
                                    Err(CpuError::AddressOverflow)
                                } else {
                                    Ok(eff as usize)
                                },
                            },
                        }
                    }
                }
            },
            _ => Err(CpuError::MissingExtension),
        },
        _ => Err(CpuError::UnsupportedMode),
    }
}

/// Read the value at `addr` and keep the model.
pub open spec fn read_at(m: CpuModel, addr: usize, size: Size) -> Result<(CpuModel, u32), CpuError> {
    match read_sized_spec(m.mem, addr, size) {
        Ok(v) => Ok((m, v)),
        Err(e) => Err(e),
    }
}

/// Read an operand: the new model (address registers stepped by post-increment and
/// pre-decrement) and the zero-extended value.
pub open spec fn read_operand_spec(m: CpuModel, mode: AddressingMode, size: Size, inst_addr: usize) -> Result<
    (CpuModel, u32),
    CpuError,
> {
    match mode.ea {
        EffectiveAddress::Dr(reg) => Ok((m, sized(m.d[dreg(reg)], size))),
        EffectiveAddress::Ar(reg) => Ok((m, m.a[areg(reg)])),
        EffectiveAddress::Addr(reg) => read_at(m, m.a[areg(reg)] as usize, size),
        EffectiveAddress::AbsShort => match short_of(mode) {
            None => Err(CpuError::MissingExtension),
            Some(v) => read_at(m, v as usize, size),
        },
        EffectiveAddress::AbsLong => match long_of(mode) {
            None => Err(CpuError::MissingExtension),
            Some(v) => read_at(m, v as usize, size),
        },
        EffectiveAddress::Immediate => match mode.data {
            Some(ExtensionData::Imm(imm)) => Ok(
                (
                    m,
                    match imm {
                        Immediate::Byte(v) => v as u32,
                        Immediate::Word(v) => v as u32,
                        Immediate::Long(v) => v,
                    },
                ),
            ),
            _ => Err(CpuError::MissingExtension),
        },
        EffectiveAddress::AddrPostIncr(reg) => {
            let i = areg(reg);
            match read_sized_spec(m.mem, m.a[i] as usize, size) {
                Err(e) => Err(e),
                Ok(v) => Ok(
                    (
                        m.with_a(
                            i,
                            wrap_add(m.a[i], ea_step_spec(size, reg == AddrReg::A7)),
                        ),
                        v,
                    ),
                ),
            }
        },
        EffectiveAddress::AddrPreDecr(reg) => {
            let i = areg(reg);
            let na = wrap_sub(m.a[i], ea_step_spec(size, reg == AddrReg::A7));
            read_at(m.with_a(i, na), na as usize, size)
        },
        _ => match ea_spec(m, mode, inst_addr) {
            Err(e) => Err(e),
            Ok(addr) => read_at(m, addr, size),
        },
    }
}

/// Write the low `size` part of `value` at `addr` into the model.
pub open spec fn write_at(m: CpuModel, addr: usize, size: Size, value: u32) -> Result<CpuModel, CpuError> {
    match write_sized_spec(m.mem, addr, size, value) {
        Ok(mem) => Ok(m.with_mem(mem)),
        Err(e) => Err(e),
    }
}

/// Write an operand: the new model.
pub open spec fn write_operand_spec(
    m: CpuModel,
    mode: AddressingMode,
    size: Size,
    inst_addr: usize,
    value: u32,
) -> Result<CpuModel, CpuError> {
    match mode.ea {
        EffectiveAddress::Dr(reg) => Ok(
            m.with_d(dreg(reg), merge_sized(m.d[dreg(reg)], value, size)),
        ),
        EffectiveAddress::Ar(reg) => Ok(m.with_a(areg(reg), value)),
        EffectiveAddress::Addr(reg) => write_at(m, m.a[areg(reg)] as usize, size, value),
        EffectiveAddress::AbsShort => match short_of(mode) {
            None => Err(CpuError::MissingExtension),
            Some(v) => write_at(m, v as usize, size, value),
        },
        EffectiveAddress::AbsLong => match long_of(mode) {
            None => Err(CpuError::MissingExtension),
            Some(v) => write_at(m, v as usize, size, value),
        },
        EffectiveAddress::AddrPostIncr(reg) => {
            let i = areg(reg);
            match write_at(m, m.a[i] as usize, size, value) {
                Err(e) => Err(e),
                Ok(m1) => Ok(
                    m1.with_a(i, wrap_add(m.a[i], ea_step_spec(size, reg == AddrReg::A7))),
                ),
            }
        },
        EffectiveAddress::AddrPreDecr(reg) => {
            let i = areg(reg);
            let na = wrap_sub(m.a[i], ea_step_spec(size, reg == AddrReg::A7));
            write_at(m.with_a(i, na), na as usize, size, value)
        },
        EffectiveAddress::AddrDisplace(_) | EffectiveAddress::AddrIndex(_) => match ea_spec(
            m,
            mode,
            inst_addr,
        ) {
            Err(e) => Err(e),
            Ok(addr) => write_at(m, addr, size, value),
        },
        _ => Err(CpuError::UnsupportedMode),
    }
}

/// Read a word operand for MULU/MULS (address registers stepped by post-increment and
/// pre-decrement).
pub open spec fn read_word_spec(m: CpuModel, mode: AddressingMode) -> Result<(CpuModel, u16), CpuError> {
    match mode.ea {
        EffectiveAddress::Dr(reg) => Ok((m, m.d[dreg(reg)] as u16)),
        EffectiveAddress::Addr(reg) => match mem_read(m.mem, m.a[areg(reg)] as usize as int, 2) {
            Some(b) => Ok((m, be_u16(b))),
            None => Err(CpuError::MemoryFault { addr: m.a[areg(reg)] as usize, len: 2 }),
        },
        EffectiveAddress::AddrDisplace(reg) => match short_of(mode) {
            None => Err(CpuError::MissingExtension),
            Some(d) => {
                let addr = (m.a[areg(reg)] as i64 as int + d as i16 as int) as i64 as usize;
                match mem_read(m.mem, addr as int, 2) {
                    Some(b) => Ok((m, be_u16(b))),
                    None => Err(CpuError::MemoryFault { addr, len: 2 }),
                }
            },
        },
        EffectiveAddress::AbsShort => match short_of(mode) {
            None => Err(CpuError::MissingExtension),
            Some(v) => match mem_read(m.mem, v as usize as int, 2) {
                Some(b) => Ok((m, be_u16(b))),
                None => Err(CpuError::MemoryFault { addr: v as usize, len: 2 }),
            },
        },
        EffectiveAddress::AbsLong => match long_of(mode) {
            None => Err(CpuError::MissingExtension),
            Some(v) => match mem_read(m.mem, v as usize as int, 2) {
                Some(b) => Ok((m, be_u16(b))),
                None => Err(CpuError::MemoryFault { addr: v as usize, len: 2 }),
            },
        },
        EffectiveAddress::Immediate => match mode.data {
            Some(ExtensionData::Imm(imm)) => Ok(
                (
                    m,
                    match imm {
                        Immediate::Byte(v) => v as u16,
                        Immediate::Word(v) => v,
                        Immediate::Long(v) => v as u16,
                    },
                ),
            ),
            _ => Err(CpuError::MissingExtension),
        },
        EffectiveAddress::AddrPostIncr(reg) => {
            let i = areg(reg);
            match mem_read(m.mem, m.a[i] as usize as int, 2) {
                Some(b) => Ok((m.with_a(i, wrap_add(m.a[i], 2)), be_u16(b))),
                None => Err(CpuError::MemoryFault { addr: m.a[i] as usize, len: 2 }),
            }
        },
        EffectiveAddress::AddrPreDecr(reg) => {
            let i = areg(reg);
            let na = wrap_sub(m.a[i], 2);
            match mem_read(m.mem, na as usize as int, 2) {
                Some(b) => Ok((m.with_a(i, na), be_u16(b))),
                None => Err(CpuError::MemoryFault { addr: na as usize, len: 2 }),
            }
        },
        _ => Err(CpuError::UnsupportedMode),
    }
}

/// Big-endian bytes of a word.
pub fn word_to_be_bytes(v: u16) -> (r: [u8; 2])
    ensures
        r@ == u16_be_bytes(v),
{
    let r = [(v / 0x100) as u8, (v % 0x100) as u8];
    assert(r@ =~= u16_be_bytes(v));
    r
}

/// Big-endian bytes of a long.
pub fn long_to_be_bytes(v: u32) -> (r: [u8; 4])
    ensures
        r@ == u32_be_bytes(v),
{
    let r = [
        (v / 0x1000000) as u8,
        ((v / 0x10000) % 0x100) as u8,
        ((v / 0x100) % 0x100) as u8,
        (v % 0x100) as u8,
    ];
    assert(r@ =~= u32_be_bytes(v));
    r
}


impl Cpu {
    /// Address register increment or decrement of a (post/pre) access.
    pub fn ea_step(size: Size, is_a7: bool) -> (r: u32)
        ensures
            r == ea_step_spec(size, is_a7),
    {
        match size {
            Size::Byte => {
                if is_a7 {
                    2
                } else {
                    1
                }
            },
            Size::Word => 2,
            Size::Long => 4,
        }
    }

    /// Read a zero-extended value of `size` from memory.
    pub fn read_mem(&mut self, addr: usize, size: Size) -> (r: Result<u32, CpuError>)
        ensures
            r == read_sized_spec(old(self)@.mem, addr, size),
            final(self)@ == old(self)@,
    {
        match size {
            Size::Byte => match self.memory.read_byte(addr) {
                Ok(v) => Ok(v as u32),
                Err(e) => Err(e),
            },
            Size::Word => match self.memory.read_word(addr) {
                Ok(v) => Ok(v as u32),
                Err(e) => Err(e),
            },
            Size::Long => self.memory.read_long(addr),
        }
    }

    /// Write the low `size` part of `value` to memory, big-endian.
    pub fn write_mem(&mut self, addr: usize, size: Size, value: u32) -> (r: Result<(), CpuError>)
        ensures
            match write_sized_spec(old(self)@.mem, addr, size, value) {
                Ok(mem) => r is Ok && final(self)@ == old(self)@.with_mem(mem),
                Err(e) => r == Err::<(), CpuError>(e) && final(self)@ == old(self)@,
            },
    {
        proof {
            lemma_masks(value);
        }
        let r = match size {
            Size::Byte => {
                let b = [(value & 0xFF) as u8];
                assert(b@ =~= seq![(value % 0x100) as u8]);
                self.memory.write_data(addr, &b)
            },
            Size::Word => {
                let b = word_to_be_bytes((value & 0xFFFF) as u16);
                self.memory.write_data(addr, &b)
            },
            Size::Long => {
                let b = long_to_be_bytes(value);
                self.memory.write_data(addr, &b)
            },
        };
        match r {
            Ok(()) => Ok(()),
            Err(e) => Err(e),
        }
    }

    /// Decode the index register value from an extension word.
    /// Extension word format:
    /// - Bit 15: D/A (0=Dn, 1=An)
    /// - Bits 14-12: register number
    /// - Bit 11: W/L (0=word sign-extended, 1=long)
    /// - Bits 10-9: scale (00=1, 01=2, 10=4, 11=8) - 68020+
    /// - Bit 8: full extension word indicator (68020+)
    /// - Bit 6: IS (index suppress) - 68020+
    pub fn decode_index_register(&self, ext_word: u16) -> (r: i64)
        ensures
            r == index_value(self@, ext_word),
    {
        let is_full_format = (ext_word & 0x0100) != 0;
        if is_full_format && (ext_word & 0x0040) != 0 {
            return 0;
        }
        let is_addr_reg = (ext_word & 0x8000) != 0;
        assert((ext_word >> 12) & 0x7 < 8) by (bit_vector);
        let reg_num = ((ext_word >> 12) & 0x7) as usize;
        let is_long = (ext_word & 0x0800) != 0;
        let scale: i64 = match (ext_word >> 9) & 0x3 {
            0 => 1,
            1 => 2,
            2 => 4,
            _ => 8,
        };
        let reg_value = if is_addr_reg {
            self.addr_regs[reg_num]
        } else {
            self.data_regs[reg_num]
        };
        let index: i64 = if is_long {
            reg_value as i32 as i64
        } else {
            (reg_value as i16) as i64
        };
        index * scale
    }

    /// The address an operand names.
    pub fn compute_effective_address(&self, mode: &AddressingMode, inst_addr: usize) -> (r: Result<
        usize,
        CpuError,
    >)
        ensures
            r == ea_spec(self@, *mode, inst_addr),
    {
        match mode.ea {
            EffectiveAddress::Addr(reg) => Ok(self.addr_regs[addr_reg_index(reg)] as usize),
            EffectiveAddress::AddrPostIncr(reg) => Ok(self.addr_regs[addr_reg_index(reg)] as usize),
            EffectiveAddress::AddrPreDecr(reg) => Ok(self.addr_regs[addr_reg_index(reg)] as usize),
            EffectiveAddress::AddrDisplace(reg) => {
                let disp = match mode.short_data() {
                    Some(v) => v as i16,
                    None => return Err(CpuError::MissingExtension),
                };
                let base = self.addr_regs[addr_reg_index(reg)] as i64;
                let eff = match base.checked_add(disp as i64) {
                    Some(v) => v,
                    None => return Err(CpuError::AddressOverflow),
                };
                Ok(eff as u32 as usize)
            },
            EffectiveAddress::AbsShort => match mode.short_data() {
                // Sign-extend the 16-bit address to a 32-bit guest address.
                Some(v) => Ok(v as i16 as i32 as u32 as usize),
                None => Err(CpuError::MissingExtension),
            },
            EffectiveAddress::AbsLong => match mode.long_data() {
                Some(v) => Ok(v as usize),
                None => Err(CpuError::MissingExtension),
            },
            EffectiveAddress::PCDisplace => {
                let disp = match mode.short_data() {
                    Some(v) => v as i16,
                    None => return Err(CpuError::MissingExtension),
                };
                let base = match inst_addr.checked_add(2) {
                    Some(v) => v,
                    None => return Err(CpuError::AddressOverflow),
                };
                let eff = match (base as i64).checked_add(disp as i64) {
                    Some(v) => v,
                    None => return Err(CpuError::AddressOverflow),
                };
                Ok(eff as u32 as usize)
            },
            EffectiveAddress::AddrIndex(reg) => {
                let (ext_word, base_disp) = match mode.index_ext() {
                    Some(v) => v,
                    None => return Err(CpuError::MissingExtension),
                };
                let is_full_format = (ext_word & 0x0100) != 0;
                let base_suppress = is_full_format && (ext_word & 0x0080) != 0;
                let base = if base_suppress {
                    0i64
                } else {
                    self.addr_regs[addr_reg_index(reg)] as i64
                };
                let index = self.decode_index_register(ext_word);
                let eff = match base.checked_add(index) {
                    Some(v) => match v.checked_add(base_disp as i64) {
                        Some(w) => w,
                        None => return Err(CpuError::AddressOverflow),
                    },
                    None => return Err(CpuError::AddressOverflow),
                };
                Ok(eff as u32 as usize)
            },
            EffectiveAddress::PCIndex => {
                let (ext_word, base_disp) = match mode.index_ext() {
                    Some(v) => v,
                    None => return Err(CpuError::MissingExtension),
                };
                let is_full_format = (ext_word & 0x0100) != 0;
                let base_suppress = is_full_format && (ext_word & 0x0080) != 0;
                let base = if base_suppress {
                    0i64
                } else {
                    match inst_addr.checked_add(2) {
                        Some(v) => v as i64,
                        None => return Err(CpuError::AddressOverflow),
                    }
                };
                let i_is = ext_word & 0x7;
                if is_full_format && i_is != 0 {
                    let is_postindexed = (i_is & 0x4) != 0;
                    let index = self.decode_index_register(ext_word);
                    let intermediate = if is_postindexed {
                        match base.checked_add(base_disp as i64) {
                            Some(v) => v,
                            None => return Err(CpuError::AddressOverflow),
                        }
                    } else {
                        match base.checked_add(index) {
                            Some(v) => match v.checked_add(base_disp as i64) {
                                Some(w) => w,
                                None => return Err(CpuError::AddressOverflow),
                            },
                            None => return Err(CpuError::AddressOverflow),
                        }
                    };
                    if intermediate < 0 || intermediate as u64 > usize::MAX as u64 {
                        return Err(CpuError::AddressOverflow);
                    }
                    let ptr_addr = intermediate as usize;
                    let ptr = match self.memory.read_long(ptr_addr) {
                        Ok(v) => v as i64,
                        Err(e) => return Err(e),
                    };
                    let final_addr = if is_postindexed {
                        match ptr.checked_add(index) {
                            Some(v) => v,
                            None => return Err(CpuError::AddressOverflow),
                        }
                    } else {
                        ptr
                    };
                    Ok(final_addr as u32 as usize)
                } else {
                    let index = self.decode_index_register(ext_word);
                    let eff = match base.checked_add(index) {
                        Some(v) => match v.checked_add(base_disp as i64) {
                            Some(w) => w,
                            None => return Err(CpuError::AddressOverflow),
                        },
                        None => return Err(CpuError::AddressOverflow),
                    };
                    if eff < 0 || eff as u64 > usize::MAX as u64 {
                        return Err(CpuError::AddressOverflow);
                    }
                    Ok(eff as usize)
                }
            },
            _ => Err(CpuError::UnsupportedMode),
        }
    }

    /// Read an operand of `size`, zero-extended; post-increment and pre-decrement step
    /// their address register.
    pub fn read_operand(&mut self, mode: &AddressingMode, size: Size, inst_addr: usize) -> (r: Result<
        u32,
        CpuError,
    >)
        ensures
            match read_operand_spec(old(self)@, *mode, size, inst_addr) {
                Ok((m, v)) => r == Ok::<u32, CpuError>(v) && final(self)@ == m,
                Err(e) => r == Err::<u32, CpuError>(e),
            },
            only_addr_regs_moved(old(self)@, final(self)@),
    {
        match mode.ea {
            EffectiveAddress::Dr(reg) => Ok(size_mask(self.data_regs[data_reg_index(reg)], size)),
            EffectiveAddress::Ar(reg) => Ok(self.addr_regs[addr_reg_index(reg)]),
            EffectiveAddress::Addr(reg) => {
                let addr = self.addr_regs[addr_reg_index(reg)] as usize;
                self.read_mem(addr, size)
            },
            EffectiveAddress::AddrDisplace(_) => {
                let addr = self.compute_effective_address(mode, inst_addr)?;
                self.read_mem(addr, size)
            },
            EffectiveAddress::AbsShort => {
                let addr = match mode.short_data() {
                    Some(v) => v as usize,
                    None => return Err(CpuError::MissingExtension),
                };
                self.read_mem(addr, size)
            },
            EffectiveAddress::AbsLong => {
                let addr = match mode.long_data() {
                    Some(v) => v as usize,
                    None => return Err(CpuError::MissingExtension),
                };
                self.read_mem(addr, size)
            },
            EffectiveAddress::PCDisplace => {
                let addr = self.compute_effective_address(mode, inst_addr)?;
                self.read_mem(addr, size)
            },
            EffectiveAddress::Immediate => match mode.immediate() {
                Some(Immediate::Byte(v)) => Ok(v as u32),
                Some(Immediate::Word(v)) => Ok(v as u32),
                Some(Immediate::Long(v)) => Ok(v),
                None => Err(CpuError::MissingExtension),
            },
            EffectiveAddress::AddrPostIncr(reg) => {
                let idx = addr_reg_index(reg);
                let addr = self.addr_regs[idx] as usize;
                let value = self.read_mem(addr, size)?;
                let step = Self::ea_step(size, reg == AddrReg::A7);
                self.addr_regs[idx] = self.addr_regs[idx].wrapping_add(step);
                Ok(value)
            },
            EffectiveAddress::AddrPreDecr(reg) => {
                let idx = addr_reg_index(reg);
                let step = Self::ea_step(size, reg == AddrReg::A7);
                self.addr_regs[idx] = self.addr_regs[idx].wrapping_sub(step);
                let addr = self.addr_regs[idx] as usize;
                self.read_mem(addr, size)
            },
            EffectiveAddress::AddrIndex(_) | EffectiveAddress::PCIndex => {
                let addr = self.compute_effective_address(mode, inst_addr)?;
                self.read_mem(addr, size)
            },
        }
    }

    /// Write the low `size` part of `value` to an operand; post-increment and
    /// pre-decrement step their address register.
    #[verifier::rlimit(50)]
    pub fn write_operand(&mut self, mode: &AddressingMode, size: Size, inst_addr: usize, value: u32) -> (r:
        Result<(), CpuError>)
        ensures
            match write_operand_spec(old(self)@, *mode, size, inst_addr, value) {
                Ok(m) => r is Ok && final(self)@ == m,
                Err(e) => r == Err::<(), CpuError>(e),
            },
            r is Err ==> only_addr_regs_moved(old(self)@, final(self)@),
            (mode.ea is Immediate || mode.ea is PCDisplace || mode.ea is PCIndex) ==> r is Err && final(self)@
                == old(self)@,
    {
        match mode.ea {
            EffectiveAddress::Dr(reg) => {
                let idx = data_reg_index(reg);
                self.data_regs[idx] = write_sized_data_reg(self.data_regs[idx], value, size);
            },
            EffectiveAddress::Ar(reg) => {
                let idx = addr_reg_index(reg);
                self.addr_regs[idx] = value;
            },
            EffectiveAddress::Addr(reg) => {
                let addr = self.addr_regs[addr_reg_index(reg)] as usize;
                self.write_mem(addr, size, value)?;
            },
            EffectiveAddress::AddrDisplace(_) => {
                let addr = self.compute_effective_address(mode, inst_addr)?;
                self.write_mem(addr, size, value)?;
            },
            EffectiveAddress::AbsShort => {
                let addr = match mode.short_data() {
                    Some(v) => v as usize,
                    None => return Err(CpuError::MissingExtension),
                };
                self.write_mem(addr, size, value)?;
            },
            EffectiveAddress::AbsLong => {
                let addr = match mode.long_data() {
                    Some(v) => v as usize,
                    None => return Err(CpuError::MissingExtension),
                };
                self.write_mem(addr, size, value)?;
            },
            EffectiveAddress::AddrPostIncr(reg) => {
                let idx = addr_reg_index(reg);
                let addr = self.addr_regs[idx] as usize;
                self.write_mem(addr, size, value)?;
                let step = Self::ea_step(size, reg == AddrReg::A7);
                self.addr_regs[idx] = self.addr_regs[idx].wrapping_add(step);
            },
            EffectiveAddress::AddrPreDecr(reg) => {
                let idx = addr_reg_index(reg);
                let step = Self::ea_step(size, reg == AddrReg::A7);
                self.addr_regs[idx] = self.addr_regs[idx].wrapping_sub(step);
                let addr = self.addr_regs[idx] as usize;
                self.write_mem(addr, size, value)?;
            },
            EffectiveAddress::AddrIndex(_) => {
                let addr = self.compute_effective_address(mode, inst_addr)?;
                self.write_mem(addr, size, value)?;
            },
            _ => return Err(CpuError::UnsupportedMode),
        }
        Ok(())
    }

    /// Read a word operand (MULU/MULS source).
    pub fn read_word_unsigned(&mut self, mode: AddressingMode) -> (r: Result<u16, CpuError>)
        ensures
            match read_word_spec(old(self)@, mode) {
                Ok((m, v)) => r == Ok::<u16, CpuError>(v) && final(self)@ == m,
                Err(e) => r == Err::<u16, CpuError>(e),
            },
    {
        match mode.ea {
            EffectiveAddress::Dr(reg) => Ok(self.data_regs[data_reg_index(reg)] as u16),
            EffectiveAddress::Addr(addr_reg) => {
                let addr = self.addr_regs[addr_reg_index(addr_reg)] as usize;
                self.memory.read_word(addr)
            },
            EffectiveAddress::AddrDisplace(addr_reg) => {
                let displacement = match mode.short_data() {
                    Some(v) => v as i16,
                    None => return Err(CpuError::MissingExtension),
                };
                let base = self.addr_regs[addr_reg_index(addr_reg)] as i64;
                let effective = match base.checked_add(displacement as i64) {
                    Some(v) => v as usize,
                    None => return Err(CpuError::AddressOverflow),
                };
                self.memory.read_word(effective)
            },
            EffectiveAddress::AbsShort => {
                let addr = match mode.short_data() {
                    Some(v) => v as usize,
                    None => return Err(CpuError::MissingExtension),
                };
                self.memory.read_word(addr)
            },
            EffectiveAddress::AbsLong => {
                let addr = match mode.long_data() {
                    Some(v) => v as usize,
                    None => return Err(CpuError::MissingExtension),
                };
                self.memory.read_word(addr)
            },
            EffectiveAddress::Immediate => match mode.immediate() {
                Some(Immediate::Byte(v)) => Ok(v as u16),
                Some(Immediate::Word(v)) => Ok(v),
                Some(Immediate::Long(v)) => Ok(v as u16),
                None => Err(CpuError::MissingExtension),
            },
            EffectiveAddress::AddrPostIncr(reg) => {
                let idx = addr_reg_index(reg);
                let addr = self.addr_regs[idx] as usize;
                let value = self.memory.read_word(addr)?;
                self.addr_regs[idx] = self.addr_regs[idx].wrapping_add(2);
                Ok(value)
            },
            EffectiveAddress::AddrPreDecr(reg) => {
                let idx = addr_reg_index(reg);
                self.addr_regs[idx] = self.addr_regs[idx].wrapping_sub(2);
                let addr = self.addr_regs[idx] as usize;
                self.memory.read_word(addr)
            },
            _ => Err(CpuError::UnsupportedMode),
        }
    }

    /// Read a word operand as a signed value (MULS source).
    pub fn read_word_signed(&mut self, mode: AddressingMode) -> (r: Result<i16, CpuError>)
        ensures
            match read_word_spec(old(self)@, mode) {
                Ok((m, v)) => r == Ok::<i16, CpuError>(v as i16) && final(self)@ == m,
                Err(e) => r == Err::<i16, CpuError>(e),
            },
    {
        match self.read_word_unsigned(mode) {
            Ok(v) => Ok(v as i16),
            Err(e) => Err(e),
        }
    }

    /// Push a long onto the stack.
    pub fn push_long(&mut self, value: u32) -> (r: Result<(), CpuError>)
        ensures
            ({
                let sp = wrap_sub(old(self)@.a[7], 4);
                match write_sized_spec(old(self)@.mem, sp as usize, Size::Long, value) {
                    Ok(mem) => r is Ok && final(self)@ == old(self)@.with_a(7, sp).with_mem(mem),
                    Err(e) => r == Err::<(), CpuError>(e),
                }
            }),
    {
        self.addr_regs[7] = self.addr_regs[7].wrapping_sub(4);
        let sp = self.addr_regs[7] as usize;
        let b = long_to_be_bytes(value);
        match self.memory.write_data(sp, &b) {
            Ok(()) => {
                assert(self@ =~= old(self)@.with_a(7, wrap_sub(old(self)@.a[7], 4)).with_mem(
                    self.memory@,
                ));
                Ok(())
            },
            Err(e) => Err(e),
        }
    }

    /// Pop a long from the stack.
    pub fn pop_long(&mut self) -> (r: Result<u32, CpuError>)
        ensures
            match read_sized_spec(old(self)@.mem, old(self)@.a[7] as usize, Size::Long) {
                Ok(v) => r == Ok::<u32, CpuError>(v) && final(self)@ == old(self)@.with_a(
                    7,
                    wrap_add(old(self)@.a[7], 4),
                ),
                Err(e) => r == Err::<u32, CpuError>(e) && final(self)@ == old(self)@,
            },
    {
        let sp = self.addr_regs[7] as usize;
        let value = match self.memory.read_long(sp) {
            Ok(v) => v,
            Err(e) => return Err(e),
        };
        self.addr_regs[7] = self.addr_regs[7].wrapping_add(4);
        assert(self@ =~= old(self)@.with_a(7, wrap_add(old(self)@.a[7], 4)));
        Ok(value)
    }
}

} // verus!
