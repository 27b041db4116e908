//! The m68k processor state and the condition-code logic shared by all
//! instructions.

use vstd::prelude::*;

use crate::alu::{msb, sized};
use crate::decoder::{Condition, Size};
use crate::memory::{MemoryImage, SegmentView};

pub mod arith;
pub mod atomic;
pub mod bitfield;
pub mod bitfield_laws;
pub mod bounds;
pub mod compare;
pub mod control;
pub mod dirents;
pub mod execute;
pub mod extend;
pub mod flags;
pub mod guards;
pub mod guest_data;
pub mod guest_structs;
pub mod host_args;
pub mod host_laws;
pub mod isa_laws;
pub mod ipc;
pub mod ipc_data;
pub mod layout_laws;
pub mod kernel_structs;
pub mod laws;
pub mod logic;
pub mod movem;
pub mod movem_laws;
pub mod muldiv;
pub mod operand;
pub mod setup;
pub mod shift;
pub mod syscall;

verus! {

/// m68k uses a fixed TLS layout where the thread pointer lives 0x7000 bytes
/// past the start of the TLS block.
pub const M68K_TLS_TCB_SIZE: usize = 0x7000;

/// A small pad after the thread pointer for per-thread metadata.
pub const TLS_DATA_PAD: usize = 0x1000;

/// Carry.
pub const FLAG_C: u16 = 0x0001;

/// Overflow.
pub const FLAG_V: u16 = 0x0002;

/// Zero.
pub const FLAG_Z: u16 = 0x0004;

/// Negative.
pub const FLAG_N: u16 = 0x0008;

/// Extend.
pub const FLAG_X: u16 = 0x0010;

/// ELF information needed for auxiliary vector setup
#[derive(Clone, Copy, Debug)]
pub struct ElfInfo {
    pub entry_point: u32,
    pub phdr_addr: u32,
    pub phent_size: u32,
    pub phnum: u32,
    pub tls_vaddr: Option<u32>,
    pub tls_memsz: u32,
}

/// The interpreter's processor state.
pub struct Cpu {
    pub data_regs: [u32; 8],
    pub addr_regs: [u32; 8],
    pub sr: u16,
    pub pc: usize,
    pub memory: MemoryImage,
    pub halted: bool,
    /// Thread-local storage base address.
    pub tls_base: u32,
    pub tls_initialized: bool,
    pub tls_memsz: usize,
    pub brk: usize,
    pub brk_base: usize,
    pub heap_segment_base: usize,
    pub stack_base: usize,
    /// Path to the m68k executable being run.
    pub exe_path: String,
}

/// The mathematical content of the processor state.
#[verifier::ext_equal]
pub struct CpuModel {
    pub d: Seq<u32>,
    pub a: Seq<u32>,
    pub sr: u16,
    pub pc: usize,
    pub mem: Seq<SegmentView>,
    pub halted: bool,
    pub tls_base: u32,
    pub tls_initialized: bool,
    pub tls_memsz: usize,
    pub brk: usize,
    pub brk_base: usize,
    pub heap_segment_base: usize,
    pub stack_base: usize,
    pub exe_path: Seq<char>,
}

impl View for Cpu {
    type V = CpuModel;

    open spec fn view(&self) -> CpuModel {
        CpuModel {
            d: self.data_regs@,
            a: self.addr_regs@,
            sr: self.sr,
            pc: self.pc,
            mem: self.memory@,
            halted: self.halted,
            tls_base: self.tls_base,
            tls_initialized: self.tls_initialized,
            tls_memsz: self.tls_memsz,
            brk: self.brk,
            brk_base: self.brk_base,
            heap_segment_base: self.heap_segment_base,
            stack_base: self.stack_base,
            exe_path: self.exe_path@,
        }
    }
}

impl CpuModel {
    pub open spec fn with_sr(self, sr: u16) -> CpuModel {
        CpuModel { sr, ..self }
    }

    pub open spec fn with_d(self, i: int, v: u32) -> CpuModel {
        CpuModel { d: self.d.update(i, v), ..self }
    }

    pub open spec fn with_a(self, i: int, v: u32) -> CpuModel {
        CpuModel { a: self.a.update(i, v), ..self }
    }

    pub open spec fn with_pc(self, pc: usize) -> CpuModel {
        CpuModel { pc, ..self }
    }

    pub open spec fn with_mem(self, mem: Seq<SegmentView>) -> CpuModel {
        CpuModel { mem, ..self }
    }
}

/// An instruction's result agrees with its specification: on success the state is the
/// specified one, and a failure is the specified error.
pub open spec fn outcome(r: Result<(), crate::error::CpuError>, post: CpuModel, spec: Result<CpuModel, crate::error::CpuError>) -> bool {
    match spec {
        Ok(m) => r is Ok && post == m,
        Err(e) => r == Err::<(), crate::error::CpuError>(e),
    }
}

/// Nothing but the address registers differs between the two states: what an operand
/// access leaves behind when it fails (a pre-decrement may already have moved its
/// register).
pub open spec fn only_addr_regs_moved(pre: CpuModel, post: CpuModel) -> bool {
    post == CpuModel { a: post.a, ..pre }
}

/// `sr` with the bits of `mask` set or cleared.
pub open spec fn with_flag(sr: u16, mask: u16, set: bool) -> u16 {
    if set {
        sr | mask
    } else {
        sr & !mask
    }
}

/// Whether any bit of `mask` is set in `sr`.
pub open spec fn flag(sr: u16, mask: u16) -> bool {
    sr & mask != 0
}

/// One of the five condition code bits.
pub open spec fn is_ccr_flag(mask: u16) -> bool {
    mask == FLAG_C || mask == FLAG_V || mask == FLAG_Z || mask == FLAG_N || mask == FLAG_X
}

/// Setting or clearing one condition code changes that code and no other.
pub proof fn law_flag_independent(sr: u16, mask: u16, set: bool, other: u16)
    requires
        is_ccr_flag(mask),
        is_ccr_flag(other),
    ensures
        flag(with_flag(sr, mask, set), other) == if mask == other {
            set
        } else {
            flag(sr, other)
        },
        with_flag(sr, mask, set) & 0xFFE0 == sr & 0xFFE0,
{
    if set {
        assert(flag(sr | mask, other) == (if mask == other { true } else { flag(sr, other) }) && (sr | mask) & 0xFFE0
            == sr & 0xFFE0) by (bit_vector)
            requires
                mask == 1u16 || mask == 2u16 || mask == 4u16 || mask == 8u16 || mask == 16u16,
                other == 1u16 || other == 2u16 || other == 4u16 || other == 8u16 || other == 16u16,
        ;
    } else {
        assert(flag(sr & !mask, other) == (if mask == other { false } else { flag(sr, other) }) && (sr & !mask)
            & 0xFFE0 == sr & 0xFFE0) by (bit_vector)
            requires
                mask == 1u16 || mask == 2u16 || mask == 4u16 || mask == 8u16 || mask == 16u16,
                other == 1u16 || other == 2u16 || other == 4u16 || other == 8u16 || other == 16u16,
        ;
    }
}

/// N and Z for the low `size` part of a value.
pub open spec fn nz_sr(sr: u16, value: u32, size: Size) -> u16 {
    with_flag(with_flag(sr, FLAG_Z, sized(value, size) == 0), FLAG_N, msb(value, size))
}

/// N, Z, V and C of a test or logical operation: N and Z from the value, V and C cleared.
pub open spec fn logic_sr(sr: u16, value: u32, size: Size) -> u16 {
    with_flag(with_flag(nz_sr(sr, value, size), FLAG_V, false), FLAG_C, false)
}

/// Whether a branch condition holds for the condition codes in `sr`.
pub open spec fn condition_holds(sr: u16, condition: Condition) -> bool {
    let n = flag(sr, FLAG_N);
    let z = flag(sr, FLAG_Z);
    let v = flag(sr, FLAG_V);
    let c = flag(sr, FLAG_C);
    match condition {
        Condition::True => true,
        Condition::False => false,
        Condition::Higher => !c && !z,
        Condition::LowerOrSame => c || z,
        Condition::CarryClear => !c,
        Condition::CarrySet => c,
        Condition::NotEqual => !z,
        Condition::Equal => z,
        Condition::OverflowClear => !v,
        Condition::OverflowSet => v,
        Condition::Plus => !n,
        Condition::Minus => n,
        Condition::GreaterOrEqual => n == v,
        Condition::LessThan => n != v,
        Condition::GreaterThan => !z && (n == v),
        Condition::LessOrEqual => z || (n != v),
    }
}

/// The state with the program counter moved forward, saturating at the top of the
/// address range.
pub open spec fn advanced(m: CpuModel, bytes: usize) -> CpuModel {
    m.with_pc(
        if m.pc + bytes > usize::MAX {
            usize::MAX
        } else {
            (m.pc + bytes) as usize
        },
    )
}

/// `value` rounded up to a multiple of `align`.
pub open spec fn align_up_spec(value: int, align: int) -> int {
    ((value + align - 1) / align) * align
}

/// Clearing the low bits below a power of two rounds down to a multiple of it.
proof fn lemma_align_masks(s: usize)
    by (bit_vector)
    ensures
        s & !0xFFFusize == (s / 0x1000) * 0x1000,
        s & !7usize == (s / 8) * 8,
        s & !3usize == (s / 4) * 4,
        s & !1usize == (s / 2) * 2,
        s & !0usize == s,
{
}

/// Round `value` up to a multiple of the power of two `align`.
pub fn align_up(value: usize, align: usize) -> (r: usize)
    requires
        align == 1 || align == 2 || align == 4 || align == 8 || align == 0x1000,
        value + align <= usize::MAX,
    ensures
        r == align_up_spec(value as int, align as int),
        r >= value,
        r % align == 0,
        r < value + align,
{
    let s = value + align - 1;
    let r = s & !(align - 1);
    proof {
        lemma_align_masks(s);
        let si = s as int;
        let ai = align as int;
        assert((si / ai) * ai <= si) by (nonlinear_arith)
            requires
                ai > 0,
                si >= 0,
        ;
        assert(((si / ai) * ai) % ai == 0) by (nonlinear_arith)
            requires
                ai > 0,
        ;
        assert((si / ai) * ai > si - ai) by (nonlinear_arith)
            requires
                ai > 0,
                si >= 0,
        ;
    }
    r
}

impl Cpu {
    /// Set (`set == true`) or clear the status register bits of `mask`.
    pub fn set_flag(&mut self, mask: u16, set: bool)
        ensures
            final(self)@ == old(self)@.with_sr(with_flag(old(self).sr, mask, set)),
    {
        if set {
            self.sr = self.sr | mask;
        } else {
            self.sr = self.sr & !mask;
        }
    }

    /// Whether a status register bit of `mask` is set.
    pub fn get_flag(&self, mask: u16) -> (r: bool)
        ensures
            r == flag(self.sr, mask),
    {
        (self.sr & mask) != 0
    }

    /// Set N and Z from a full long.
    pub fn update_nz_flags(&mut self, value: u32)
        ensures
            final(self)@ == old(self)@.with_sr(nz_sr(old(self).sr, value, Size::Long)),
    {
        let is_zero = value == 0;
        let is_negative = (value & 0x8000_0000) != 0;
        proof {
            crate::alu::lemma_masks(value);
        }
        self.set_flag(FLAG_Z, is_zero);
        self.set_flag(FLAG_N, is_negative);
    }

    /// Set N and Z from the low `size` part of a value.
    pub fn update_nz_flags_sized(&mut self, value: u32, size: Size)
        ensures
            final(self)@ == old(self)@.with_sr(nz_sr(old(self).sr, value, size)),
    {
        proof {
            crate::alu::lemma_masks(value);
        }
        let (is_zero, is_negative) = match size {
            Size::Byte => ((value & 0xFF) == 0, (value & 0x80) != 0),
            Size::Word => ((value & 0xFFFF) == 0, (value & 0x8000) != 0),
            Size::Long => (value == 0, (value & 0x8000_0000) != 0),
        };
        self.set_flag(FLAG_Z, is_zero);
        self.set_flag(FLAG_N, is_negative);
    }

    /// Whether a branch condition holds now.
    pub fn test_condition(&self, condition: Condition) -> (r: bool)
        ensures
            r == condition_holds(self.sr, condition),
    {
        let n = self.get_flag(FLAG_N);
        let z = self.get_flag(FLAG_Z);
        let v = self.get_flag(FLAG_V);
        let c = self.get_flag(FLAG_C);
        match condition {
            Condition::True => true,
            Condition::False => false,
            Condition::Higher => !c && !z,
            Condition::LowerOrSame => c || z,
            Condition::CarryClear => !c,
            Condition::CarrySet => c,
            Condition::NotEqual => !z,
            Condition::Equal => z,
            Condition::OverflowClear => !v,
            Condition::OverflowSet => v,
            Condition::Plus => !n,
            Condition::Minus => n,
            Condition::GreaterOrEqual => n == v,
            Condition::LessThan => n != v,
            Condition::GreaterThan => !z && (n == v),
            Condition::LessOrEqual => z || (n != v),
        }
    }

    /// Move the program counter forward, saturating at the top of the address range.
    pub fn advance_pc(&mut self, bytes: usize)
        ensures
            final(self)@ == advanced(old(self)@, bytes),
    {
        self.pc = self.pc.saturating_add(bytes);
    }
}

} // verus!
