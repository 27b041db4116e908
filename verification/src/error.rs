//! The interpreter's error type.

use vstd::prelude::*;

verus! {

/// Why an instruction, a memory access or a set-up step could not be carried out.
#[derive(Clone, Copy, Debug, PartialEq, Eq, Structural)]
pub enum CpuError {
    /// No single memory segment holds all of `[addr, addr + len)`.
    MemoryFault { addr: usize, len: usize },
    /// The memory image has no segment at all.
    NoSegments,
    /// The memory image has no writable segment besides the stack.
    NoWritableSegment,
    /// No segment starts at the recorded stack base.
    StackSegmentNotFound,
    /// No segment starts at the recorded heap base.
    HeapSegmentNotFound,
    /// No segment starts at the given address.
    SegmentNotFound { addr: usize },
    /// The requested thread-local storage would reach into the stack guard.
    TlsOverlapsStack,
    /// An address computation left the representable range.
    AddressOverflow,
    /// An operand lacks the extension data its mode needs.
    MissingExtension,
    /// The addressing mode cannot be used for this access.
    UnsupportedMode,
    /// A divide instruction with a zero divisor.
    DivisionByZero,
    /// CHK2 found the register outside its bounds.
    BoundsCheck,
    /// A bit field would start below address zero.
    BitFieldUnderflow,
    /// The interpreter does not execute this instruction.
    Unimplemented { opcode: u16 },
    /// A TRAP vector other than the system call vector.
    TrapNotImplemented { vector: u8 },
    /// A system call that is known but not provided.
    SyscallNotImplemented { number: u32 },
    /// A system call number that is not known at all.
    UnsupportedSyscall { number: u32 },
    /// A memory mapping backed by a file.
    FileBackedMapping,
    /// No free address range of the requested length.
    NoFreeRange,
    /// A guest string without a terminator within the length limit.
    UnterminatedString { addr: usize },
    /// A guest string array without a terminator within the length limit.
    StringArrayTooLong { addr: usize },
    /// A guest string that is not valid UTF-8.
    InvalidUtf8,
    /// An ipc() sub-call the interpreter does not provide.
    IpcNotImplemented { call: u32 },
    /// An ipc() sub-call number that does not exist.
    UnknownIpcCall { call: u32 },
    /// clone() with a stack of the caller's own.
    CloneStackUnsupported,
    /// The file is not an ELF image goblin can read.
    InvalidElf,
    /// A loadable segment's file contents lie beyond the end of the file.
    SegmentOutsideFile { vaddr: u64 },
    /// A loadable segment is smaller in memory than in the file.
    SegmentTooSmall { vaddr: u64 },
}

} // verus!
