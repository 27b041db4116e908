//! An interpreter for m68020 Linux user-space programs: decoded instructions
//! are executed against a big-endian guest address space.

pub mod alu;
pub mod alu_laws;
pub mod cpu;
pub mod decoder;
pub mod elf;
pub mod elf_flags;
pub mod error;
pub mod host_consts;
pub mod host_syscalls;
pub mod memory;
