# behistun

An interpreter for m68020 Linux user-space programs. Decoded instructions run
against a big-endian guest address space; system calls are answered by the
interpreter itself where they concern its own state (the program break, anonymous
mappings, thread-local storage, atomic helpers) and carried out on an x86-64 Linux
host otherwise, with the guest's structures translated between the two layouts.

## Layout

- `src/` — the library, verified with Verus.
  - `alu.rs`, `alu_laws.rs` — flag arithmetic, shifts and rotates, BCD, register
    bit fields, and their laws.
  - `memory.rs` — the guest address space as segments of bytes, with reads, writes
    and the search for free ranges.
  - `decoder.rs` — the shape of decoded instructions and operands.
  - `cpu.rs` and `cpu/` — the processor state and one module per instruction family
    (`arith`, `logic`, `shift`, `muldiv`, `bitfield`, `movem`, `atomic`, `bounds`,
    `control`, ...), `execute` dispatching on the instruction, `setup` building the
    initial process image, `syscall` classifying and answering system calls, and the
    modules that move system-call data between guest memory and the host
    (`guest_data`, `guest_structs`, `kernel_structs`, `host_args`, `dirents`,
    `ipc`, `ipc_data`). The `*_laws` modules and `cpu/laws.rs` hold the laws.
    `guards` tests at run time the preconditions of `execute` and `handle_syscall`.
  - `elf.rs` — the guest image of an ELF executable: goblin reads the headers, and
    the loadable segments, the stack and the auxiliary-vector facts are built from
    them.
  - `host_syscalls.rs` — the x86-64 numbers of the system calls passed to the host
    as they are, and the table from m68k numbers to them.
  - `elf_flags.rs`, `host_consts.rs` — the constants taken from goblin and libc.
- `app/` — the `behistun` command: reading the executable, the run loop, and the
  host side of system calls through libc. It runs pre-decoded instructions and has
  no instruction decoder of its own.
- `tests/` — tests of the library.
