//! What the System V and POSIX IPC calls take from guest memory and hand back to
//! it: control buffers, semaphore arguments, message buffers, queue attributes,
//! and where an attached shared-memory segment goes.

use vstd::prelude::*;

use crate::cpu::kernel_structs::{long_writes, longs_at};
use crate::cpu::Cpu;
use crate::elf_flags::{flag_r, flag_w, pf_r, pf_w};
use crate::error::CpuError;
use crate::host_consts::{ipc_rmid, ipc_set, ipc_stat, shm_rdonly};
use crate::memory::{be_u32, find_cover, free_range_from, mem_read, mem_write, u32_be_bytes, SegmentView};
use crate::cpu::setup::apply_writes;

verus! {

/// Bytes of a control buffer (`shmid_ds`, `msqid_ds`, `semid_ds`) handed to the host.
pub const CTL_BUFFER_LEN: usize = 128;

/// Bytes of a semaphore value array handed to the host.
pub const SEM_ARRAY_LEN: usize = 512;

/// The control buffer `shmctl` and `msgctl` hand to the host: none for IPC_RMID or
/// a null buffer, else the buffer, which one segment must hold.
pub open spec fn ctl_buffer_spec(mem: Seq<SegmentView>, cmd: i32, buf: usize) -> Result<Option<usize>, CpuError> {
    if cmd == 0 || buf == 0 {
        Ok(None)
    } else if find_cover(mem, buf as int, CTL_BUFFER_LEN as int) is Some {
        Ok(Some(buf))
    } else {
        Err(CpuError::MemoryFault { addr: buf, len: CTL_BUFFER_LEN })
    }
}

/// The fourth argument `semctl` hands to the host.
#[derive(Clone, Copy, Debug, PartialEq, Eq, Structural)]
pub enum SemctlArg {
    /// Zero: the command takes no argument.
    Zero,
    /// The value itself (SETVAL).
    Value(i32),
    /// A null `semid_ds` pointer.
    NullBuffer,
    /// A `semid_ds` buffer at this guest address (IPC_STAT, IPC_SET).
    Buffer(usize),
    /// A value array at this guest address (GETALL, SETALL).
    Array(usize),
    /// GETALL or SETALL without an array: the call fails with EINVAL.
    MissingArray,
    /// The argument as it is, for any other command.
    Raw(usize),
}

/// How `semctl` passes its fourth argument for command `cmd`; buffers and arrays must
/// lie in one segment.
pub open spec fn semctl_arg_spec(mem: Seq<SegmentView>, cmd: i32, arg: usize) -> Result<SemctlArg, CpuError> {
    if cmd == 0 {
        Ok(SemctlArg::Zero)
    } else if cmd == 16 {
        Ok(SemctlArg::Value(arg as i32))
    } else if cmd == 12 || cmd == 11 || cmd == 14 || cmd == 15 {
        Ok(SemctlArg::Zero)
    } else if cmd == 2 || cmd == 1 {
        if arg == 0 {
            Ok(SemctlArg::NullBuffer)
        } else if find_cover(mem, arg as int, CTL_BUFFER_LEN as int) is Some {
            Ok(SemctlArg::Buffer(arg))
        } else {
            Err(CpuError::MemoryFault { addr: arg, len: CTL_BUFFER_LEN })
        }
    } else if cmd == 13 || cmd == 17 {
        if arg == 0 {
            Ok(SemctlArg::MissingArray)
        } else if find_cover(mem, arg as int, SEM_ARRAY_LEN as int) is Some {
            Ok(SemctlArg::Array(arg))
        } else {
            Err(CpuError::MemoryFault { addr: arg, len: SEM_ARRAY_LEN })
        }
    } else {
        Ok(SemctlArg::Raw(arg))
    }
}

/// The little-endian (host) bytes of a 64-bit value.
pub open spec fn u64_le_bytes(v: u64) -> Seq<u8> {
    Seq::new(8, |i: int| ((v as int / pow256(i)) % 256) as u8)
}

/// 256 to the power `i`, for `0 <= i < 8`.
pub open spec fn pow256(i: int) -> int {
    if i <= 0 {
        1
    } else if i == 1 {
        0x100
    } else if i == 2 {
        0x1_0000
    } else if i == 3 {
        0x100_0000
    } else if i == 4 {
        0x1_0000_0000
    } else if i == 5 {
        0x100_0000_0000
    } else if i == 6 {
        0x1_0000_0000_0000
    } else {
        0x100_0000_0000_0000
    }
}

/// The host's 64-bit value of the eight little-endian bytes at `i`.
pub open spec fn le_u64_at(b: Seq<u8>, i: int) -> u64 {
    (b[i] as int + b[i + 1] as int * pow256(1) + b[i + 2] as int * pow256(2) + b[i + 3] as int * pow256(3)
        + b[i + 4] as int * pow256(4) + b[i + 5] as int * pow256(5) + b[i + 6] as int * pow256(6) + b[i + 7] as int
        * pow256(7)) as u64
}

/// The host message buffer `msgsnd` sends for the guest message at `msgp` with
/// `msgsz` bytes of text: the guest's 32-bit type widened to the host's 64 bits,
/// then the text.
pub open spec fn msgsnd_buffer_spec(mem: Seq<SegmentView>, msgp: usize, msgsz: usize) -> Result<Seq<u8>, CpuError> {
    match mem_read(mem, msgp as int, 4) {
        None => Err(CpuError::MemoryFault { addr: msgp, len: 4 }),
        Some(t) => {
            let head = u64_le_bytes(be_u32(t) as i32 as i64 as u64);
            if msgsz > 0 {
                match mem_read(mem, msgp + 4, msgsz as int) {
                    None => Err(CpuError::MemoryFault { addr: (msgp + 4) as usize, len: msgsz }),
                    Some(text) => Ok(head + text),
                }
            } else {
                Ok(head)
            }
        },
    }
}

/// The guest memory after `msgrcv` received `res` bytes of text into the host
/// buffer `host`: the type narrowed to 32 bits at `msgp`, then the text after it.
pub open spec fn msgrcv_spec(mem: Seq<SegmentView>, msgp: usize, host: Seq<u8>, res: i64) -> Result<
    Seq<SegmentView>,
    CpuError,
> {
    match mem_write(mem, msgp as int, u32_be_bytes(le_u64_at(host, 0) as i64 as i32 as u32)) {
        None => Err(CpuError::MemoryFault { addr: msgp, len: 4 }),
        Some(m1) => if res > 0 {
            if find_cover(m1, msgp + 4, res as int) is None {
                Err(CpuError::MemoryFault { addr: (msgp + 4) as usize, len: res as usize })
            } else {
                match mem_write(m1, msgp + 4, host.subrange(8, 8 + res)) {
                    Some(m2) => Ok(m2),
                    None => Err(CpuError::MemoryFault { addr: (msgp + 4) as usize, len: res as usize }),
                }
            }
        } else {
            Ok(m1)
        },
    }
}

/// A guest `struct mq_attr` (four longs) as the host's four 64-bit values, each
/// long sign-extended.
pub open spec fn mq_attr_at(mem: Seq<SegmentView>, addr: usize) -> Result<Seq<i64>, CpuError> {
    match longs_at(mem, addr, 4) {
        Err(e) => Err(e),
        Ok(v) => Ok(Seq::new(4, |i: int| v[i] as i32 as i64)),
    }
}

/// The host's `struct mq_attr` as the guest's four longs, each value cut to 32 bits.
pub open spec fn mq_attr_longs(attr: Seq<i64>) -> Seq<u32> {
    Seq::new(4, |i: int| attr[i] as i32 as u32)
}

/// What `mq_open` hands to the host besides the name: without O_CREAT only the
/// flags (`None`); with it the mode and the attributes, read where `attr_addr` is
/// not 0.
pub open spec fn mq_open_spec(mem: Seq<SegmentView>, oflag: i32, attr_addr: usize) -> Result<
    Option<Option<Seq<i64>>>,
    CpuError,
> {
    if oflag & 0x40 == 0 {
        Ok(None)
    } else if attr_addr == 0 {
        Ok(Some(None))
    } else {
        match mq_attr_at(mem, attr_addr) {
            Err(e) => Err(e),
            Ok(a) => Ok(Some(Some(a))),
        }
    }
}

/// Where `shmat` places a segment of `size` bytes and the permission flags it gets:
/// at the hint, or, without one, in the first free range; read-only where the
/// flags ask for it, else readable and writable.
pub open spec fn shmat_placement_spec(mem: Seq<SegmentView>, hint: usize, size: usize, shmflg: i32) -> Result<
    (usize, u32),
    CpuError,
> {
    let flags = if shmflg & 0o10000 != 0 {
        flag_r()
    } else {
        flag_r() | flag_w()
    };
    if hint == 0 {
        match free_range_from(mem, size as int, 0) {
            Some(a) => Ok((a as usize, flags)),
            None => Err(CpuError::NoFreeRange),
        }
    } else {
        Ok((hint, flags))
    }
}

/// The little-endian bytes of `v`, as a vector.
pub(crate) fn le_bytes(v: u64) -> (r: Vec<u8>)
    ensures
        r@ == u64_le_bytes(v),
{
    let r = vec![
        (v % 0x100) as u8,
        ((v / 0x100) % 0x100) as u8,
        ((v / 0x1_0000) % 0x100) as u8,
        ((v / 0x100_0000) % 0x100) as u8,
        ((v / 0x1_0000_0000) % 0x100) as u8,
        ((v / 0x100_0000_0000) % 0x100) as u8,
        ((v / 0x1_0000_0000_0000) % 0x100) as u8,
        ((v / 0x100_0000_0000_0000) % 0x100) as u8,
    ];
    assert(r@ =~= u64_le_bytes(v));
    r
}

impl Cpu {
    /// The control buffer `shmctl` or `msgctl` hands to the host for `cmd` and the
    /// guest buffer `buf`.
    pub fn ctl_buffer(&self, cmd: i32, buf: usize) -> (r: Result<Option<usize>, CpuError>)
        ensures
            r == ctl_buffer_spec(self@.mem, cmd, buf),
    {
        if cmd == ipc_rmid() || buf == 0 {
            Ok(None)
        } else if self.memory.covers_range(buf, CTL_BUFFER_LEN) {
            Ok(Some(buf))
        } else {
            Err(CpuError::MemoryFault { addr: buf, len: CTL_BUFFER_LEN })
        }
    }

    /// How `semctl` passes its fourth argument `arg` for command `cmd`.
    pub fn semctl_arg(&self, cmd: i32, arg: usize) -> (r: Result<SemctlArg, CpuError>)
        ensures
            r == semctl_arg_spec(self@.mem, cmd, arg),
    {
        if cmd == ipc_rmid() {
            return Ok(SemctlArg::Zero);
        }
        if cmd == 16 {
            return Ok(SemctlArg::Value(arg as i32));
        }
        if cmd == 12 || cmd == 11 || cmd == 14 || cmd == 15 {
            return Ok(SemctlArg::Zero);
        }
        if cmd == ipc_stat() || cmd == ipc_set() {
            if arg == 0 {
                return Ok(SemctlArg::NullBuffer);
            }
            if self.memory.covers_range(arg, CTL_BUFFER_LEN) {
                return Ok(SemctlArg::Buffer(arg));
            }
            return Err(CpuError::MemoryFault { addr: arg, len: CTL_BUFFER_LEN });
        }
        if cmd == 13 || cmd == 17 {
            if arg == 0 {
                return Ok(SemctlArg::MissingArray);
            }
            if self.memory.covers_range(arg, SEM_ARRAY_LEN) {
                return Ok(SemctlArg::Array(arg));
            }
            return Err(CpuError::MemoryFault { addr: arg, len: SEM_ARRAY_LEN });
        }
        Ok(SemctlArg::Raw(arg))
    }

    /// The host message buffer for `msgsnd` of the guest message at `msgp` with
    /// `msgsz` bytes of text.
    pub fn msgsnd_buffer(&self, msgp: usize, msgsz: usize) -> (r: Result<Vec<u8>, CpuError>)
        requires
            msgp + 4 <= usize::MAX,
        ensures
            match msgsnd_buffer_spec(self@.mem, msgp, msgsz) {
                Ok(b) => r matches Ok(v) && v@ == b,
                Err(e) => r == Err::<Vec<u8>, CpuError>(e),
            },
    {
        let mtype = self.memory.read_long(msgp)? as i32;
        let mut buf = le_bytes(mtype as i64 as u64);
        if msgsz > 0 {
            let mut text = self.memory.read_data(msgp + 4, msgsz)?;
            let ghost head = buf@;
            let ghost t = text@;
            buf.append(&mut text);
            assert(buf@ =~= head + t);
        }
        Ok(buf)
    }

    /// Store a message `msgrcv` received into the host buffer `host` (`res` bytes of
    /// text after its 8-byte type) at the guest message `msgp`.
    pub fn finish_msgrcv(&mut self, msgp: usize, host: &[u8], res: i64) -> (r: Result<i64, CpuError>)
        requires
            res >= 0,
            host@.len() >= 8 + res,
            msgp + 4 <= usize::MAX,
        ensures
            match msgrcv_spec(old(self)@.mem, msgp, host@, res) {
                Ok(mem) => r == Ok::<i64, CpuError>(res) && final(self)@ == old(self)@.with_mem(mem),
                Err(e) => r == Err::<i64, CpuError>(e),
            },
    {
        let _hl = host.len();
        let v: u64 = (host[0] as u64) + (host[1] as u64) * 0x100 + (host[2] as u64) * 0x1_0000 + (host[3] as u64)
            * 0x100_0000 + (host[4] as u64) * 0x1_0000_0000 + (host[5] as u64) * 0x100_0000_0000 + (host[6] as u64)
            * 0x1_0000_0000_0000 + (host[7] as u64) * 0x100_0000_0000_0000;
        assert(v == le_u64_at(host@, 0));
        let mtype = v as i64 as i32;
        let ghost m0 = self@;
        let tb = crate::cpu::operand::long_to_be_bytes(mtype as u32);
        self.memory.write_data(msgp, &tb)?;
        assert(self@ =~= m0.with_mem(self.memory@));
        if res > 0 {
            let n = res as usize;
            if !self.memory.covers_range(msgp + 4, n) {
                return Err(CpuError::MemoryFault { addr: msgp + 4, len: n });
            }
            let text = vstd::slice::slice_subrange(host, 8, 8 + n);
            let ghost m1 = self@;
            self.memory.write_data(msgp + 4, text)?;
            assert(text@ =~= host@.subrange(8, 8 + res));
            assert(self@ =~= m1.with_mem(self.memory@));
        }
        Ok(res)
    }

    /// Read the guest `struct mq_attr` at `addr` as the host's four values.
    pub fn read_mq_attr(&self, addr: usize) -> (r: Result<Vec<i64>, CpuError>)
        requires
            addr + 16 <= usize::MAX,
        ensures
            match mq_attr_at(self@.mem, addr) {
                Ok(a) => r matches Ok(v) && v@ == a,
                Err(e) => r == Err::<Vec<i64>, CpuError>(e),
            },
    {
        let v = self.read_longs(addr, 4)?;
        proof {
            crate::cpu::kernel_structs::lemma_longs_at_len(self@.mem, addr, 4);
        }
        let a = vec![v[0] as i32 as i64, v[1] as i32 as i64, v[2] as i32 as i64, v[3] as i32 as i64];
        assert(a@ =~= Seq::new(4, |i: int| v@[i] as i32 as i64));
        Ok(a)
    }

    /// What `mq_open` hands to the host for flags `oflag` and the attributes at
    /// `attr_addr`.
    pub fn mq_open_attr(&self, oflag: i32, attr_addr: usize) -> (r: Result<Option<Option<Vec<i64>>>, CpuError>)
        requires
            attr_addr + 16 <= usize::MAX,
        ensures
            match mq_open_spec(self@.mem, oflag, attr_addr) {
                Ok(None) => r matches Ok(None),
                Ok(Some(None)) => r matches Ok(Some(None)),
                Ok(Some(Some(a))) => r matches Ok(Some(Some(v))) && v@ == a,
                Err(e) => r == Err::<Option<Option<Vec<i64>>>, CpuError>(e),
            },
    {
        if oflag & 0x40 == 0 {
            Ok(None)
        } else if attr_addr == 0 {
            Ok(Some(None))
        } else {
            let a = self.read_mq_attr(attr_addr)?;
            Ok(Some(Some(a)))
        }
    }

    /// Store the host's `struct mq_attr` at `addr` as the guest's four longs.
    pub fn write_mq_attr(&mut self, addr: usize, attr: &Vec<i64>) -> (r: Result<(), CpuError>)
        requires
            addr + 16 <= usize::MAX,
            attr@.len() == 4,
        ensures
            match apply_writes(old(self)@.mem, long_writes(addr as int, mq_attr_longs(attr@))) {
                Ok(mem) => r is Ok && final(self)@ == old(self)@.with_mem(mem),
                Err(e) => r == Err::<(), CpuError>(e),
            },
    {
        let vals = vec![attr[0] as i32 as u32, attr[1] as i32 as u32, attr[2] as i32 as u32, attr[3] as i32 as u32];
        assert(vals@ =~= mq_attr_longs(attr@));
        self.write_longs(addr, &vals)
    }

    /// Where `shmat` places a segment of `size` bytes, and its permission flags.
    pub fn shmat_placement(&self, hint: usize, size: usize, shmflg: i32) -> (r: Result<(usize, u32), CpuError>)
        ensures
            r == shmat_placement_spec(self@.mem, hint, size, shmflg),
    {
        let flags = if shmflg & shm_rdonly() != 0 {
            pf_r()
        } else {
            pf_r() | pf_w()
        };
        if hint == 0 {
            match self.memory.find_free_range(size) {
                Some(a) => Ok((a, flags)),
                None => Err(CpuError::NoFreeRange),
            }
        } else {
            Ok((hint, flags))
        }
    }
}

} // verus!
