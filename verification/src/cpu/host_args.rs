//! Arguments of host calls that sit in guest memory (I/O vectors, `pollfd` arrays,
//! message headers), read and checked, and what the host reports written back.

use vstd::prelude::*;

use crate::cpu::guest_data::open_flags_spec;
use crate::cpu::ipc_data::{le_bytes, u64_le_bytes};
use crate::cpu::kernel_structs::{llseek_offset_spec, long_writes, longs_at, time_pair_at, u64_longs};
use crate::cpu::setup::{apply_writes, write_all, writes_view};
use crate::cpu::guest_structs::word_bytes;
use crate::cpu::Cpu;
use crate::error::CpuError;
use crate::memory::{be_u16, be_u32, find_cover, mem_read, u16_be_bytes, SegmentView};

verus! {

/// One guest `struct iovec`: a buffer address and its length.
#[derive(Clone, Copy, Debug, PartialEq, Eq, Structural)]
pub struct IoVec {
    pub base: usize,
    pub len: usize,
}

/// The buffer `[addr, addr + len)` can be handed to the host: it is empty, or one
/// segment holds it.
pub open spec fn buffer_ok(mem: Seq<SegmentView>, addr: usize, len: usize) -> bool {
    len == 0 || find_cover(mem, addr as int, len as int) is Some
}

/// The first `k` entries of the guest `iovec` array at `addr` (two longs each), each
/// buffer checked; the first entry that cannot be read, or whose buffer no segment
/// holds, is the error.
pub open spec fn iovecs_at(mem: Seq<SegmentView>, addr: usize, k: nat) -> Result<Seq<IoVec>, CpuError>
    decreases k,
{
    if k == 0 {
        Ok(Seq::empty())
    } else {
        match iovecs_at(mem, addr, (k - 1) as nat) {
            Err(e) => Err(e),
            Ok(s) => {
                let e = addr + 8 * (k - 1);
                match mem_read(mem, e, 4) {
                    None => Err(CpuError::MemoryFault { addr: e as usize, len: 4 }),
                    Some(b) => match mem_read(mem, e + 4, 4) {
                        None => Err(CpuError::MemoryFault { addr: (e + 4) as usize, len: 4 }),
                        Some(l) => {
                            let v = IoVec { base: be_u32(b) as usize, len: be_u32(l) as usize };
                            if buffer_ok(mem, v.base, v.len) {
                                Ok(s.push(v))
                            } else {
                                Err(CpuError::MemoryFault { addr: v.base, len: v.len })
                            }
                        },
                    },
                }
            },
        }
    }
}

/// One guest `struct pollfd`: the descriptor and the events asked for.
#[derive(Clone, Copy, Debug, PartialEq, Eq, Structural)]
pub struct PollFd {
    pub fd: i32,
    pub events: i16,
}

/// The first `k` entries of the guest `pollfd` array at `addr` (8 bytes each: a long
/// descriptor, a word of events, a word of returned events).
pub open spec fn pollfds_at(mem: Seq<SegmentView>, addr: usize, k: nat) -> Result<Seq<PollFd>, CpuError>
    decreases k,
{
    if k == 0 {
        Ok(Seq::empty())
    } else {
        match pollfds_at(mem, addr, (k - 1) as nat) {
            Err(e) => Err(e),
            Ok(s) => {
                let e = addr + 8 * (k - 1);
                match mem_read(mem, e, 4) {
                    None => Err(CpuError::MemoryFault { addr: e as usize, len: 4 }),
                    Some(b) => match mem_read(mem, e + 4, 2) {
                        None => Err(CpuError::MemoryFault { addr: (e + 4) as usize, len: 2 }),
                        Some(w) => Ok(s.push(PollFd { fd: be_u32(b) as i32, events: be_u16(w) as i16 })),
                    },
                }
            },
        }
    }
}

/// The writes that store each returned-events word into its `pollfd` entry.
pub open spec fn revents_writes(addr: int, revents: Seq<i16>) -> Seq<(int, Seq<u8>)> {
    Seq::new(revents.len(), |i: int| (addr + 8 * i + 6, u16_be_bytes(revents[i] as u16)))
}

/// A guest `struct msghdr`, without its flags.
#[derive(Clone, Copy, Debug, PartialEq, Eq, Structural)]
pub struct MsgHdr {
    pub name: usize,
    pub namelen: u32,
    pub iov: usize,
    pub iovlen: usize,
    pub control: usize,
    pub controllen: usize,
}

/// The message header at `addr` as six longs.
pub open spec fn msghdr_of(v: Seq<u32>) -> MsgHdr {
    MsgHdr {
        name: v[0] as usize,
        namelen: v[1],
        iov: v[2] as usize,
        iovlen: v[3] as usize,
        control: v[4] as usize,
        controllen: v[5] as usize,
    }
}

/// What `sendmsg` and `recvmsg` take from the header at `addr`: the header, its I/O
/// vectors (an array that would end past the address space is an overflow), and the checks that the address and control buffers (where given) lie
/// in one segment each.
pub open spec fn message_at(mem: Seq<SegmentView>, addr: usize) -> Result<(MsgHdr, Seq<IoVec>), CpuError> {
    match longs_at(mem, addr, 6) {
        Err(e) => Err(e),
        Ok(v) => {
            let h = msghdr_of(v);
            match (if h.iovlen > 0 && h.iov + 8 * h.iovlen > usize::MAX {
                Err(CpuError::AddressOverflow)
            } else if h.iovlen > 0 {
                iovecs_at(mem, h.iov, h.iovlen as nat)
            } else {
                Ok(Seq::empty())
            }) {
                Err(e) => Err(e),
                Ok(iov) => if h.name != 0 && h.namelen > 0 && find_cover(mem, h.name as int, h.namelen as int) is None {
                    Err(CpuError::MemoryFault { addr: h.name, len: h.namelen as usize })
                } else if h.control != 0 && h.controllen > 0 && find_cover(
                    mem,
                    h.control as int,
                    h.controllen as int,
                ) is None {
                    Err(CpuError::MemoryFault { addr: h.control, len: h.controllen })
                } else {
                    Ok((h, iov))
                },
            }
        },
    }
}


/// What `futex` takes from guest memory besides its registers.
#[derive(Clone, Copy, Debug)]
pub struct FutexArgs {
    /// The timeout (seconds, nanoseconds), where one is given.
    pub timeout: Option<(i64, i64)>,
    /// The sixth argument, from the top of the stack.
    pub val3: i32,
}

/// The sixth `futex` argument: the long at the stack pointer, or 0 where the stack
/// pointer is 0 or the long cannot be read.
pub open spec fn futex_val3(mem: Seq<SegmentView>, sp: u32) -> i32 {
    if sp != 0 {
        match mem_read(mem, sp as int, 4) {
            Some(b) => be_u32(b) as i32,
            None => 0,
        }
    } else {
        0
    }
}

/// The checks and reads of `futex`: the futex word must lie in one segment, the
/// timeout (where given) is read, and the second futex word (where given) must lie
/// in one segment.
pub open spec fn futex_args_spec(mem: Seq<SegmentView>, sp: u32, uaddr: usize, timeout_addr: usize, uaddr2: usize) -> Result<
    FutexArgs,
    CpuError,
> {
    if find_cover(mem, uaddr as int, 4) is None {
        Err(CpuError::MemoryFault { addr: uaddr, len: 4 })
    } else {
        match (if timeout_addr != 0 {
            match time_pair_at(mem, timeout_addr) {
                Ok(p) => Ok(Some((p.0, p.1 as i64))),
                Err(e) => Err(e),
            }
        } else {
            Ok(None)
        }) {
            Err(e) => Err(e),
            Ok(timeout) => if uaddr2 != 0 && find_cover(mem, uaddr2 as int, 4) is None {
                Err(CpuError::MemoryFault { addr: uaddr2, len: 4 })
            } else {
                Ok(FutexArgs { timeout, val3: futex_val3(mem, sp) })
            },
        }
    }
}

/// The checks of `clone`: the parent and child thread-id words (where given) must
/// lie in one segment each, and a stack of the caller's own is not supported.
pub open spec fn clone_check_spec(mem: Seq<SegmentView>, stack: usize, parent_tid: usize, child_tid: usize) -> Result<
    (),
    CpuError,
> {
    if parent_tid != 0 && find_cover(mem, parent_tid as int, 4) is None {
        Err(CpuError::MemoryFault { addr: parent_tid, len: 4 })
    } else if child_tid != 0 && find_cover(mem, child_tid as int, 4) is None {
        Err(CpuError::MemoryFault { addr: child_tid, len: 4 })
    } else if stack != 0 {
        Err(CpuError::CloneStackUnsupported)
    } else {
        Ok(())
    }
}

/// The version of the capability interface that has a single data block.
pub open spec fn cap_version_1() -> u32 {
    0x19980330
}

/// The number of capability data blocks (three longs each) a header version uses.
pub open spec fn cap_blocks(version: u32) -> nat {
    if version == cap_version_1() {
        1
    } else {
        2
    }
}

/// The capability data `capset` hands to the host: the blocks that the version uses,
/// read from `datap` where it is not 0, the rest zero.
pub open spec fn cap_data_at(mem: Seq<SegmentView>, datap: usize, version: u32) -> Result<Seq<u32>, CpuError> {
    if datap == 0 {
        Ok(Seq::new(6, |_i: int| 0u32))
    } else {
        match longs_at(mem, datap, 3 * cap_blocks(version)) {
            Err(e) => Err(e),
            Ok(s) => Ok(s + Seq::new((6 - 3 * cap_blocks(version)) as nat, |_i: int| 0u32)),
        }
    }
}

/// The writes of `capget` once the host answered: the header (as the host left it)
/// always, and the blocks the version asked for when the call succeeded and `datap`
/// is not 0.
pub open spec fn capget_writes(hdrp: usize, version: u32, pid: i32, result: i64, datap: usize, asked: u32, data: Seq<u32>) -> Seq<
    (int, Seq<u8>),
> {
    long_writes(hdrp as int, seq![version, pid as u32]) + if result >= 0 && datap != 0 {
        long_writes(datap as int, data.take((3 * cap_blocks(asked)) as int))
    } else {
        Seq::empty()
    }
}

/// The bytes of the path `/proc/self/exe`.
pub open spec fn proc_self_exe() -> Seq<u8> {
    seq![47u8, 112, 114, 111, 99, 47, 115, 101, 108, 102, 47, 101, 120, 101]
}

/// Whether `path` names `/proc/self/exe`.
fn is_proc_self_exe(path: &[u8]) -> (r: bool)
    ensures
        r == (path@ == proc_self_exe()),
{
    let want: Vec<u8> = vec![47u8, 112, 114, 111, 99, 47, 115, 101, 108, 102, 47, 101, 120, 101];
    assert(want@ =~= proc_self_exe());
    if path.len() != want.len() {
        return false;
    }
    let mut i: usize = 0;
    while i < want.len()
        invariant
            i <= want@.len(),
            path@.len() == want@.len(),
            want@ == proc_self_exe(),
            forall|j: int| 0 <= j < i ==> path@[j] == want@[j],
        decreases want.len() - i,
    {
        if path[i] != want[i] {
            assert(path@[i as int] != proc_self_exe()[i as int]);
            return false;
        }
        i = i + 1;
    }
    assert(path@ =~= want@);
    true
}

/// The big-endian 64-bit value at `addr`, read as two longs, high first.
pub open spec fn quad_at(mem: Seq<SegmentView>, addr: usize) -> Result<u64, CpuError> {
    match mem_read(mem, addr as int, 4) {
        None => Err(CpuError::MemoryFault { addr, len: 4 }),
        Some(h) => match mem_read(mem, addr + 4, 4) {
            None => Err(CpuError::MemoryFault { addr: (addr + 4) as usize, len: 4 }),
            Some(l) => Ok((be_u32(h) as int * 0x1_0000_0000 + be_u32(l) as int) as u64),
        },
    }
}

/// What `openat2` hands to the host from the guest `struct open_how` at `addr` of
/// `size` bytes: `None` where `size` is below the structure's 24 bytes (the call then
/// fails with EINVAL), else the flags translated to the host's, the mode and the
/// resolve flags.
pub open spec fn open_how_spec(mem: Seq<SegmentView>, addr: usize, size: usize) -> Result<Option<(u64, u64, u64)>, CpuError> {
    if size < 24 {
        Ok(None)
    } else {
        match quad_at(mem, addr) {
            Err(e) => Err(e),
            Ok(f) => match quad_at(mem, (addr + 8) as usize) {
                Err(e) => Err(e),
                Ok(m) => match quad_at(mem, (addr + 16) as usize) {
                    Err(e) => Err(e),
                    Ok(r) => Ok(Some((open_flags_spec(f as i32) as u64, m, r))),
                },
            },
        }
    }
}

/// The `struct mount_attr` that `open_tree_attr` hands to the host.
#[derive(Clone, Copy, Debug, PartialEq, Eq, Structural)]
pub enum MountAttrArg {
    /// No attributes: a null pointer or a size of 0.
    Absent,
    /// A size below the structure's 32 bytes: the call fails with EINVAL.
    TooSmall,
    /// The four fields: set, clear, propagation, user-namespace descriptor.
    Fields(u64, u64, u64, u64),
}

/// The `struct mount_attr` at `addr` of `size` bytes, as `open_tree_attr` passes it.
pub open spec fn mount_attr_spec(mem: Seq<SegmentView>, addr: usize, size: usize) -> Result<MountAttrArg, CpuError> {
    if addr == 0 || size == 0 {
        Ok(MountAttrArg::Absent)
    } else if size < 32 {
        Ok(MountAttrArg::TooSmall)
    } else {
        match quad_at(mem, addr) {
            Err(e) => Err(e),
            Ok(a) => match quad_at(mem, (addr + 8) as usize) {
                Err(e) => Err(e),
                Ok(b) => match quad_at(mem, (addr + 16) as usize) {
                    Err(e) => Err(e),
                    Ok(c) => match quad_at(mem, (addr + 24) as usize) {
                        Err(e) => Err(e),
                        Ok(d) => Ok(MountAttrArg::Fields(a, b, c, d)),
                    },
                },
            },
        }
    }
}

/// `n` zero bytes.
pub open spec fn zeros(n: int) -> Seq<u8> {
    Seq::new(n as nat, |_i: int| 0u8)
}

/// The host buffer `landlock_create_ruleset` gets for the guest attributes at `addr`
/// of `size` bytes: none where `addr` or `size` is 0; else the handled file-system
/// and network access masks (each read where `size` covers it, else 0) in host byte
/// order, cut to `size` bytes and zero-filled after the first 16. The bytes read
/// must lie in one segment.
pub open spec fn ruleset_attr_spec(mem: Seq<SegmentView>, addr: usize, size: usize) -> Result<Option<Seq<u8>>, CpuError> {
    if addr == 0 || size == 0 {
        Ok(None)
    } else {
        let copy_len = if size < 16 {
            size as int
        } else {
            16
        };
        if find_cover(mem, addr as int, copy_len) is None {
            Err(CpuError::MemoryFault { addr, len: copy_len as usize })
        } else {
            match (if size >= 8 {
                quad_at(mem, addr)
            } else {
                Ok(0u64)
            }) {
                Err(e) => Err(e),
                Ok(fs) => match (if size >= 16 {
                    quad_at(mem, (addr + 8) as usize)
                } else {
                    Ok(0u64)
                }) {
                    Err(e) => Err(e),
                    Ok(net) => {
                        let fields = u64_le_bytes(fs) + if size >= 16 {
                            u64_le_bytes(net)
                        } else {
                            zeros(8)
                        };
                        Ok(Some(fields.take(copy_len) + zeros(size - copy_len)))
                    },
                },
            }
        }
    }
}

/// The rule `landlock_add_rule` hands to the host for the guest attributes at
/// `addr`: `None` for a null pointer; `Some(None)` for a rule type other than a path
/// (1) or a network port (2), which fails with EINVAL; else the 16 bytes of the
/// host's structure: the access mask and the parent descriptor (padded) or the
/// port, in host byte order. The guest structure must lie in one segment.
pub open spec fn landlock_rule_spec(mem: Seq<SegmentView>, rule_type: u32, addr: usize) -> Result<
    Option<Option<Seq<u8>>>,
    CpuError,
> {
    if addr == 0 {
        Ok(None)
    } else if rule_type == 1 {
        if find_cover(mem, addr as int, 12) is None {
            Err(CpuError::MemoryFault { addr, len: 12 })
        } else {
            match quad_at(mem, addr) {
                Err(e) => Err(e),
                Ok(access) => match mem_read(mem, addr + 8, 4) {
                    None => Err(CpuError::MemoryFault { addr: (addr + 8) as usize, len: 4 }),
                    Some(fd) => Ok(
                        Some(Some(u64_le_bytes(access) + u64_le_bytes(be_u32(fd) as u64).take(4) + zeros(4))),
                    ),
                },
            }
        }
    } else if rule_type == 2 {
        if find_cover(mem, addr as int, 16) is None {
            Err(CpuError::MemoryFault { addr, len: 16 })
        } else {
            match quad_at(mem, addr) {
                Err(e) => Err(e),
                Ok(access) => match quad_at(mem, (addr + 8) as usize) {
                    Err(e) => Err(e),
                    Ok(port) => Ok(Some(Some(u64_le_bytes(access) + u64_le_bytes(port)))),
                },
            }
        }
    } else {
        Ok(Some(None))
    }
}

/// The rule `landlock_add_rule` hands to the host.
#[derive(Clone, Debug)]
pub enum LandlockRule {
    /// A null rule pointer.
    Absent,
    /// A rule type the interpreter does not know: the call fails with EINVAL.
    UnknownType,
    /// The host's 16-byte rule structure.
    Bytes(Vec<u8>),
}

/// A 64-bit file offset stored at `addr` as two longs, high first; 0 where `addr` is 0.
pub open spec fn loff_at(mem: Seq<SegmentView>, addr: usize) -> Result<i64, CpuError> {
    if addr == 0 {
        Ok(0)
    } else {
        match longs_at(mem, addr, 2) {
            Err(e) => Err(e),
            Ok(v) => Ok(llseek_offset_spec(v[0], v[1])),
        }
    }
}

/// The writes `splice` makes once it moved data: each offset it was given back in its
/// place, two longs, high first.
pub open spec fn splice_writes(result: i64, off_in_addr: usize, off_in: i64, off_out_addr: usize, off_out: i64) -> Seq<
    (int, Seq<u8>),
> {
    if result >= 0 {
        (if off_in_addr != 0 {
            long_writes(off_in_addr as int, u64_longs(off_in as u64))
        } else {
            Seq::empty()
        }) + (if off_out_addr != 0 {
            long_writes(off_out_addr as int, u64_longs(off_out as u64))
        } else {
            Seq::empty()
        })
    } else {
        Seq::empty()
    }
}

/// Once reading an entry fails, reading more entries fails the same way.
proof fn lemma_iovecs_err_extends(mem: Seq<SegmentView>, addr: usize, k: nat, n: nat)
    requires
        k <= n,
        iovecs_at(mem, addr, k) is Err,
    ensures
        iovecs_at(mem, addr, n) == iovecs_at(mem, addr, k),
    decreases n - k,
{
    if k < n {
        lemma_iovecs_err_extends(mem, addr, k, (n - 1) as nat);
    }
}

/// Once reading an entry fails, reading more entries fails the same way.
proof fn lemma_pollfds_err_extends(mem: Seq<SegmentView>, addr: usize, k: nat, n: nat)
    requires
        k <= n,
        pollfds_at(mem, addr, k) is Err,
    ensures
        pollfds_at(mem, addr, n) == pollfds_at(mem, addr, k),
    decreases n - k,
{
    if k < n {
        lemma_pollfds_err_extends(mem, addr, k, (n - 1) as nat);
    }
}

/// What `longs_at` reads holds `k` longs.
proof fn lemma_longs_len(mem: Seq<SegmentView>, addr: usize, k: nat)
    ensures
        longs_at(mem, addr, k) matches Ok(s) ==> s.len() == k,
    decreases k,
{
    if k > 0 {
        lemma_longs_len(mem, addr, (k - 1) as nat);
    }
}

impl Cpu {
    /// Read and check what `futex` takes from guest memory: the futex word at `uaddr`,
    /// the timeout at `timeout_addr` (where not 0), the second word at `uaddr2`
    /// (where not 0), and the sixth argument on the stack.
    pub fn check_futex(&self, uaddr: usize, timeout_addr: usize, uaddr2: usize) -> (r: Result<FutexArgs, CpuError>)
        requires
            timeout_addr + 12 <= usize::MAX,
        ensures
            r == futex_args_spec(self@.mem, self@.a[7], uaddr, timeout_addr, uaddr2),
    {
        let sp = self.addr_regs[7] as usize;
        let val3 = if sp != 0 {
            match self.memory.read_long(sp) {
                Ok(v) => v as i32,
                Err(_) => 0,
            }
        } else {
            0
        };
        if !self.memory.covers_range(uaddr, 4) {
            return Err(CpuError::MemoryFault { addr: uaddr, len: 4 });
        }
        let timeout = if timeout_addr != 0 {
            let (sec, nsec) = self.read_time_pair(timeout_addr)?;
            Some((sec, nsec as i64))
        } else {
            None
        };
        if uaddr2 != 0 && !self.memory.covers_range(uaddr2, 4) {
            return Err(CpuError::MemoryFault { addr: uaddr2, len: 4 });
        }
        Ok(FutexArgs { timeout, val3 })
    }

    /// Check what `clone` takes from guest memory: the thread-id words at
    /// `parent_tid` and `child_tid` (where not 0); a stack of the caller's own is
    /// refused.
    pub fn check_clone(&self, stack: usize, parent_tid: usize, child_tid: usize) -> (r: Result<(), CpuError>)
        ensures
            r == clone_check_spec(self@.mem, stack, parent_tid, child_tid),
    {
        if parent_tid != 0 && !self.memory.covers_range(parent_tid, 4) {
            return Err(CpuError::MemoryFault { addr: parent_tid, len: 4 });
        }
        if child_tid != 0 && !self.memory.covers_range(child_tid, 4) {
            return Err(CpuError::MemoryFault { addr: child_tid, len: 4 });
        }
        if stack != 0 {
            return Err(CpuError::CloneStackUnsupported);
        }
        Ok(())
    }

    /// The number of capability data blocks a header version uses.
    pub fn cap_data_count(version: u32) -> (r: usize)
        ensures
            r == cap_blocks(version),
    {
        if version == 0x19980330 {
            1
        } else {
            2
        }
    }

    /// Read the capability header (version, pid) at `hdrp`; `None` where `hdrp` is 0
    /// (the call then fails with EFAULT).
    pub fn read_cap_header(&self, hdrp: usize) -> (r: Result<Option<(u32, i32)>, CpuError>)
        requires
            hdrp + 8 <= usize::MAX,
        ensures
            hdrp == 0 ==> r == Ok::<Option<(u32, i32)>, CpuError>(None),
            hdrp != 0 ==> match longs_at(self@.mem, hdrp, 2) {
                Ok(s) => r == Ok::<Option<(u32, i32)>, CpuError>(Some((s[0], s[1] as i32))),
                Err(e) => r == Err::<Option<(u32, i32)>, CpuError>(e),
            },
    {
        if hdrp == 0 {
            return Ok(None);
        }
        let v = self.read_longs(hdrp, 2)?;
        proof {
            lemma_longs_len(self@.mem, hdrp, 2);
        }
        Ok(Some((v[0], v[1] as i32)))
    }

    /// Read the capability data that `capset` hands to the host.
    pub fn read_cap_data(&self, datap: usize, version: u32) -> (r: Result<Vec<u32>, CpuError>)
        requires
            datap + 24 <= usize::MAX,
        ensures
            match cap_data_at(self@.mem, datap, version) {
                Ok(s) => r matches Ok(v) && v@ == s,
                Err(e) => r == Err::<Vec<u32>, CpuError>(e),
            },
    {
        let mut data: Vec<u32> = Vec::new();
        let n = Self::cap_data_count(version) * 3;
        if datap != 0 {
            data = self.read_longs(datap, n)?;
            proof {
                lemma_longs_len(self@.mem, datap, n as nat);
            }
        }
        let ghost read = data@;
        let start = data.len();
        let mut i = start;
        while i < 6
            invariant
                start <= i <= 6,
                data@ == read + Seq::new((i - start) as nat, |_j: int| 0u32),
            decreases 6 - i,
        {
            data.push(0);
            assert(data@ =~= read + Seq::new((i + 1 - start) as nat, |_j: int| 0u32));
            i = i + 1;
        }
        proof {
            if datap == 0 {
                assert(data@ =~= Seq::new(6, |_i: int| 0u32));
            }
        }
        Ok(data)
    }

    /// Store what `capget` reports: the header the host left (version, pid) at
    /// `hdrp`, and, when the call succeeded and `datap` is not 0, the data blocks
    /// that the version first asked for (`asked`) at `datap`.
    pub fn finish_capget(
        &mut self,
        hdrp: usize,
        version: u32,
        pid: i32,
        result: i64,
        datap: usize,
        asked: u32,
        data: &Vec<u32>,
    ) -> (r: Result<(), CpuError>)
        requires
            hdrp + 8 <= usize::MAX,
            datap + 24 <= usize::MAX,
            data@.len() == 6,
        ensures
            match apply_writes(old(self)@.mem, capget_writes(hdrp, version, pid, result, datap, asked, data@)) {
                Ok(mem) => r is Ok && final(self)@ == old(self)@.with_mem(mem),
                Err(e) => r == Err::<(), CpuError>(e),
            },
    {
        let mut w: Vec<(usize, Vec<u8>)> = Vec::new();
        w.push((hdrp, crate::cpu::setup::long_bytes(version)));
        w.push((hdrp + 4, crate::cpu::setup::long_bytes(pid as u32)));
        let ghost head = writes_view(w@);
        assert(head =~= long_writes(hdrp as int, seq![version, pid as u32]));
        if result >= 0 && datap != 0 {
            let n = Self::cap_data_count(asked) * 3;
            let mut i: usize = 0;
            while i < n
                invariant
                    i <= n,
                    n == 3 * cap_blocks(asked),
                    data@.len() == 6,
                    datap + 24 <= usize::MAX,
                    writes_view(w@) == head + long_writes(datap as int, data@.take(n as int)).take(i as int),
                decreases n - i,
            {
                let ghost before = writes_view(w@);
                w.push((datap + 4 * i, crate::cpu::setup::long_bytes(data[i])));
                assert(writes_view(w@) =~= head + long_writes(datap as int, data@.take(n as int)).take(i + 1)) by {
                    assert(writes_view(w@) =~= before.push(
                        ((datap + 4 * i) as int, crate::memory::u32_be_bytes(data@[i as int])),
                    ));
                }
                i = i + 1;
            }
            assert(long_writes(datap as int, data@.take(n as int)).take(n as int) =~= long_writes(
                datap as int,
                data@.take(n as int),
            ));
        } else {
            assert(writes_view(w@) =~= head + Seq::<(int, Seq<u8>)>::empty());
        }
        let ghost m0 = self@;
        let r = write_all(&mut self.memory, &w);
        proof {
            match apply_writes(m0.mem, writes_view(w@)) {
                Ok(mem) => {
                    assert(self@ =~= m0.with_mem(mem));
                },
                Err(_) => {},
            }
        }
        r
    }

    /// `readlink` of `/proc/self/exe` answers with the guest program's own path
    /// (`exe`), cut to `size` bytes and stored at `buf`; other paths are left to the
    /// host (`None`). The buffer must lie in one segment either way.
    pub fn readlink_self_exe(&mut self, path: &[u8], exe: &[u8], buf: usize, size: usize) -> (r: Result<
        Option<i64>,
        CpuError,
    >)
        requires
            exe@.len() <= i64::MAX,
        ensures
            find_cover(old(self)@.mem, buf as int, size as int) is None ==> r == Err::<Option<i64>, CpuError>(
                CpuError::MemoryFault { addr: buf, len: size },
            ),
            find_cover(old(self)@.mem, buf as int, size as int) is Some && path@ != proc_self_exe() ==> r == Ok::<
                Option<i64>,
                CpuError,
            >(None) && final(self)@ == old(self)@,
            find_cover(old(self)@.mem, buf as int, size as int) is Some && path@ == proc_self_exe() ==> ({
                let n = if exe@.len() < size {
                    exe@.len() as int
                } else {
                    size as int
                };
                match crate::memory::mem_write(old(self)@.mem, buf as int, exe@.take(n)) {
                    Some(mem) => r == Ok::<Option<i64>, CpuError>(Some(n as i64)) && final(self)@ == old(
                        self,
                    )@.with_mem(mem),
                    None => r == Err::<Option<i64>, CpuError>(CpuError::MemoryFault { addr: buf, len: n as usize }),
                }
            }),
    {
        if !self.memory.covers_range(buf, size) {
            return Err(CpuError::MemoryFault { addr: buf, len: size });
        }
        if !is_proc_self_exe(path) {
            return Ok(None);
        }
        let n = if exe.len() < size {
            exe.len()
        } else {
            size
        };
        let bytes = vstd::slice::slice_subrange(exe, 0, n);
        assert(bytes@ =~= exe@.take(n as int));
        let ghost m0 = self@;
        self.memory.write_data(buf, bytes)?;
        assert(self@ =~= m0.with_mem(self.memory@));
        Ok(Some(n as i64))
    }

    /// Check that one segment holds `[addr, addr + len)`, as a pointer the host will
    /// use directly must.
    pub fn check_buffer(&self, addr: usize, len: usize) -> (r: Result<(), CpuError>)
        ensures
            find_cover(self@.mem, addr as int, len as int) is Some ==> r is Ok,
            find_cover(self@.mem, addr as int, len as int) is None ==> r == Err::<(), CpuError>(
                CpuError::MemoryFault { addr, len },
            ),
    {
        if self.memory.covers_range(addr, len) {
            Ok(())
        } else {
            Err(CpuError::MemoryFault { addr, len })
        }
    }

    /// Read the big-endian 64-bit value at `addr` (two longs, high first).
    fn read_quad(&self, addr: usize) -> (r: Result<u64, CpuError>)
        requires
            addr + 8 <= usize::MAX,
        ensures
            r == quad_at(self@.mem, addr),
    {
        self.read_u64_be(addr)
    }

    /// What `openat2` hands to the host from the `struct open_how` at `how_addr` of
    /// `size` bytes.
    pub fn read_open_how(&self, how_addr: usize, size: usize) -> (r: Result<Option<(u64, u64, u64)>, CpuError>)
        requires
            how_addr + 24 <= usize::MAX,
        ensures
            r == open_how_spec(self@.mem, how_addr, size),
    {
        if size < 24 {
            return Ok(None);
        }
        let flags = self.read_quad(how_addr)?;
        let mode = self.read_quad(how_addr + 8)?;
        let resolve = self.read_quad(how_addr + 16)?;
        let host_flags = Self::translate_open_flags(flags as i32) as u64;
        Ok(Some((host_flags, mode, resolve)))
    }

    /// The `struct mount_attr` that `open_tree_attr` hands to the host for the
    /// attributes at `attr_addr` of `size` bytes.
    pub fn read_mount_attr(&self, attr_addr: usize, size: usize) -> (r: Result<MountAttrArg, CpuError>)
        requires
            attr_addr + 32 <= usize::MAX,
        ensures
            r == mount_attr_spec(self@.mem, attr_addr, size),
    {
        if attr_addr == 0 || size == 0 {
            return Ok(MountAttrArg::Absent);
        }
        if size < 32 {
            return Ok(MountAttrArg::TooSmall);
        }
        let a = self.read_quad(attr_addr)?;
        let b = self.read_quad(attr_addr + 8)?;
        let c = self.read_quad(attr_addr + 16)?;
        let d = self.read_quad(attr_addr + 24)?;
        Ok(MountAttrArg::Fields(a, b, c, d))
    }

    /// The host buffer `landlock_create_ruleset` gets for the attributes at
    /// `attr_addr` of `size` bytes.
    pub fn ruleset_attr(&self, attr_addr: usize, size: usize) -> (r: Result<Option<Vec<u8>>, CpuError>)
        requires
            attr_addr + 16 <= usize::MAX,
        ensures
            match ruleset_attr_spec(self@.mem, attr_addr, size) {
                Ok(None) => r matches Ok(None),
                Ok(Some(b)) => r matches Ok(Some(v)) && v@ == b,
                Err(e) => r == Err::<Option<Vec<u8>>, CpuError>(e),
            },
    {
        if attr_addr == 0 || size == 0 {
            return Ok(None);
        }
        let copy_len = if size < 16 {
            size
        } else {
            16
        };
        if !self.memory.covers_range(attr_addr, copy_len) {
            return Err(CpuError::MemoryFault { addr: attr_addr, len: copy_len });
        }
        let fs = if size >= 8 {
            self.read_quad(attr_addr)?
        } else {
            0
        };
        let net = if size >= 16 {
            self.read_quad(attr_addr + 8)?
        } else {
            0
        };
        let mut fields = le_bytes(fs);
        let mut tail = if size >= 16 {
            le_bytes(net)
        } else {
            vec![0u8; 8]
        };
        let ghost f0 = fields@;
        let ghost t0 = tail@;
        fields.append(&mut tail);
        proof {
            assert(fields@ =~= f0 + t0);
            if size < 16 {
                assert(t0 =~= zeros(8));
            }
        }
        let mut out: Vec<u8> = Vec::new();
        let mut i: usize = 0;
        while i < copy_len
            invariant
                i <= copy_len <= 16,
                fields@.len() == 16,
                out@ == fields@.take(i as int),
            decreases copy_len - i,
        {
            out.push(fields[i]);
            assert(out@ =~= fields@.take(i + 1));
            i = i + 1;
        }
        let ghost head = out@;
        while i < size
            invariant
                copy_len <= i <= size,
                out@ == head + zeros(i - copy_len),
            decreases size - i,
        {
            out.push(0);
            assert(out@ =~= head + zeros(i + 1 - copy_len));
            i = i + 1;
        }
        Ok(Some(out))
    }

    /// The rule `landlock_add_rule` hands to the host for a rule of `rule_type` with
    /// its attributes at `attr_addr`.
    pub fn landlock_rule(&self, rule_type: u32, attr_addr: usize) -> (r: Result<LandlockRule, CpuError>)
        requires
            attr_addr + 16 <= usize::MAX,
        ensures
            match landlock_rule_spec(self@.mem, rule_type, attr_addr) {
                Ok(None) => r matches Ok(LandlockRule::Absent),
                Ok(Some(None)) => r matches Ok(LandlockRule::UnknownType),
                Ok(Some(Some(b))) => r matches Ok(LandlockRule::Bytes(v)) && v@ == b,
                Err(e) => r matches Err(e2) && e2 == e,
            },
    {
        if attr_addr == 0 {
            return Ok(LandlockRule::Absent);
        }
        if rule_type == 1 {
            if !self.memory.covers_range(attr_addr, 12) {
                return Err(CpuError::MemoryFault { addr: attr_addr, len: 12 });
            }
            let access = self.read_quad(attr_addr)?;
            let fd = self.memory.read_long(attr_addr + 8)?;
            let mut b = le_bytes(access);
            let fb = le_bytes(fd as u64);
            let ghost b0 = b@;
            b.push(fb[0]);
            b.push(fb[1]);
            b.push(fb[2]);
            b.push(fb[3]);
            b.push(0);
            b.push(0);
            b.push(0);
            b.push(0);
            assert(b@ =~= b0 + fb@.take(4) + zeros(4));
            Ok(LandlockRule::Bytes(b))
        } else if rule_type == 2 {
            if !self.memory.covers_range(attr_addr, 16) {
                return Err(CpuError::MemoryFault { addr: attr_addr, len: 16 });
            }
            let access = self.read_quad(attr_addr)?;
            let port = self.read_quad(attr_addr + 8)?;
            let mut b = le_bytes(access);
            let mut p = le_bytes(port);
            let ghost b0 = b@;
            let ghost p0 = p@;
            b.append(&mut p);
            assert(b@ =~= b0 + p0);
            Ok(LandlockRule::Bytes(b))
        } else {
            Ok(LandlockRule::UnknownType)
        }
    }

    /// Read a 64-bit file offset stored at `addr` as two longs (0 where `addr` is 0).
    pub fn read_loff(&self, addr: usize) -> (r: Result<i64, CpuError>)
        requires
            addr + 8 <= usize::MAX,
        ensures
            r == loff_at(self@.mem, addr),
    {
        if addr == 0 {
            return Ok(0);
        }
        let v = self.read_longs(addr, 2)?;
        proof {
            crate::cpu::kernel_structs::lemma_longs_at_len(self@.mem, addr, 2);
        }
        Ok(Self::llseek_offset(v[0], v[1]))
    }

    /// Put back the offsets `splice` moved, when it succeeded.
    pub fn finish_splice(&mut self, result: i64, off_in_addr: usize, off_in: i64, off_out_addr: usize, off_out: i64) -> (r:
        Result<i64, CpuError>)
        requires
            off_in_addr + 8 <= usize::MAX,
            off_out_addr + 8 <= usize::MAX,
        ensures
            match apply_writes(old(self)@.mem, splice_writes(result, off_in_addr, off_in, off_out_addr, off_out)) {
                Ok(mem) => r == Ok::<i64, CpuError>(result) && final(self)@ == old(self)@.with_mem(mem),
                Err(e) => r == Err::<i64, CpuError>(e),
            },
    {
        let mut w: Vec<(usize, Vec<u8>)> = Vec::new();
        if result >= 0 {
            if off_in_addr != 0 {
                let u = off_in as u64;
                w.push((off_in_addr, crate::cpu::setup::long_bytes((u / 0x1_0000_0000) as u32)));
                w.push((off_in_addr + 4, crate::cpu::setup::long_bytes((u % 0x1_0000_0000) as u32)));
            }
            let ghost w1 = writes_view(w@);
            if off_out_addr != 0 {
                let u = off_out as u64;
                w.push((off_out_addr, crate::cpu::setup::long_bytes((u / 0x1_0000_0000) as u32)));
                w.push((off_out_addr + 4, crate::cpu::setup::long_bytes((u % 0x1_0000_0000) as u32)));
            }
            proof {
                let a = if off_in_addr != 0 {
                    long_writes(off_in_addr as int, u64_longs(off_in as u64))
                } else {
                    Seq::empty()
                };
                assert(w1 =~= a);
            }
        }
        assert(writes_view(w@) =~= splice_writes(result, off_in_addr, off_in, off_out_addr, off_out));
        let ghost m0 = self@;
        let r = write_all(&mut self.memory, &w);
        proof {
            match apply_writes(m0.mem, writes_view(w@)) {
                Ok(mem) => {
                    assert(self@ =~= m0.with_mem(mem));
                },
                Err(_) => {},
            }
        }
        r?;
        Ok(result)
    }

    /// Read and check the guest `iovec` array of `count` entries at `base_addr`.
    pub fn build_iovecs(&self, base_addr: usize, count: usize) -> (r: Result<Vec<IoVec>, CpuError>)
        requires
            base_addr + 8 * count <= usize::MAX,
        ensures
            match iovecs_at(self@.mem, base_addr, count as nat) {
                Ok(s) => r matches Ok(v) && v@ == s,
                Err(e) => r == Err::<Vec<IoVec>, CpuError>(e),
            },
    {
        let mut v: Vec<IoVec> = Vec::new();
        let mut i: usize = 0;
        while i < count
            invariant
                i <= count,
                base_addr + 8 * count <= usize::MAX,
                iovecs_at(self@.mem, base_addr, i as nat) == Ok::<Seq<IoVec>, CpuError>(v@),
            decreases count - i,
        {
            let entry = base_addr + i * 8;
            let r1 = self.memory.read_long(entry);
            let r2 = match r1 {
                Ok(_) => self.memory.read_long(entry + 4),
                Err(e) => Err(e),
            };
            let item = match (r1, r2) {
                (Ok(b), Ok(l)) => {
                    let iov = IoVec { base: b as usize, len: l as usize };
                    if iov.len == 0 || self.memory.covers_range(iov.base, iov.len) {
                        Ok(iov)
                    } else {
                        Err(CpuError::MemoryFault { addr: iov.base, len: iov.len })
                    }
                },
                (Err(e), _) => Err(e),
                (_, Err(e)) => Err(e),
            };
            match item {
                Ok(iov) => {
                    v.push(iov);
                },
                Err(e) => {
                    proof {
                        lemma_iovecs_err_extends(self@.mem, base_addr, (i + 1) as nat, count as nat);
                    }
                    return Err(e);
                },
            }
            i = i + 1;
        }
        Ok(v)
    }

    /// Read the guest `pollfd` array of `nfds` entries at `addr`.
    pub fn read_pollfds(&self, addr: usize, nfds: usize) -> (r: Result<Vec<PollFd>, CpuError>)
        requires
            addr + 8 * nfds <= usize::MAX,
        ensures
            match pollfds_at(self@.mem, addr, nfds as nat) {
                Ok(s) => r matches Ok(v) && v@ == s,
                Err(e) => r == Err::<Vec<PollFd>, CpuError>(e),
            },
    {
        let mut v: Vec<PollFd> = Vec::new();
        let mut i: usize = 0;
        while i < nfds
            invariant
                i <= nfds,
                addr + 8 * nfds <= usize::MAX,
                pollfds_at(self@.mem, addr, i as nat) == Ok::<Seq<PollFd>, CpuError>(v@),
            decreases nfds - i,
        {
            let entry = addr + i * 8;
            let fd = match self.memory.read_long(entry) {
                Ok(x) => x as i32,
                Err(e) => {
                    proof {
                        lemma_pollfds_err_extends(self@.mem, addr, (i + 1) as nat, nfds as nat);
                    }
                    return Err(e);
                },
            };
            let events = match self.memory.read_word(entry + 4) {
                Ok(x) => x as i16,
                Err(e) => {
                    proof {
                        lemma_pollfds_err_extends(self@.mem, addr, (i + 1) as nat, nfds as nat);
                    }
                    return Err(e);
                },
            };
            v.push(PollFd { fd, events });
            i = i + 1;
        }
        Ok(v)
    }

    /// Store the events the host returned into each entry of the `pollfd` array at
    /// `addr`.
    pub fn write_revents(&mut self, addr: usize, revents: &Vec<i16>) -> (r: Result<(), CpuError>)
        requires
            addr + 8 * revents@.len() <= usize::MAX,
        ensures
            match apply_writes(old(self)@.mem, revents_writes(addr as int, revents@)) {
                Ok(mem) => r is Ok && final(self)@ == old(self)@.with_mem(mem),
                Err(e) => r == Err::<(), CpuError>(e),
            },
    {
        let mut w: Vec<(usize, Vec<u8>)> = Vec::new();
        let mut i: usize = 0;
        while i < revents.len()
            invariant
                i <= revents@.len(),
                addr + 8 * revents@.len() <= usize::MAX,
                writes_view(w@) == revents_writes(addr as int, revents@).take(i as int),
            decreases revents.len() - i,
        {
            let ghost before = writes_view(w@);
            w.push((addr + i * 8 + 6, word_bytes(revents[i] as u16)));
            assert(writes_view(w@) =~= revents_writes(addr as int, revents@).take(i + 1)) by {
                assert(writes_view(w@) =~= before.push(
                    ((addr + i * 8 + 6) as int, u16_be_bytes(revents@[i as int] as u16)),
                ));
            }
            i = i + 1;
        }
        assert(revents_writes(addr as int, revents@).take(revents@.len() as int) =~= revents_writes(
            addr as int,
            revents@,
        ));
        let ghost m0 = self@;
        let r = write_all(&mut self.memory, &w);
        proof {
            match apply_writes(m0.mem, writes_view(w@)) {
                Ok(mem) => {
                    assert(self@ =~= m0.with_mem(mem));
                },
                Err(_) => {},
            }
        }
        r
    }

    /// Read the guest message header at `addr` with its I/O vectors, and check its
    /// address and control buffers.
    pub fn read_message(&self, addr: usize) -> (r: Result<(MsgHdr, Vec<IoVec>), CpuError>)
        requires
            addr + 24 <= usize::MAX,
        ensures
            match message_at(self@.mem, addr) {
                Ok(p) => r matches Ok(q) && q.0 == p.0 && q.1@ == p.1,
                Err(e) => r == Err::<(MsgHdr, Vec<IoVec>), CpuError>(e),
            },
    {
        let v = self.read_longs(addr, 6)?;
        proof {
            lemma_longs_len(self@.mem, addr, 6);
        }
        let h = MsgHdr {
            name: v[0] as usize,
            namelen: v[1],
            iov: v[2] as usize,
            iovlen: v[3] as usize,
            control: v[4] as usize,
            controllen: v[5] as usize,
        };
        assert(h == msghdr_of(v@));
        let iov = if h.iovlen > 0 {
            if h.iovlen > (usize::MAX - h.iov) / 8 {
                return Err(CpuError::AddressOverflow);
            }
            self.build_iovecs(h.iov, h.iovlen)?
        } else {
            Vec::new()
        };
        if h.name != 0 && h.namelen > 0 && !self.memory.covers_range(h.name, h.namelen as usize) {
            return Err(CpuError::MemoryFault { addr: h.name, len: h.namelen as usize });
        }
        if h.control != 0 && h.controllen > 0 && !self.memory.covers_range(h.control, h.controllen) {
            return Err(CpuError::MemoryFault { addr: h.control, len: h.controllen });
        }
        Ok((h, iov))
    }

    /// Store what `recvmsg` reports back into the header at `addr` (the address and
    /// control lengths and the received flags), when the call succeeded.
    pub fn finish_recvmsg(&mut self, addr: usize, result: i64, namelen: u32, controllen: usize, flags: i32) -> (r:
        Result<i64, CpuError>)
        requires
            addr + 28 <= usize::MAX,
        ensures
            ({
                let ws = if result >= 0 {
                    long_writes(addr + 4, seq![namelen]) + long_writes(addr + 20, seq![controllen as u32, flags as u32])
                } else {
                    Seq::empty()
                };
                match apply_writes(old(self)@.mem, ws) {
                    Ok(mem) => r == Ok::<i64, CpuError>(result) && final(self)@ == old(self)@.with_mem(mem),
                    Err(e) => r == Err::<i64, CpuError>(e),
                }
            }),
    {
        let mut w: Vec<(usize, Vec<u8>)> = Vec::new();
        if result >= 0 {
            w.push((addr + 4, crate::cpu::setup::long_bytes(namelen)));
            w.push((addr + 20, crate::cpu::setup::long_bytes(controllen as u32)));
            w.push((addr + 24, crate::cpu::setup::long_bytes(flags as u32)));
        }
        proof {
            let ws = if result >= 0 {
                long_writes(addr + 4, seq![namelen]) + long_writes(addr + 20, seq![controllen as u32, flags as u32])
            } else {
                Seq::empty()
            };
            assert(writes_view(w@) =~= ws);
        }
        let ghost m0 = self@;
        let r = write_all(&mut self.memory, &w);
        proof {
            match apply_writes(m0.mem, writes_view(w@)) {
                Ok(mem) => {
                    assert(self@ =~= m0.with_mem(mem));
                },
                Err(_) => {},
            }
        }
        r?;
        Ok(result)
    }
}

} // verus!
