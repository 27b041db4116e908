//! Data the host hands back to the guest in the guest's layout: `fd_set` bit arrays
//! and `struct statx`.

use vstd::prelude::*;

use crate::cpu::setup::{apply_writes, long_bytes, write_all, writes_view};
use crate::cpu::Cpu;
use crate::error::CpuError;
use crate::memory::{be_u32, mem_read, mem_write, u16_be_bytes, u32_be_bytes, SegmentView};

verus! {

/// Whether each of the first `k` descriptors is in the guest `fd_set` at `addr`
/// (32-bit big-endian longs, bit 0 the least significant); the first long that
/// cannot be read is the error.
pub open spec fn fdset_bits(mem: Seq<SegmentView>, addr: usize, k: nat) -> Result<Seq<bool>, CpuError>
    decreases k,
{
    if k == 0 {
        Ok(Seq::empty())
    } else {
        match fdset_bits(mem, addr, (k - 1) as nat) {
            Err(e) => Err(e),
            Ok(s) => {
                let fd = k - 1;
                let la = addr + (fd / 32) * 4;
                match mem_read(mem, la, 4) {
                    None => Err(CpuError::MemoryFault { addr: la as usize, len: 4 }),
                    Some(b) => Ok(s.push(be_u32(b) & (1u32 << ((fd % 32) as u32)) != 0)),
                }
            },
        }
    }
}

/// The writes that clear a guest `fd_set` (32 longs).
pub open spec fn fdset_clear_writes(addr: usize) -> Seq<(int, Seq<u8>)> {
    Seq::new(32, |i: int| (addr + 4 * i, seq![0u8, 0, 0, 0]))
}

/// The guest `fd_set` at `addr` with the bits of the first `k` descriptors of
/// `is_set` set, one read-modify-write of a long at a time.
pub open spec fn fdset_set_bits(mem: Seq<SegmentView>, addr: usize, is_set: Seq<bool>, k: nat) -> Result<
    Seq<SegmentView>,
    CpuError,
>
    decreases k,
{
    if k == 0 {
        Ok(mem)
    } else {
        match fdset_set_bits(mem, addr, is_set, (k - 1) as nat) {
            Err(e) => Err(e),
            Ok(m1) => {
                let fd = k - 1;
                if !is_set[fd] {
                    Ok(m1)
                } else {
                    let la = addr + (fd / 32) * 4;
                    match mem_read(m1, la, 4) {
                        None => Err(CpuError::MemoryFault { addr: la as usize, len: 4 }),
                        Some(b) => match mem_write(m1, la, u32_be_bytes(be_u32(b) | (1u32 << ((fd % 32) as u32)))) {
                            Some(m2) => Ok(m2),
                            None => Err(CpuError::MemoryFault { addr: la as usize, len: 4 }),
                        },
                    }
                }
            },
        }
    }
}

/// A host `fd_set` result copied back: the guest set cleared, then the bits of the
/// descriptors below `nfds` that the host set holds set.
pub open spec fn host_fdset_spec(mem: Seq<SegmentView>, is_set: Seq<bool>, addr: usize, nfds: i32) -> Result<
    Seq<SegmentView>,
    CpuError,
> {
    match apply_writes(mem, fdset_clear_writes(addr)) {
        Err(e) => Err(e),
        Ok(m1) => fdset_set_bits(m1, addr, is_set, if nfds > 0 {
            nfds as nat
        } else {
            0
        }),
    }
}

/// The fields of a `struct statx` result, as plain values.
#[derive(Clone, Copy, Debug, PartialEq, Eq, Structural)]
pub struct Statx {
    pub mask: u32,
    pub blksize: u32,
    pub attributes: u64,
    pub nlink: u32,
    pub uid: u32,
    pub gid: u32,
    pub mode: u16,
    pub ino: u64,
    pub size: u64,
    pub blocks: u64,
    pub attributes_mask: u64,
    pub atime_sec: i64,
    pub atime_nsec: u32,
    pub btime_sec: i64,
    pub btime_nsec: u32,
    pub ctime_sec: i64,
    pub ctime_nsec: u32,
    pub mtime_sec: i64,
    pub mtime_nsec: u32,
    pub rdev_major: u32,
    pub rdev_minor: u32,
    pub dev_major: u32,
    pub dev_minor: u32,
    pub mnt_id: u64,
}

/// Big-endian bytes of a 64-bit value.
pub open spec fn u64_be_bytes(v: u64) -> Seq<u8> {
    u32_be_bytes((v / 0x1_0000_0000) as u32) + u32_be_bytes((v % 0x1_0000_0000) as u32)
}

/// The writes that store a `struct statx` at `addr`, field by field in the layout
/// shared by all Linux architectures (big-endian on the m68k), padding and the
/// alignment hints zeroed; the spare tail is left as it is.
pub open spec fn statx_writes(addr: usize, s: Statx) -> Seq<(int, Seq<u8>)> {
    let a = addr as int;
    let z4 = u32_be_bytes(0);
    seq![
        (a, u32_be_bytes(s.mask)),
        (a + 4, u32_be_bytes(s.blksize)),
        (a + 8, u64_be_bytes(s.attributes)),
        (a + 16, u32_be_bytes(s.nlink)),
        (a + 20, u32_be_bytes(s.uid)),
        (a + 24, u32_be_bytes(s.gid)),
        (a + 28, u16_be_bytes(s.mode)),
        (a + 30, u16_be_bytes(0)),
        (a + 32, u64_be_bytes(s.ino)),
        (a + 40, u64_be_bytes(s.size)),
        (a + 48, u64_be_bytes(s.blocks)),
        (a + 56, u64_be_bytes(s.attributes_mask)),
        (a + 64, u64_be_bytes(s.atime_sec as u64)),
        (a + 72, u32_be_bytes(s.atime_nsec)),
        (a + 76, z4),
        (a + 80, u64_be_bytes(s.btime_sec as u64)),
        (a + 88, u32_be_bytes(s.btime_nsec)),
        (a + 92, z4),
        (a + 96, u64_be_bytes(s.ctime_sec as u64)),
        (a + 104, u32_be_bytes(s.ctime_nsec)),
        (a + 108, z4),
        (a + 112, u64_be_bytes(s.mtime_sec as u64)),
        (a + 120, u32_be_bytes(s.mtime_nsec)),
        (a + 124, z4),
        (a + 128, u32_be_bytes(s.rdev_major)),
        (a + 132, u32_be_bytes(s.rdev_minor)),
        (a + 136, u32_be_bytes(s.dev_major)),
        (a + 140, u32_be_bytes(s.dev_minor)),
        (a + 144, u64_be_bytes(s.mnt_id)),
        (a + 152, z4),
        (a + 156, z4),
    ]
}

/// The big-endian bytes of a word, as a vector.
pub(crate) fn word_bytes(v: u16) -> (r: Vec<u8>)
    ensures
        r@ == u16_be_bytes(v),
{
    let b = crate::cpu::operand::word_to_be_bytes(v);
    let r = vec![b[0], b[1]];
    assert(r@ =~= b@);
    r
}

/// The big-endian bytes of a 64-bit value, as a vector.
pub(crate) fn quad_bytes(v: u64) -> (r: Vec<u8>)
    ensures
        r@ == u64_be_bytes(v),
{
    let hi = crate::cpu::operand::long_to_be_bytes((v / 0x1_0000_0000) as u32);
    let lo = crate::cpu::operand::long_to_be_bytes((v % 0x1_0000_0000) as u32);
    let r = vec![hi[0], hi[1], hi[2], hi[3], lo[0], lo[1], lo[2], lo[3]];
    assert(r@ =~= hi@ + lo@);
    r
}

impl Cpu {
    /// The members of a guest `fd_set` among the first `nfds` descriptors, as the
    /// host set is to hold them.
    pub fn guest_to_host_fdset(&self, guest_addr: usize, nfds: i32) -> (r: Result<Vec<bool>, CpuError>)
        requires
            nfds > 0 ==> guest_addr + ((nfds - 1) / 32) * 4 <= usize::MAX,
        ensures
            match fdset_bits(self@.mem, guest_addr, if nfds > 0 {
                nfds as nat
            } else {
                0
            }) {
                Ok(s) => r matches Ok(v) && v@ == s,
                Err(e) => r == Err::<Vec<bool>, CpuError>(e),
            },
    {
        let mut set: Vec<bool> = Vec::new();
        let mut fd: i32 = 0;
        while fd < nfds
            invariant
                0 <= fd,
                nfds > 0 ==> fd <= nfds,
                nfds <= 0 ==> fd == 0,
                nfds > 0 ==> guest_addr + ((nfds - 1) / 32) * 4 <= usize::MAX,
                fdset_bits(self@.mem, guest_addr, fd as nat) == Ok::<Seq<bool>, CpuError>(set@),
            decreases nfds - fd,
        {
            let b = match self.guest_fd_isset(fd, guest_addr) {
                Ok(b) => b,
                Err(e) => {
                    proof {
                        lemma_fdset_bits_err_extends(self@.mem, guest_addr, (fd + 1) as nat, nfds as nat);
                    }
                    return Err(e);
                },
            };
            let ghost before = set@;
            set.push(b);
            assert(set@ == before.push(b));
            fd = fd + 1;
        }
        Ok(set)
    }

    /// Copy a host `fd_set` result (`is_set[fd]` for each descriptor below `nfds`)
    /// back into the guest `fd_set` at `guest_addr`.
    pub fn host_to_guest_fdset(&mut self, is_set: &Vec<bool>, guest_addr: usize, nfds: i32) -> (r: Result<(), CpuError>)
        requires
            guest_addr + 128 <= usize::MAX,
            nfds > 0 ==> is_set@.len() >= nfds,
            nfds > 0 ==> guest_addr + ((nfds - 1) / 32) * 4 + 4 <= usize::MAX,
        ensures
            match host_fdset_spec(old(self)@.mem, is_set@, guest_addr, nfds) {
                Ok(mem) => r is Ok && final(self)@ == old(self)@.with_mem(mem),
                Err(e) => r == Err::<(), CpuError>(e),
            },
    {
        let mut clears: Vec<(usize, Vec<u8>)> = Vec::new();
        let mut i: usize = 0;
        while i < 32
            invariant
                i <= 32,
                guest_addr + 128 <= usize::MAX,
                writes_view(clears@) == fdset_clear_writes(guest_addr).take(i as int),
            decreases 32 - i,
        {
            let zero = vec![0u8, 0, 0, 0];
            let ghost before = writes_view(clears@);
            clears.push((guest_addr + i * 4, zero));
            proof {
                assert(writes_view(clears@) =~= before.push(((guest_addr + i * 4) as int, zero@)));
                assert(zero@ =~= seq![0u8, 0, 0, 0]);
                assert(fdset_clear_writes(guest_addr).take((i + 1) as int) =~= fdset_clear_writes(guest_addr).take(
                    i as int,
                ).push(((guest_addr + i * 4) as int, seq![0u8, 0, 0, 0])));
            }
            i = i + 1;
        }
        assert(fdset_clear_writes(guest_addr).take(32) =~= fdset_clear_writes(guest_addr));
        let ghost m0 = self@;
        let r = write_all(&mut self.memory, &clears);
        proof {
            match apply_writes(m0.mem, fdset_clear_writes(guest_addr)) {
                Ok(mem) => {
                    assert(self@ =~= m0.with_mem(mem));
                },
                Err(_) => {},
            }
        }
        r?;
        let ghost m1 = self@;
        let mut fd: i32 = 0;
        while fd < nfds
            invariant
                0 <= fd,
                nfds > 0 ==> fd <= nfds,
                nfds <= 0 ==> fd == 0,
                nfds > 0 ==> is_set@.len() >= nfds,
                nfds > 0 ==> guest_addr + ((nfds - 1) / 32) * 4 + 4 <= usize::MAX,
                fdset_set_bits(m1.mem, guest_addr, is_set@, fd as nat) == Ok::<Seq<SegmentView>, CpuError>(self@.mem),
                self@ == m1.with_mem(self@.mem),
                m1 == old(self)@.with_mem(m1.mem),
                nfds > 0 ==> host_fdset_spec(old(self)@.mem, is_set@, guest_addr, nfds) == fdset_set_bits(
                    m1.mem,
                    guest_addr,
                    is_set@,
                    nfds as nat,
                ),
            decreases nfds - fd,
        {
            if is_set[fd as usize] {
                let long_index = (fd / 32) as usize;
                let bit_index = fd % 32;
                let long_addr = guest_addr + long_index * 4;
                let current = match self.memory.read_long(long_addr) {
                    Ok(v) => v,
                    Err(e) => {
                        proof {
                            assert(long_addr as int == guest_addr + (fd / 32) * 4);
                            assert(fdset_set_bits(m1.mem, guest_addr, is_set@, (fd + 1) as nat) == Err::<
                                Seq<SegmentView>,
                                CpuError,
                            >(e));
                            lemma_set_bits_err_extends(m1.mem, guest_addr, is_set@, (fd + 1) as nat, nfds as nat);
                        }
                        return Err(e);
                    },
                };
                let new_val = current | (1u32 << bit_index);
                let bytes = long_bytes(new_val);
                let ghost before = self@;
                match self.memory.write_data(long_addr, bytes.as_slice()) {
                    Ok(()) => {},
                    Err(e) => {
                        proof {
                            lemma_set_bits_err_extends(m1.mem, guest_addr, is_set@, (fd + 1) as nat, nfds as nat);
                        }
                        return Err(e);
                    },
                }
                assert(self@ =~= m1.with_mem(self@.mem));
            }
            fd = fd + 1;
        }
        Ok(())
    }

    /// Store a `struct statx` result at `addr` in guest memory.
    #[verifier::rlimit(80)]
    pub fn write_statx(&mut self, addr: usize, sx: &Statx) -> (r: Result<(), CpuError>)
        requires
            addr + 160 <= usize::MAX,
        ensures
            match apply_writes(old(self)@.mem, statx_writes(addr, *sx)) {
                Ok(mem) => r is Ok && final(self)@ == old(self)@.with_mem(mem),
                Err(e) => r == Err::<(), CpuError>(e),
            },
    {
        let mut w: Vec<(usize, Vec<u8>)> = Vec::new();
        w.push((addr, long_bytes(sx.mask)));
        w.push((addr + 4, long_bytes(sx.blksize)));
        w.push((addr + 8, quad_bytes(sx.attributes)));
        w.push((addr + 16, long_bytes(sx.nlink)));
        w.push((addr + 20, long_bytes(sx.uid)));
        w.push((addr + 24, long_bytes(sx.gid)));
        w.push((addr + 28, word_bytes(sx.mode)));
        w.push((addr + 30, word_bytes(0)));
        w.push((addr + 32, quad_bytes(sx.ino)));
        w.push((addr + 40, quad_bytes(sx.size)));
        w.push((addr + 48, quad_bytes(sx.blocks)));
        w.push((addr + 56, quad_bytes(sx.attributes_mask)));
        w.push((addr + 64, quad_bytes(sx.atime_sec as u64)));
        w.push((addr + 72, long_bytes(sx.atime_nsec)));
        w.push((addr + 76, long_bytes(0)));
        w.push((addr + 80, quad_bytes(sx.btime_sec as u64)));
        w.push((addr + 88, long_bytes(sx.btime_nsec)));
        w.push((addr + 92, long_bytes(0)));
        w.push((addr + 96, quad_bytes(sx.ctime_sec as u64)));
        w.push((addr + 104, long_bytes(sx.ctime_nsec)));
        w.push((addr + 108, long_bytes(0)));
        w.push((addr + 112, quad_bytes(sx.mtime_sec as u64)));
        w.push((addr + 120, long_bytes(sx.mtime_nsec)));
        w.push((addr + 124, long_bytes(0)));
        w.push((addr + 128, long_bytes(sx.rdev_major)));
        w.push((addr + 132, long_bytes(sx.rdev_minor)));
        w.push((addr + 136, long_bytes(sx.dev_major)));
        w.push((addr + 140, long_bytes(sx.dev_minor)));
        w.push((addr + 144, quad_bytes(sx.mnt_id)));
        w.push((addr + 152, long_bytes(0)));
        w.push((addr + 156, long_bytes(0)));
        assert(writes_view(w@) =~= statx_writes(addr, *sx));
        let ghost m0 = self@;
        let r = write_all(&mut self.memory, &w);
        proof {
            match apply_writes(m0.mem, statx_writes(addr, *sx)) {
                Ok(mem) => {
                    assert(self@ =~= m0.with_mem(mem));
                },
                Err(_) => {},
            }
        }
        r
    }
}

/// Once reading a bit fails, reading more bits fails the same way.
proof fn lemma_fdset_bits_err_extends(mem: Seq<SegmentView>, addr: usize, k: nat, n: nat)
    requires
        k <= n,
        fdset_bits(mem, addr, k) is Err,
    ensures
        fdset_bits(mem, addr, n) == fdset_bits(mem, addr, k),
    decreases n - k,
{
    if k < n {
        lemma_fdset_bits_err_extends(mem, addr, k, (n - 1) as nat);
    }
}

/// Once a bit update fails, the rest of the updates fail the same way.
proof fn lemma_set_bits_err_extends(mem: Seq<SegmentView>, addr: usize, is_set: Seq<bool>, k: nat, n: nat)
    requires
        k <= n,
        fdset_set_bits(mem, addr, is_set, k) is Err,
    ensures
        fdset_set_bits(mem, addr, is_set, n) == fdset_set_bits(mem, addr, is_set, k),
    decreases n - k,
{
    if k < n {
        lemma_set_bits_err_extends(mem, addr, is_set, k, (n - 1) as nat);
    }
}

} // verus!
