//! Kernel structures that pass between the host and guest memory, in the guest's
//! layout: 32-bit longs and 64-bit `time_t`, big-endian.

use vstd::prelude::*;

use crate::cpu::guest_structs::{quad_bytes, u64_be_bytes, word_bytes};
use crate::cpu::setup::{apply_writes, long_bytes, write_all, writes_view};
use crate::cpu::Cpu;
use crate::error::CpuError;
use crate::memory::{be_u32, mem_read, u16_be_bytes, u32_be_bytes, SegmentView};

verus! {

/// The writes that store `vals` as consecutive longs from `addr` on.
pub open spec fn long_writes(addr: int, vals: Seq<u32>) -> Seq<(int, Seq<u8>)> {
    Seq::new(vals.len(), |i: int| (addr + 4 * i, u32_be_bytes(vals[i])))
}

/// The big-endian 64-bit value of eight bytes.
pub open spec fn be_u64(b: Seq<u8>) -> u64 {
    (be_u32(b.subrange(0, 4)) as int * 0x1_0000_0000 + be_u32(b.subrange(4, 8)) as int) as u64
}

/// The writes that store a time as the guest's 64-bit seconds followed by a long
/// with the sub-second part.
pub open spec fn time_writes(addr: int, sec: i64, frac: i64) -> Seq<(int, Seq<u8>)> {
    seq![(addr, u64_be_bytes(sec as u64)), (addr + 8, u32_be_bytes(frac as u32))]
}

/// The big-endian 64-bit signed value of the eight bytes at `addr`, read at once.
pub open spec fn i64_at(mem: Seq<SegmentView>, addr: usize) -> Result<i64, CpuError> {
    match mem_read(mem, addr as int, 8) {
        None => Err(CpuError::MemoryFault { addr, len: 8 }),
        Some(s) => Ok(be_u64(s) as i64),
    }
}

/// A 64-bit seconds field at `addr` and the long after it, as the guest holds a
/// `timespec` or `timeval`.
pub open spec fn time_pair_at(mem: Seq<SegmentView>, addr: usize) -> Result<(i64, u32), CpuError> {
    match mem_read(mem, addr as int, 8) {
        None => Err(CpuError::MemoryFault { addr, len: 8 }),
        Some(s) => match mem_read(mem, addr + 8, 4) {
            None => Err(CpuError::MemoryFault { addr: (addr + 8) as usize, len: 4 }),
            Some(f) => Ok((be_u64(s) as i64, be_u32(f))),
        },
    }
}

/// The fields of a host `struct stat`.
#[derive(Clone, Copy, Debug, PartialEq, Eq, Structural)]
pub struct Stat {
    pub dev: u64,
    pub ino: u64,
    pub mode: u32,
    pub nlink: u64,
    pub uid: u32,
    pub gid: u32,
    pub rdev: u64,
    pub size: i64,
    pub blksize: i64,
    pub blocks: i64,
    pub atime: i64,
    pub mtime: i64,
    pub ctime: i64,
}

/// The guest's `struct stat`: thirteen longs, each field cut to 32 bits.
pub open spec fn stat_longs(s: Stat) -> Seq<u32> {
    seq![
        s.dev as u32,
        s.ino as u32,
        s.mode,
        s.nlink as u32,
        s.uid,
        s.gid,
        s.rdev as u32,
        s.size as u32,
        s.blksize as u32,
        s.blocks as u32,
        s.atime as u32,
        s.mtime as u32,
        s.ctime as u32,
    ]
}

/// The fields of a host `struct statfs` that the guest receives.
#[derive(Clone, Copy, Debug, PartialEq, Eq, Structural)]
pub struct Statfs {
    pub fs_type: i64,
    pub bsize: i64,
    pub blocks: u64,
    pub bfree: u64,
    pub bavail: u64,
    pub files: u64,
    pub ffree: u64,
}

/// The guest's `struct statfs` head: seven longs, each field cut to 32 bits.
pub open spec fn statfs_longs(s: Statfs) -> Seq<u32> {
    seq![
        s.fs_type as u32,
        s.bsize as u32,
        s.blocks as u32,
        s.bfree as u32,
        s.bavail as u32,
        s.files as u32,
        s.ffree as u32,
    ]
}

/// The fields of a host `struct sysinfo` that the guest receives.
#[derive(Clone, Copy, Debug, PartialEq, Eq, Structural)]
pub struct Sysinfo {
    pub uptime: i64,
    pub load1: u64,
    pub load5: u64,
    pub load15: u64,
    pub totalram: u64,
    pub freeram: u64,
    pub sharedram: u64,
    pub bufferram: u64,
    pub totalswap: u64,
    pub freeswap: u64,
    pub procs: u16,
}

/// The guest's `struct sysinfo` head: ten longs (each field cut to 32 bits), then
/// the process count as a word.
pub open spec fn sysinfo_writes(addr: int, s: Sysinfo) -> Seq<(int, Seq<u8>)> {
    long_writes(
        addr,
        seq![
            s.uptime as u32,
            s.load1 as u32,
            s.load5 as u32,
            s.load15 as u32,
            s.totalram as u32,
            s.freeram as u32,
            s.sharedram as u32,
            s.bufferram as u32,
            s.totalswap as u32,
            s.freeswap as u32,
        ],
    ).push((addr + 40, u16_be_bytes(s.procs)))
}

/// A host `struct itimerval`: the reload interval and the current value.
#[derive(Clone, Copy, Debug, PartialEq, Eq, Structural)]
pub struct Itimerval {
    pub interval_sec: i64,
    pub interval_usec: i64,
    pub value_sec: i64,
    pub value_usec: i64,
}

/// The guest's `struct itimerval`: two `timeval`s of 64-bit seconds and a long.
pub open spec fn itimerval_writes(addr: int, v: Itimerval) -> Seq<(int, Seq<u8>)> {
    time_writes(addr, v.interval_sec, v.interval_usec) + time_writes(addr + 12, v.value_sec, v.value_usec)
}

/// The guest's `struct itimerval` at `addr`, read field by field.
pub open spec fn itimerval_at(mem: Seq<SegmentView>, addr: usize) -> Result<Itimerval, CpuError> {
    match time_pair_at(mem, addr) {
        Err(e) => Err(e),
        Ok(i) => match time_pair_at(mem, (addr + 12) as usize) {
            Err(e) => Err(e),
            Ok(v) => Ok(
                Itimerval {
                    interval_sec: i.0,
                    interval_usec: i.1 as i64,
                    value_sec: v.0,
                    value_usec: v.1 as i64,
                },
            ),
        },
    }
}

/// The user and system times of a host `struct rusage`.
#[derive(Clone, Copy, Debug, PartialEq, Eq, Structural)]
pub struct Rusage {
    pub utime_sec: i64,
    pub utime_usec: i64,
    pub stime_sec: i64,
    pub stime_usec: i64,
}

/// The two times of a `struct rusage` as `getrusage` hands them to the guest:
/// `timeval`s of 64-bit seconds and a long.
pub open spec fn rusage_writes(addr: int, u: Rusage) -> Seq<(int, Seq<u8>)> {
    time_writes(addr, u.utime_sec, u.utime_usec) + time_writes(addr + 12, u.stime_sec, u.stime_usec)
}

/// The two times of a `struct rusage` as `wait4` hands them to the guest: four
/// longs, each field cut to 32 bits.
pub open spec fn wait_rusage_longs(u: Rusage) -> Seq<u32> {
    seq![u.utime_sec as u32, u.utime_usec as u32, u.stime_sec as u32, u.stime_usec as u32]
}

/// The fields of a host `siginfo_t` that `waitid` hands to the guest.
#[derive(Clone, Copy, Debug, PartialEq, Eq, Structural)]
pub struct ChildInfo {
    pub signo: i32,
    pub errno: i32,
    pub code: i32,
    pub pid: i32,
    pub uid: u32,
    pub status: i32,
}

/// The guest's `siginfo_t` head for a child: six longs.
pub open spec fn child_info_longs(c: ChildInfo) -> Seq<u32> {
    seq![c.signo as u32, c.errno as u32, c.code as u32, c.pid as u32, c.uid, c.status as u32]
}

/// The guest's `struct utsname`: five fields of 65 bytes each.
pub open spec fn utsname_writes(addr: int, fields: Seq<Seq<u8>>) -> Seq<(int, Seq<u8>)> {
    Seq::new(5, |k: int| (addr + 65 * k, fields[k]))
}

/// The two 64-bit limits of a guest `struct rlimit64` at `addr`, each read as two
/// longs, high first.
pub open spec fn rlimit64_at(mem: Seq<SegmentView>, addr: usize) -> Result<(u64, u64), CpuError> {
    match longs_at(mem, addr, 4) {
        Err(e) => Err(e),
        Ok(v) => Ok(
            (
                (v[0] as int * 0x1_0000_0000 + v[1] as int) as u64,
                (v[2] as int * 0x1_0000_0000 + v[3] as int) as u64,
            ),
        ),
    }
}

/// A 64-bit value as two longs, high half first.
pub open spec fn u64_longs(v: u64) -> Seq<u32> {
    seq![(v / 0x1_0000_0000) as u32, (v % 0x1_0000_0000) as u32]
}

/// The two 64-bit limits of a `struct rlimit64` as four longs, high halves first.
pub open spec fn rlimit64_longs(cur: u64, max: u64) -> Seq<u32> {
    u64_longs(cur) + u64_longs(max)
}

/// The process times of a host `struct tms`.
#[derive(Clone, Copy, Debug, PartialEq, Eq, Structural)]
pub struct Tms {
    pub utime: i64,
    pub stime: i64,
    pub cutime: i64,
    pub cstime: i64,
}

/// The guest's `struct tms`: four longs, each time cut to 32 bits.
pub open spec fn tms_longs(t: Tms) -> Seq<u32> {
    seq![t.utime as u32, t.stime as u32, t.cutime as u32, t.cstime as u32]
}

/// The first `k` longs from `addr` on, read one after another; the first that cannot
/// be read is the error.
pub open spec fn longs_at(mem: Seq<SegmentView>, addr: usize, k: nat) -> Result<Seq<u32>, CpuError>
    decreases k,
{
    if k == 0 {
        Ok(Seq::empty())
    } else {
        match longs_at(mem, addr, (k - 1) as nat) {
            Err(e) => Err(e),
            Ok(s) => {
                let a = addr + 4 * (k - 1);
                match mem_read(mem, a, 4) {
                    None => Err(CpuError::MemoryFault { addr: a as usize, len: 4 }),
                    Some(b) => Ok(s.push(be_u32(b))),
                }
            },
        }
    }
}

/// The 64-bit file offset that `_llseek` asks for, from its two halves.
pub open spec fn llseek_offset_spec(high: u32, low: u32) -> i64 {
    (high as int * 0x1_0000_0000 + low as int) as u64 as i64
}

/// What `longs_at` reads holds `k` longs.
pub proof fn lemma_longs_at_len(mem: Seq<SegmentView>, addr: usize, k: nat)
    ensures
        longs_at(mem, addr, k) matches Ok(s) ==> s.len() == k,
    decreases k,
{
    if k > 0 {
        lemma_longs_at_len(mem, addr, (k - 1) as nat);
    }
}

/// Once reading a long fails, reading more longs fails the same way.
proof fn lemma_longs_at_err_extends(mem: Seq<SegmentView>, addr: usize, k: nat, n: nat)
    requires
        k <= n,
        longs_at(mem, addr, k) is Err,
    ensures
        longs_at(mem, addr, n) == longs_at(mem, addr, k),
    decreases n - k,
{
    if k < n {
        lemma_longs_at_err_extends(mem, addr, k, (n - 1) as nat);
    }
}

/// Make the writes `w`, as `write_all` does, on the guest memory of `cpu`.
fn apply_to(cpu: &mut Cpu, w: &Vec<(usize, Vec<u8>)>) -> (r: Result<(), CpuError>)
    ensures
        match apply_writes(old(cpu)@.mem, writes_view(w@)) {
            Ok(mem) => r is Ok && final(cpu)@ == old(cpu)@.with_mem(mem),
            Err(e) => r == Err::<(), CpuError>(e),
        },
{
    let ghost m0 = cpu@;
    let r = write_all(&mut cpu.memory, w);
    proof {
        match apply_writes(m0.mem, writes_view(w@)) {
            Ok(mem) => {
                assert(cpu@ =~= m0.with_mem(mem));
            },
            Err(_) => {},
        }
    }
    r
}

/// The writes for a time pair, put after those in `w`.
fn push_time(w: &mut Vec<(usize, Vec<u8>)>, addr: usize, sec: i64, frac: i64)
    requires
        addr + 12 <= usize::MAX,
    ensures
        writes_view(final(w)@) == writes_view(old(w)@) + time_writes(addr as int, sec, frac),
{
    let ghost w0 = writes_view(w@);
    w.push((addr, quad_bytes(sec as u64)));
    w.push((addr + 8, long_bytes(frac as u32)));
    assert(writes_view(w@) =~= w0 + time_writes(addr as int, sec, frac));
}

impl Cpu {
    /// Store `vals` as consecutive longs from `addr` on.
    pub fn write_longs(&mut self, addr: usize, vals: &Vec<u32>) -> (r: Result<(), CpuError>)
        requires
            addr + 4 * vals@.len() <= usize::MAX,
        ensures
            match apply_writes(old(self)@.mem, long_writes(addr as int, vals@)) {
                Ok(mem) => r is Ok && final(self)@ == old(self)@.with_mem(mem),
                Err(e) => r == Err::<(), CpuError>(e),
            },
    {
        let mut w: Vec<(usize, Vec<u8>)> = Vec::new();
        let mut i: usize = 0;
        while i < vals.len()
            invariant
                i <= vals@.len(),
                addr + 4 * vals@.len() <= usize::MAX,
                writes_view(w@) == long_writes(addr as int, vals@).take(i as int),
            decreases vals.len() - i,
        {
            let ghost before = writes_view(w@);
            w.push((addr + 4 * i, long_bytes(vals[i])));
            assert(writes_view(w@) =~= long_writes(addr as int, vals@).take(i + 1)) by {
                assert(writes_view(w@) =~= before.push(((addr + 4 * i) as int, u32_be_bytes(vals@[i as int]))));
            }
            i = i + 1;
        }
        assert(long_writes(addr as int, vals@).take(vals@.len() as int) =~= long_writes(addr as int, vals@));
        apply_to(self, &w)
    }

    /// Read `k` consecutive longs from `addr` on.
    pub fn read_longs(&self, addr: usize, k: usize) -> (r: Result<Vec<u32>, CpuError>)
        requires
            addr + 4 * k <= usize::MAX,
        ensures
            match longs_at(self@.mem, addr, k as nat) {
                Ok(s) => r matches Ok(v) && v@ == s,
                Err(e) => r == Err::<Vec<u32>, CpuError>(e),
            },
    {
        let mut v: Vec<u32> = Vec::new();
        let mut i: usize = 0;
        while i < k
            invariant
                i <= k,
                addr + 4 * k <= usize::MAX,
                longs_at(self@.mem, addr, i as nat) == Ok::<Seq<u32>, CpuError>(v@),
            decreases k - i,
        {
            match self.memory.read_long(addr + 4 * i) {
                Ok(x) => {
                    v.push(x);
                },
                Err(e) => {
                    proof {
                        lemma_longs_at_err_extends(self@.mem, addr, (i + 1) as nat, k as nat);
                    }
                    return Err(e);
                },
            }
            i = i + 1;
        }
        Ok(v)
    }

    /// Read the big-endian 64-bit signed value at `addr` (eight bytes at once).
    pub fn read_i64_be(&self, addr: usize) -> (r: Result<i64, CpuError>)
        ensures
            r == i64_at(self@.mem, addr),
    {
        proof {
            crate::memory::lemma_find_cover_from(self@.mem, addr as int, 8, 0);
        }
        let b = self.memory.read_data(addr, 8)?;
        let hi: u32 = (b[0] as u32) * 0x1000000 + (b[1] as u32) * 0x10000 + (b[2] as u32) * 0x100 + (b[3] as u32);
        let lo: u32 = (b[4] as u32) * 0x1000000 + (b[5] as u32) * 0x10000 + (b[6] as u32) * 0x100 + (b[7] as u32);
        proof {
            assert(hi == be_u32(b@.subrange(0, 4)));
            assert(lo == be_u32(b@.subrange(4, 8)));
        }
        let v: u64 = (hi as u64) * 0x1_0000_0000 + (lo as u64);
        Ok(v as i64)
    }

    /// Read a 64-bit seconds field at `addr` and the long after it.
    pub fn read_time_pair(&self, addr: usize) -> (r: Result<(i64, u32), CpuError>)
        requires
            addr + 12 <= usize::MAX,
        ensures
            r == time_pair_at(self@.mem, addr),
    {
        let sec = self.read_i64_be(addr)?;
        let frac = self.memory.read_long(addr + 8)?;
        Ok((sec, frac))
    }

    /// Store a time as the guest's 64-bit seconds and a long with the sub-second part
    /// (cut to 32 bits).
    pub fn write_time_pair(&mut self, addr: usize, sec: i64, frac: i64) -> (r: Result<(), CpuError>)
        requires
            addr + 12 <= usize::MAX,
        ensures
            match apply_writes(old(self)@.mem, time_writes(addr as int, sec, frac)) {
                Ok(mem) => r is Ok && final(self)@ == old(self)@.with_mem(mem),
                Err(e) => r == Err::<(), CpuError>(e),
            },
    {
        let mut w: Vec<(usize, Vec<u8>)> = Vec::new();
        push_time(&mut w, addr, sec, frac);
        assert(writes_view(w@) =~= time_writes(addr as int, sec, frac));
        apply_to(self, &w)
    }

    /// Store a `struct stat` result at `addr`.
    pub fn write_stat(&mut self, addr: usize, s: &Stat) -> (r: Result<(), CpuError>)
        requires
            addr + 52 <= usize::MAX,
        ensures
            match apply_writes(old(self)@.mem, long_writes(addr as int, stat_longs(*s))) {
                Ok(mem) => r is Ok && final(self)@ == old(self)@.with_mem(mem),
                Err(e) => r == Err::<(), CpuError>(e),
            },
    {
        let vals = vec![
            s.dev as u32,
            s.ino as u32,
            s.mode,
            s.nlink as u32,
            s.uid,
            s.gid,
            s.rdev as u32,
            s.size as u32,
            s.blksize as u32,
            s.blocks as u32,
            s.atime as u32,
            s.mtime as u32,
            s.ctime as u32,
        ];
        assert(vals@ =~= stat_longs(*s));
        self.write_longs(addr, &vals)
    }

    /// Store a `struct statfs` result at `addr`.
    pub fn write_statfs(&mut self, addr: usize, s: &Statfs) -> (r: Result<(), CpuError>)
        requires
            addr + 28 <= usize::MAX,
        ensures
            match apply_writes(old(self)@.mem, long_writes(addr as int, statfs_longs(*s))) {
                Ok(mem) => r is Ok && final(self)@ == old(self)@.with_mem(mem),
                Err(e) => r == Err::<(), CpuError>(e),
            },
    {
        let vals = vec![
            s.fs_type as u32,
            s.bsize as u32,
            s.blocks as u32,
            s.bfree as u32,
            s.bavail as u32,
            s.files as u32,
            s.ffree as u32,
        ];
        assert(vals@ =~= statfs_longs(*s));
        self.write_longs(addr, &vals)
    }

    /// Store a `struct sysinfo` result at `addr`.
    pub fn write_sysinfo(&mut self, addr: usize, s: &Sysinfo) -> (r: Result<(), CpuError>)
        requires
            addr + 42 <= usize::MAX,
        ensures
            match apply_writes(old(self)@.mem, sysinfo_writes(addr as int, *s)) {
                Ok(mem) => r is Ok && final(self)@ == old(self)@.with_mem(mem),
                Err(e) => r == Err::<(), CpuError>(e),
            },
    {
        let vals = vec![
            s.uptime as u32,
            s.load1 as u32,
            s.load5 as u32,
            s.load15 as u32,
            s.totalram as u32,
            s.freeram as u32,
            s.sharedram as u32,
            s.bufferram as u32,
            s.totalswap as u32,
            s.freeswap as u32,
        ];
        let mut w: Vec<(usize, Vec<u8>)> = Vec::new();
        let mut i: usize = 0;
        while i < 10
            invariant
                i <= 10,
                vals@.len() == 10,
                addr + 42 <= usize::MAX,
                writes_view(w@) == long_writes(addr as int, vals@).take(i as int),
            decreases 10 - i,
        {
            let ghost before = writes_view(w@);
            w.push((addr + 4 * i, long_bytes(vals[i])));
            assert(writes_view(w@) =~= long_writes(addr as int, vals@).take(i + 1)) by {
                assert(writes_view(w@) =~= before.push(((addr + 4 * i) as int, u32_be_bytes(vals@[i as int]))));
            }
            i = i + 1;
        }
        let ghost before = writes_view(w@);
        w.push((addr + 40, word_bytes(s.procs)));
        proof {
            assert(long_writes(addr as int, vals@).take(10) =~= long_writes(addr as int, vals@));
            assert(writes_view(w@) =~= before.push(((addr + 40) as int, u16_be_bytes(s.procs))));
            assert(vals@ =~= seq![
                s.uptime as u32,
                s.load1 as u32,
                s.load5 as u32,
                s.load15 as u32,
                s.totalram as u32,
                s.freeram as u32,
                s.sharedram as u32,
                s.bufferram as u32,
                s.totalswap as u32,
                s.freeswap as u32,
            ]);
            assert(writes_view(w@) =~= sysinfo_writes(addr as int, *s));
        }
        apply_to(self, &w)
    }

    /// Store a `struct utsname` result at `addr`: the first 65 bytes of each of the
    /// five fields (system, node, release, version, machine).
    pub fn write_utsname(&mut self, addr: usize, fields: &Vec<Vec<u8>>) -> (r: Result<(), CpuError>)
        requires
            addr + 325 <= usize::MAX,
            fields@.len() == 5,
            forall|k: int| 0 <= k < 5 ==> (#[trigger] fields@[k])@.len() >= 65,
        ensures
            match apply_writes(
                old(self)@.mem,
                utsname_writes(addr as int, Seq::new(5, |k: int| fields@[k]@.subrange(0, 65))),
            ) {
                Ok(mem) => r is Ok && final(self)@ == old(self)@.with_mem(mem),
                Err(e) => r == Err::<(), CpuError>(e),
            },
    {
        let ghost parts = Seq::new(5, |k: int| fields@[k]@.subrange(0, 65));
        let mut w: Vec<(usize, Vec<u8>)> = Vec::new();
        let mut k: usize = 0;
        while k < 5
            invariant
                k <= 5,
                fields@.len() == 5,
                forall|j: int| 0 <= j < 5 ==> (#[trigger] fields@[j])@.len() >= 65,
                addr + 325 <= usize::MAX,
                parts == Seq::new(5, |j: int| fields@[j]@.subrange(0, 65)),
                writes_view(w@) == utsname_writes(addr as int, parts).take(k as int),
            decreases 5 - k,
        {
            let f = &fields[k];
            let bytes = vstd::slice::slice_to_vec(vstd::slice::slice_subrange(f.as_slice(), 0, 65));
            let ghost before = writes_view(w@);
            w.push((addr + 65 * k, bytes));
            assert(writes_view(w@) =~= utsname_writes(addr as int, parts).take(k + 1)) by {
                assert(bytes@ =~= parts[k as int]);
                assert(writes_view(w@) =~= before.push(((addr + 65 * k) as int, parts[k as int])));
            }
            k = k + 1;
        }
        assert(utsname_writes(addr as int, parts).take(5) =~= utsname_writes(addr as int, parts));
        apply_to(self, &w)
    }

    /// Read the guest's `struct itimerval` at `addr`.
    pub fn read_itimerval(&self, addr: usize) -> (r: Result<Itimerval, CpuError>)
        requires
            addr + 24 <= usize::MAX,
        ensures
            r == itimerval_at(self@.mem, addr),
    {
        let (isec, iusec) = self.read_time_pair(addr)?;
        let (vsec, vusec) = self.read_time_pair(addr + 12)?;
        Ok(
            Itimerval {
                interval_sec: isec,
                interval_usec: iusec as i64,
                value_sec: vsec,
                value_usec: vusec as i64,
            },
        )
    }

    /// Store a `struct itimerval` result at `addr`.
    pub fn write_itimerval(&mut self, addr: usize, val: &Itimerval) -> (r: Result<(), CpuError>)
        requires
            addr + 24 <= usize::MAX,
        ensures
            match apply_writes(old(self)@.mem, itimerval_writes(addr as int, *val)) {
                Ok(mem) => r is Ok && final(self)@ == old(self)@.with_mem(mem),
                Err(e) => r == Err::<(), CpuError>(e),
            },
    {
        let mut w: Vec<(usize, Vec<u8>)> = Vec::new();
        push_time(&mut w, addr, val.interval_sec, val.interval_usec);
        push_time(&mut w, addr + 12, val.value_sec, val.value_usec);
        assert(writes_view(w@) =~= itimerval_writes(addr as int, *val));
        apply_to(self, &w)
    }

    /// Store the times of a `getrusage` result at `addr`.
    pub fn write_rusage(&mut self, addr: usize, u: &Rusage) -> (r: Result<(), CpuError>)
        requires
            addr + 24 <= usize::MAX,
        ensures
            match apply_writes(old(self)@.mem, rusage_writes(addr as int, *u)) {
                Ok(mem) => r is Ok && final(self)@ == old(self)@.with_mem(mem),
                Err(e) => r == Err::<(), CpuError>(e),
            },
    {
        let mut w: Vec<(usize, Vec<u8>)> = Vec::new();
        push_time(&mut w, addr, u.utime_sec, u.utime_usec);
        push_time(&mut w, addr + 12, u.stime_sec, u.stime_usec);
        assert(writes_view(w@) =~= rusage_writes(addr as int, *u));
        apply_to(self, &w)
    }

    /// Store what `wait4` reports of a child that changed state: its status at
    /// `status_addr` and its times at `rusage_addr`, each where the address is not 0.
    /// Nothing is stored unless `result` (the child's id) is positive.
    pub fn finish_wait4(&mut self, result: i64, status: i32, status_addr: usize, usage: &Rusage, rusage_addr: usize) -> (r:
        Result<i64, CpuError>)
        requires
            status_addr + 4 <= usize::MAX,
            rusage_addr + 16 <= usize::MAX,
        ensures
            ({
                let ws = if result > 0 {
                    (if status_addr != 0 {
                        long_writes(status_addr as int, seq![status as u32])
                    } else {
                        Seq::empty()
                    }) + (if rusage_addr != 0 {
                        long_writes(rusage_addr as int, wait_rusage_longs(*usage))
                    } else {
                        Seq::empty()
                    })
                } else {
                    Seq::empty()
                };
                match apply_writes(old(self)@.mem, ws) {
                    Ok(mem) => r == Ok::<i64, CpuError>(result) && final(self)@ == old(self)@.with_mem(mem),
                    Err(e) => r == Err::<i64, CpuError>(e),
                }
            }),
    {
        let mut w: Vec<(usize, Vec<u8>)> = Vec::new();
        let ghost first: Seq<(int, Seq<u8>)> = Seq::empty();
        if result > 0 {
            if status_addr != 0 {
                w.push((status_addr, long_bytes(status as u32)));
                proof {
                    first = long_writes(status_addr as int, seq![status as u32]);
                    assert(writes_view(w@) =~= first);
                }
            }
            if rusage_addr != 0 {
                let vals = vec![
                    usage.utime_sec as u32,
                    usage.utime_usec as u32,
                    usage.stime_sec as u32,
                    usage.stime_usec as u32,
                ];
                let ghost w1 = writes_view(w@);
                let mut i: usize = 0;
                while i < 4
                    invariant
                        i <= 4,
                        vals@.len() == 4,
                        rusage_addr + 16 <= usize::MAX,
                        writes_view(w@) == w1 + long_writes(rusage_addr as int, vals@).take(i as int),
                    decreases 4 - i,
                {
                    let ghost before = writes_view(w@);
                    w.push((rusage_addr + 4 * i, long_bytes(vals[i])));
                    assert(writes_view(w@) =~= w1 + long_writes(rusage_addr as int, vals@).take(i + 1)) by {
                        assert(writes_view(w@) =~= before.push(
                            ((rusage_addr + 4 * i) as int, u32_be_bytes(vals@[i as int])),
                        ));
                    }
                    i = i + 1;
                }
                assert(vals@ =~= wait_rusage_longs(*usage));
                assert(long_writes(rusage_addr as int, vals@).take(4) =~= long_writes(rusage_addr as int, vals@));
            }
        }
        proof {
            let ws = if result > 0 {
                (if status_addr != 0 {
                    long_writes(status_addr as int, seq![status as u32])
                } else {
                    Seq::empty()
                }) + (if rusage_addr != 0 {
                    long_writes(rusage_addr as int, wait_rusage_longs(*usage))
                } else {
                    Seq::empty()
                })
            } else {
                Seq::empty()
            };
            assert(writes_view(w@) =~= ws);
        }
        apply_to(self, &w)?;
        Ok(result)
    }

    /// Store what `waitid` reports of a child at `infop` (where it is not 0), when the
    /// call succeeded.
    pub fn finish_waitid(&mut self, result: i64, info: &ChildInfo, infop: usize) -> (r: Result<i64, CpuError>)
        requires
            infop + 24 <= usize::MAX,
        ensures
            ({
                let ws = if result == 0 && infop != 0 {
                    long_writes(infop as int, child_info_longs(*info))
                } else {
                    Seq::empty()
                };
                match apply_writes(old(self)@.mem, ws) {
                    Ok(mem) => r == Ok::<i64, CpuError>(result) && final(self)@ == old(self)@.with_mem(mem),
                    Err(e) => r == Err::<i64, CpuError>(e),
                }
            }),
    {
        if result == 0 && infop != 0 {
            let vals = vec![
                info.signo as u32,
                info.errno as u32,
                info.code as u32,
                info.pid as u32,
                info.uid,
                info.status as u32,
            ];
            assert(vals@ =~= child_info_longs(*info));
            self.write_longs(infop, &vals)?;
        } else {
            assert(apply_writes(self@.mem, Seq::empty()) == Ok::<Seq<SegmentView>, CpuError>(self@.mem));
            assert(self@ =~= self@.with_mem(self@.mem));
        }
        Ok(result)
    }

    /// Read the guest's `struct rlimit64` at `addr`.
    pub fn read_rlimit64(&self, addr: usize) -> (r: Result<(u64, u64), CpuError>)
        requires
            addr + 16 <= usize::MAX,
        ensures
            r == rlimit64_at(self@.mem, addr),
    {
        let v = self.read_longs(addr, 4)?;
        proof {
            lemma_longs_at_len(self@.mem, addr, 4);
        }
        let cur: u64 = (v[0] as u64) * 0x1_0000_0000 + (v[1] as u64);
        let max: u64 = (v[2] as u64) * 0x1_0000_0000 + (v[3] as u64);
        Ok((cur, max))
    }

    /// Store a `struct rlimit64` result at `addr`.
    pub fn write_rlimit64(&mut self, addr: usize, cur: u64, max: u64) -> (r: Result<(), CpuError>)
        requires
            addr + 16 <= usize::MAX,
        ensures
            match apply_writes(old(self)@.mem, long_writes(addr as int, rlimit64_longs(cur, max))) {
                Ok(mem) => r is Ok && final(self)@ == old(self)@.with_mem(mem),
                Err(e) => r == Err::<(), CpuError>(e),
            },
    {
        let vals = vec![
            (cur / 0x1_0000_0000) as u32,
            (cur % 0x1_0000_0000) as u32,
            (max / 0x1_0000_0000) as u32,
            (max % 0x1_0000_0000) as u32,
        ];
        assert(vals@ =~= rlimit64_longs(cur, max));
        self.write_longs(addr, &vals)
    }

    /// Store a `struct tms` result at `addr`.
    pub fn write_tms(&mut self, addr: usize, t: &Tms) -> (r: Result<(), CpuError>)
        requires
            addr + 16 <= usize::MAX,
        ensures
            match apply_writes(old(self)@.mem, long_writes(addr as int, tms_longs(*t))) {
                Ok(mem) => r is Ok && final(self)@ == old(self)@.with_mem(mem),
                Err(e) => r == Err::<(), CpuError>(e),
            },
    {
        let vals = vec![t.utime as u32, t.stime as u32, t.cutime as u32, t.cstime as u32];
        assert(vals@ =~= tms_longs(*t));
        self.write_longs(addr, &vals)
    }

    /// Store a `struct rlimit` result at `addr`: the two limits as longs, each cut to
    /// 32 bits.
    pub fn write_rlimit(&mut self, addr: usize, cur: u64, max: u64) -> (r: Result<(), CpuError>)
        requires
            addr + 8 <= usize::MAX,
        ensures
            match apply_writes(old(self)@.mem, long_writes(addr as int, seq![cur as u32, max as u32])) {
                Ok(mem) => r is Ok && final(self)@ == old(self)@.with_mem(mem),
                Err(e) => r == Err::<(), CpuError>(e),
            },
    {
        let vals = vec![cur as u32, max as u32];
        assert(vals@ =~= seq![cur as u32, max as u32]);
        self.write_longs(addr, &vals)
    }

    /// `adjtimex` and `clock_adjtime` are refused with EPERM, as for a caller without
    /// the privilege, once the head (16 bytes) of the `struct timex` at `tx_addr`
    /// (where not 0) could be read.
    pub fn refuse_clock_adjust(&self, tx_addr: usize) -> (r: Result<i64, CpuError>)
        ensures
            tx_addr != 0 && mem_read(self@.mem, tx_addr as int, 16) is None ==> r == Err::<i64, CpuError>(
                CpuError::MemoryFault { addr: tx_addr, len: 16 },
            ),
            !(tx_addr != 0 && mem_read(self@.mem, tx_addr as int, 16) is None) ==> r == Ok::<i64, CpuError>(-1i64),
    {
        if tx_addr != 0 {
            let _ = self.memory.read_data(tx_addr, 16)?;
        }
        Ok(-(crate::host_consts::eperm() as i64))
    }

    /// The 64-bit file offset that `_llseek` asks for, from its high and low halves.
    pub fn llseek_offset(high: u32, low: u32) -> (r: i64)
        ensures
            r == llseek_offset_spec(high, low),
    {
        let v: u64 = (high as u64) * 0x1_0000_0000 + (low as u64);
        v as i64
    }

    /// Finish `_llseek` once the host's `lseek` returned `result`: a new offset is
    /// stored at `result_addr` (where that is not 0) as two longs, high first, and the
    /// call returns 0; otherwise the call returns `result` itself.
    pub fn finish_llseek(&mut self, result: i64, result_addr: usize) -> (r: Result<i64, CpuError>)
        requires
            result_addr + 8 <= usize::MAX,
        ensures
            result >= 0 && result_addr != 0 ==> match apply_writes(
                old(self)@.mem,
                long_writes(result_addr as int, u64_longs(result as u64)),
            ) {
                Ok(mem) => r == Ok::<i64, CpuError>(0) && final(self)@ == old(self)@.with_mem(mem),
                Err(e) => r == Err::<i64, CpuError>(e),
            },
            !(result >= 0 && result_addr != 0) ==> r == Ok::<i64, CpuError>(result) && final(self)@ == old(self)@,
    {
        if result >= 0 && result_addr != 0 {
            let v = result as u64;
            let vals = vec![(v / 0x1_0000_0000) as u32, (v % 0x1_0000_0000) as u32];
            assert(vals@ =~= u64_longs(result as u64));
            self.write_longs(result_addr, &vals)?;
            Ok(0)
        } else {
            Ok(result)
        }
    }
}

} // verus!
