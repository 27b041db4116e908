//! Laws of the structures the host and the guest exchange: what is stored in the
//! guest's layout reads back as it was stored.

use vstd::prelude::*;

use crate::cpu::kernel_structs::{
    be_u64, itimerval_at, itimerval_writes, llseek_offset_spec, long_writes, longs_at, rlimit64_at, rlimit64_longs,
    time_pair_at, time_writes, u64_longs, Itimerval,
};
use crate::cpu::guest_structs::u64_be_bytes;
use crate::cpu::setup::apply_writes;
use crate::error::CpuError;
use crate::memory::{
    be_u32, lemma_be_u32_roundtrip, lemma_read_after_write, lemma_write_frame, mem_read, mem_write, u32_be_bytes,
    SegmentView,
};

verus! {

/// Making the writes `a + b` is making `a`, then `b` on what `a` left.
pub proof fn lemma_apply_writes_append(mem: Seq<SegmentView>, a: Seq<(int, Seq<u8>)>, b: Seq<(int, Seq<u8>)>)
    ensures
        apply_writes(mem, a + b) == match apply_writes(mem, a) {
            Ok(m) => apply_writes(m, b),
            Err(e) => Err(e),
        },
    decreases b.len(),
{
    if b.len() == 0 {
        assert(a + b =~= a);
    } else {
        assert((a + b).drop_last() =~= a + b.drop_last());
        assert((a + b).last() == b.last());
        lemma_apply_writes_append(mem, a, b.drop_last());
    }
}

/// The last of several writes that succeeded, made on what the others left.
proof fn lemma_apply_last(mem: Seq<SegmentView>, ws: Seq<(int, Seq<u8>)>)
    requires
        ws.len() > 0,
        apply_writes(mem, ws) is Ok,
    ensures
        apply_writes(mem, ws.drop_last()) is Ok,
        mem_write(apply_writes(mem, ws.drop_last()).unwrap(), ws.last().0, ws.last().1) == Some(
            apply_writes(mem, ws).unwrap(),
        ),
{
}

/// A write that does not touch `[addr, addr + 4k)` leaves the longs there as they were.
proof fn lemma_longs_frame(mem: Seq<SegmentView>, addr: usize, k: nat, waddr: int, data: Seq<u8>)
    requires
        mem_write(mem, waddr, data) is Some,
        waddr + data.len() <= addr || addr + 4 * k <= waddr,
    ensures
        longs_at(mem_write(mem, waddr, data).unwrap(), addr, k) == longs_at(mem, addr, k),
    decreases k,
{
    if k > 0 {
        lemma_longs_frame(mem, addr, (k - 1) as nat, waddr, data);
        lemma_write_frame(mem, waddr, data, addr + 4 * (k - 1), 4);
    }
}

/// Longs stored one after another from `addr` on read back as they were stored.
pub proof fn law_longs_roundtrip(mem: Seq<SegmentView>, addr: usize, vals: Seq<u32>)
    requires
        apply_writes(mem, long_writes(addr as int, vals)) is Ok,
    ensures
        longs_at(apply_writes(mem, long_writes(addr as int, vals)).unwrap(), addr, vals.len()) == Ok::<
            Seq<u32>,
            CpuError,
        >(vals),
    decreases vals.len(),
{
    if vals.len() > 0 {
        let n = vals.len() - 1;
        let front = vals.drop_last();
        let ws = long_writes(addr as int, vals);
        assert(ws.drop_last() =~= long_writes(addr as int, front));
        lemma_apply_last(mem, ws);
        let m1 = apply_writes(mem, long_writes(addr as int, front)).unwrap();
        let m2 = apply_writes(mem, ws).unwrap();
        law_longs_roundtrip(mem, addr, front);
        let data = u32_be_bytes(vals[n]);
        assert(ws.last() == (addr + 4 * n, data));
        assert(mem_write(m1, addr + 4 * n, data) == Some(m2));
        lemma_be_u32_roundtrip(vals[n]);
        lemma_longs_frame(m1, addr, n as nat, addr + 4 * n, data);
        lemma_read_after_write(m1, addr + 4 * n, data);
        assert(longs_at(m2, addr, n as nat) == Ok::<Seq<u32>, CpuError>(front));
        assert(mem_read(m2, addr + 4 * n, 4) == Some(data));
        assert(front.push(vals[n]) =~= vals);
        assert(longs_at(m2, addr, vals.len()) == Ok::<Seq<u32>, CpuError>(front.push(be_u32(data))));
    } else {
        assert(vals =~= Seq::<u32>::empty());
    }
}

/// The eight big-endian bytes of a 64-bit value decode to the value.
proof fn lemma_be_u64_roundtrip(v: u64)
    ensures
        be_u64(u64_be_bytes(v)) == v,
        u64_be_bytes(v).len() == 8,
{
    let hi = (v / 0x1_0000_0000) as u32;
    let lo = (v % 0x1_0000_0000) as u32;
    lemma_be_u32_roundtrip(hi);
    lemma_be_u32_roundtrip(lo);
    let b = u64_be_bytes(v);
    assert(b.subrange(0, 4) =~= u32_be_bytes(hi));
    assert(b.subrange(4, 8) =~= u32_be_bytes(lo));
    assert(hi as int * 0x1_0000_0000 + lo as int == v) by (nonlinear_arith)
        requires
            hi == v / 0x1_0000_0000,
            lo == v % 0x1_0000_0000,
    ;
}

/// A 64-bit signed value survives its unsigned bit pattern.
proof fn lemma_i64_u64_roundtrip(x: i64)
    ensures
        x as u64 as i64 == x,
{
    assert(x as u64 as i64 == x) by (bit_vector);
}

/// A time stored as the guest's 64-bit seconds and a sub-second long reads back as
/// stored, where the sub-second part fits in the long.
pub proof fn law_time_pair_roundtrip(mem: Seq<SegmentView>, addr: usize, sec: i64, frac: i64)
    requires
        0 <= frac <= u32::MAX,
        apply_writes(mem, time_writes(addr as int, sec, frac)) is Ok,
    ensures
        time_pair_at(apply_writes(mem, time_writes(addr as int, sec, frac)).unwrap(), addr) == Ok::<
            (i64, u32),
            CpuError,
        >((sec, frac as u32)),
{
    let ws = time_writes(addr as int, sec, frac);
    let s = u64_be_bytes(sec as u64);
    let f = u32_be_bytes(frac as u32);
    lemma_be_u64_roundtrip(sec as u64);
    lemma_be_u32_roundtrip(frac as u32);
    lemma_i64_u64_roundtrip(sec);
    lemma_apply_last(mem, ws);
    lemma_apply_last(mem, ws.drop_last());
    assert(ws.drop_last().drop_last() =~= Seq::<(int, Seq<u8>)>::empty());
    assert(ws.drop_last().last() == (addr as int, s));
    assert(ws.last() == (addr + 8, f));
    assert(mem_write(mem, addr as int, s) is Some);
    let m1 = mem_write(mem, addr as int, s).unwrap();
    assert(apply_writes(mem, ws.drop_last()) == Ok::<Seq<SegmentView>, CpuError>(m1));
    lemma_read_after_write(mem, addr as int, s);
    lemma_read_after_write(m1, addr + 8, f);
    lemma_write_frame(m1, addr + 8, f, addr as int, 8);
}

/// Storing a time pair at `addr` leaves a time pair at `raddr` that does not overlap
/// it as it was.
proof fn lemma_time_pair_frame(mem: Seq<SegmentView>, addr: usize, sec: i64, frac: i64, raddr: usize)
    requires
        apply_writes(mem, time_writes(addr as int, sec, frac)) is Ok,
        raddr + 12 <= addr || addr + 12 <= raddr,
    ensures
        time_pair_at(apply_writes(mem, time_writes(addr as int, sec, frac)).unwrap(), raddr) == time_pair_at(
            mem,
            raddr,
        ),
{
    let ws = time_writes(addr as int, sec, frac);
    let s = u64_be_bytes(sec as u64);
    let f = u32_be_bytes(frac as u32);
    lemma_be_u64_roundtrip(sec as u64);
    lemma_be_u32_roundtrip(frac as u32);
    lemma_apply_last(mem, ws);
    lemma_apply_last(mem, ws.drop_last());
    assert(ws.drop_last().drop_last() =~= Seq::<(int, Seq<u8>)>::empty());
    assert(ws.drop_last().last() == (addr as int, s));
    assert(ws.last() == (addr + 8, f));
    let m1 = mem_write(mem, addr as int, s).unwrap();
    lemma_write_frame(mem, addr as int, s, raddr as int, 8);
    lemma_write_frame(mem, addr as int, s, raddr + 8, 4);
    lemma_write_frame(m1, addr + 8, f, raddr as int, 8);
    lemma_write_frame(m1, addr + 8, f, raddr + 8, 4);
}

/// An interval timer stored in the guest's `struct itimerval` reads back as stored,
/// where both sub-second parts fit in a long.
pub proof fn law_itimerval_roundtrip(mem: Seq<SegmentView>, addr: usize, v: Itimerval)
    requires
        0 <= v.interval_usec <= u32::MAX,
        0 <= v.value_usec <= u32::MAX,
        addr + 24 <= usize::MAX,
        apply_writes(mem, itimerval_writes(addr as int, v)) is Ok,
    ensures
        itimerval_at(apply_writes(mem, itimerval_writes(addr as int, v)).unwrap(), addr) == Ok::<
            Itimerval,
            CpuError,
        >(v),
{
    let a = time_writes(addr as int, v.interval_sec, v.interval_usec);
    let b = time_writes(addr + 12, v.value_sec, v.value_usec);
    lemma_apply_writes_append(mem, a, b);
    let m1 = apply_writes(mem, a).unwrap();
    law_time_pair_roundtrip(mem, addr, v.interval_sec, v.interval_usec);
    law_time_pair_roundtrip(m1, (addr + 12) as usize, v.value_sec, v.value_usec);
    lemma_time_pair_frame(m1, (addr + 12) as usize, v.value_sec, v.value_usec, addr);
}

/// Resource limits stored in the guest's `struct rlimit64` read back as stored.
pub proof fn law_rlimit64_roundtrip(mem: Seq<SegmentView>, addr: usize, cur: u64, max: u64)
    requires
        apply_writes(mem, long_writes(addr as int, rlimit64_longs(cur, max))) is Ok,
    ensures
        rlimit64_at(apply_writes(mem, long_writes(addr as int, rlimit64_longs(cur, max))).unwrap(), addr) == Ok::<
            (u64, u64),
            CpuError,
        >((cur, max)),
{
    let vals = rlimit64_longs(cur, max);
    law_longs_roundtrip(mem, addr, vals);
    assert(vals.len() == 4);
    assert(((cur / 0x1_0000_0000) as u32) as int * 0x1_0000_0000 + ((cur % 0x1_0000_0000) as u32) as int == cur)
        by (nonlinear_arith);
    assert(((max / 0x1_0000_0000) as u32) as int * 0x1_0000_0000 + ((max % 0x1_0000_0000) as u32) as int == max)
        by (nonlinear_arith);
}

/// A file offset stored as two longs, high first, reads back as the same offset.
pub proof fn law_loff_roundtrip(mem: Seq<SegmentView>, addr: usize, off: i64)
    requires
        apply_writes(mem, long_writes(addr as int, u64_longs(off as u64))) is Ok,
    ensures
        ({
            let v = longs_at(apply_writes(mem, long_writes(addr as int, u64_longs(off as u64))).unwrap(), addr, 2);
            v is Ok && llseek_offset_spec(v.unwrap()[0], v.unwrap()[1]) == off
        }),
{
    let u = off as u64;
    law_longs_roundtrip(mem, addr, u64_longs(u));
    assert(((u / 0x1_0000_0000) as u32) as int * 0x1_0000_0000 + ((u % 0x1_0000_0000) as u32) as int == u)
        by (nonlinear_arith);
    lemma_i64_u64_roundtrip(off);
}

} // verus!
