//! Directory entries read by the host's `getdents64`, laid out again in the guest's
//! record formats.

use vstd::prelude::*;

use crate::cpu::guest_structs::word_bytes;
use crate::cpu::setup::{apply_writes, write_all, writes_view};
use crate::cpu::Cpu;
use crate::error::CpuError;
use crate::memory::{u16_be_bytes, SegmentView};

verus! {

/// The host's little-endian 16-bit value at `i` (a record's `d_reclen` at `i`).
pub open spec fn host_u16(host: Seq<u8>, i: int) -> int {
    host[i] as int + 256 * host[i + 1] as int
}

/// The low `n` bytes of the little-endian host field at `i`, most significant first:
/// the field narrowed to `n` bytes, in guest byte order.
pub open spec fn swapped(host: Seq<u8>, i: int, n: int) -> Seq<u8> {
    Seq::new(n as nat, |k: int| host[i + n - 1 - k])
}

/// Where the name that starts at `start` ends: at its first NUL before `end`, else at `end`.
pub open spec fn name_end(host: Seq<u8>, start: int, end: int) -> int
    decreases end - start,
{
    if start >= end {
        end
    } else if host[start] == 0 {
        start
    } else {
        name_end(host, start + 1, end)
    }
}

/// Length of a guest record for a name of `n` bytes: a `linux_dirent64` (19 bytes of
/// header, the name, its NUL) rounded up to 8 bytes, or an old `linux_dirent` (10
/// bytes of header, the name, its NUL, `d_type` in the last byte) rounded up to 2.
pub open spec fn guest_reclen(wide: bool, n: int) -> int {
    if wide {
        (20 + n + 7) / 8 * 8
    } else {
        (12 + n + 1) / 2 * 2
    }
}

/// Single zero bytes written one by one at `start`, `start + 1`, ... (`k` of them).
pub open spec fn zero_writes(start: int, k: int) -> Seq<(int, Seq<u8>)> {
    Seq::new(k as nat, |i: int| (start + i, seq![0u8]))
}

/// The writes that store the guest record at `d` for the host record at `h`, whose
/// name is `n` bytes long: inode and offset narrowed and in guest byte order, the
/// guest record length, the type, the name and its NUL, zero padding.
pub open spec fn record_writes(host: Seq<u8>, wide: bool, d: int, h: int, n: int) -> Seq<(int, Seq<u8>)> {
    let len = guest_reclen(wide, n);
    let name = host.subrange(h + 19, h + 19 + n);
    if wide {
        seq![
            (d, swapped(host, h, 8)),
            (d + 8, swapped(host, h + 8, 8)),
            (d + 16, u16_be_bytes(len as u16)),
            (d + 18, seq![host[h + 18]]),
            (d + 19, name),
            (d + 19 + n, seq![0u8]),
        ] + zero_writes(d + 20 + n, len - 20 - n)
    } else {
        seq![
            (d, swapped(host, h, 4)),
            (d + 4, swapped(host, h + 8, 4)),
            (d + 8, u16_be_bytes(len as u16)),
            (d + 10, name),
            (d + 10 + n, seq![0u8]),
        ] + zero_writes(d + 11 + n, len - 12 - n) + seq![(d + len - 1, seq![host[h + 18]])]
    }
}

/// The guest writes for the host records from host offset `h` on, placed from guest
/// offset `g` on, with the guest offset reached; `None` where a record's length is
/// shorter than its header or runs past the host buffer. Records stop where fewer
/// than a header's bytes are left of the `len` the host filled, or where the next
/// guest record would pass `count`.
pub open spec fn dirents_plan(host: Seq<u8>, len: int, wide: bool, dirp: int, count: int, h: int, g: int) -> Option<
    (Seq<(int, Seq<u8>)>, int),
>
    decreases host.len() - h,
{
    if h < 0 || h + 19 > len {
        Some((Seq::empty(), g))
    } else {
        let reclen = host_u16(host, h + 16);
        if reclen < 19 || h + reclen > host.len() {
            None
        } else {
            let n = name_end(host, h + 19, h + reclen) - (h + 19);
            let glen = guest_reclen(wide, n);
            if g + glen > count {
                Some((Seq::empty(), g))
            } else {
                match dirents_plan(host, len, wide, dirp, count, h + reclen, g + glen) {
                    None => None,
                    Some(rest) => Some((record_writes(host, wide, dirp + g, h, n) + rest.0, rest.1)),
                }
            }
        }
    }
}

/// `plan` with the writes `ws` put before its own.
pub open spec fn after_writes(ws: Seq<(int, Seq<u8>)>, plan: Option<(Seq<(int, Seq<u8>)>, int)>) -> Option<
    (Seq<(int, Seq<u8>)>, int),
> {
    match plan {
        None => None,
        Some(p) => Some((ws + p.0, p.1)),
    }
}

/// Every write of `ws` lies within `[lo, hi)`.
pub open spec fn writes_within(ws: Seq<(int, Seq<u8>)>, lo: int, hi: int) -> bool {
    forall|i: int| 0 <= i < ws.len() ==> lo <= (#[trigger] ws[i]).0 && ws[i].0 + ws[i].1.len() <= hi
}

/// A name ends between its start and the end of its record.
proof fn lemma_name_end_bounds(host: Seq<u8>, start: int, end: int)
    requires
        start <= end,
    ensures
        start <= name_end(host, start, end) <= end,
    decreases end - start,
{
    if start < end && host[start] != 0 {
        lemma_name_end_bounds(host, start + 1, end);
    }
}

/// The writes of one guest record stay within the record.
proof fn lemma_record_within(host: Seq<u8>, wide: bool, d: int, h: int, n: int)
    requires
        0 <= n,
        0 <= h,
        h + 19 + n <= host.len(),
    ensures
        writes_within(record_writes(host, wide, d, h, n), d, d + guest_reclen(wide, n)),
{
    let len = guest_reclen(wide, n);
    let ws = record_writes(host, wide, d, h, n);
    if wide {
        assert(len >= 20 + n);
        let head = seq![
            (d, swapped(host, h, 8)),
            (d + 8, swapped(host, h + 8, 8)),
            (d + 16, u16_be_bytes(len as u16)),
            (d + 18, seq![host[h + 18]]),
            (d + 19, host.subrange(h + 19, h + 19 + n)),
            (d + 19 + n, seq![0u8]),
        ];
        let pad = zero_writes(d + 20 + n, len - 20 - n);
        assert(ws =~= head + pad);
        assert forall|i: int| 0 <= i < ws.len() implies d <= (#[trigger] ws[i]).0 && ws[i].0 + ws[i].1.len() <= d
            + len by {
            if i >= head.len() {
                assert(ws[i] == pad[i - head.len()]);
            }
        }
    } else {
        assert(len >= 12 + n);
        let head = seq![
            (d, swapped(host, h, 4)),
            (d + 4, swapped(host, h + 8, 4)),
            (d + 8, u16_be_bytes(len as u16)),
            (d + 10, host.subrange(h + 19, h + 19 + n)),
            (d + 10 + n, seq![0u8]),
        ];
        let pad = zero_writes(d + 11 + n, len - 12 - n);
        let tail = seq![(d + len - 1, seq![host[h + 18]])];
        assert(ws =~= head + pad + tail);
        assert forall|i: int| 0 <= i < ws.len() implies d <= (#[trigger] ws[i]).0 && ws[i].0 + ws[i].1.len() <= d
            + len by {
            if head.len() <= i < head.len() + pad.len() {
                assert(ws[i] == pad[i - head.len()]);
            } else if i >= head.len() + pad.len() {
                assert(ws[i] == tail[i - head.len() - pad.len()]);
            }
        }
    }
}

/// The records laid out from guest offset `g` on stay between `dirp + g` and
/// `dirp + count`, and the offset reached is at most `count`.
proof fn lemma_plan_within(host: Seq<u8>, len: int, wide: bool, dirp: int, count: int, h: int, g: int)
    requires
        0 <= g <= count,
        dirents_plan(host, len, wide, dirp, count, h, g) is Some,
    ensures
        ({
            let p = dirents_plan(host, len, wide, dirp, count, h, g).unwrap();
            g <= p.1 <= count && writes_within(p.0, dirp + g, dirp + p.1)
        }),
    decreases host.len() - h,
{
    if !(h < 0 || h + 19 > len) {
        let reclen = host_u16(host, h + 16);
        if !(reclen < 19 || h + reclen > host.len()) {
            lemma_name_end_bounds(host, h + 19, h + reclen);
            let n = name_end(host, h + 19, h + reclen) - (h + 19);
            let glen = guest_reclen(wide, n);
            if g + glen <= count {
                lemma_plan_within(host, len, wide, dirp, count, h + reclen, g + glen);
                lemma_record_within(host, wide, dirp + g, h, n);
                let rest = dirents_plan(host, len, wide, dirp, count, h + reclen, g + glen).unwrap();
                let rec = record_writes(host, wide, dirp + g, h, n);
                let all = rec + rest.0;
                assert forall|i: int| 0 <= i < all.len() implies dirp + g <= (#[trigger] all[i]).0 && all[i].0
                    + all[i].1.len() <= dirp + rest.1 by {
                    if i < rec.len() {
                        assert(all[i] == rec[i]);
                    } else {
                        assert(all[i] == rest.0[i - rec.len()]);
                    }
                }
            }
        }
    }
}

/// Directory records laid out for the guest stay within the buffer it gave: every
/// byte written lies in `[dirp, dirp + total)`, and `total` is at most `count`.
pub proof fn law_dirents_within_buffer(host: Seq<u8>, len: int, wide: bool, dirp: int, count: int)
    requires
        0 <= count,
        dirents_plan(host, len, wide, dirp, count, 0, 0) is Some,
    ensures
        ({
            let p = dirents_plan(host, len, wide, dirp, count, 0, 0).unwrap();
            0 <= p.1 <= count && writes_within(p.0, dirp, dirp + p.1)
        }),
{
    lemma_plan_within(host, len, wide, dirp, count, 0, 0);
}

/// The `n` bytes of `host` from `i` on, last first.
fn swapped_bytes(host: &[u8], i: usize, n: usize) -> (r: Vec<u8>)
    requires
        i + n <= host@.len(),
    ensures
        r@ == swapped(host@, i as int, n as int),
{
    let hl = host.len();
    let mut r: Vec<u8> = Vec::new();
    let mut k: usize = 0;
    while k < n
        invariant
            k <= n,
            i + n <= host@.len(),
            hl == host@.len(),
            r@ == swapped(host@, i as int, n as int).take(k as int),
        decreases n - k,
    {
        r.push(host[i + (n - 1 - k)]);
        assert(r@ =~= swapped(host@, i as int, n as int).take(k + 1));
        k = k + 1;
    }
    assert(r@ =~= swapped(host@, i as int, n as int));
    r
}

/// Offset of the end of the name that starts at `start`, as `name_end` has it.
fn find_name_end(host: &[u8], start: usize, end: usize) -> (r: usize)
    requires
        start <= end <= host@.len(),
    ensures
        r == name_end(host@, start as int, end as int),
        start <= r <= end,
{
    let mut e = start;
    while e < end && host[e] != 0
        invariant
            start <= e <= end,
            end <= host@.len(),
            name_end(host@, start as int, end as int) == name_end(host@, e as int, end as int),
        decreases end - e,
    {
        e = e + 1;
    }
    e
}

/// Put the writes of one guest record at `d` (for the host record at `h` with a
/// name of `n` bytes and a guest length of `glen`) after those in `w`.
fn push_record(w: &mut Vec<(usize, Vec<u8>)>, host: &[u8], wide: bool, d: usize, h: usize, n: usize, glen: usize)
    requires
        h + 19 + n <= host@.len(),
        glen == guest_reclen(wide, n as int),
        d + glen <= usize::MAX,
    ensures
        writes_view(final(w)@) == writes_view(old(w)@) + record_writes(host@, wide, d as int, h as int, n as int),
{
    let ghost w0 = writes_view(w@);
    let _hl = host.len();
    let name = vstd::slice::slice_to_vec(vstd::slice::slice_subrange(host, h + 19, h + 19 + n));
    assert(name@ =~= host@.subrange(h + 19, h + 19 + n));
    let ghost head: Seq<(int, Seq<u8>)>;
    let pad_start: usize;
    if wide {
        w.push((d, swapped_bytes(host, h, 8)));
        w.push((d + 8, swapped_bytes(host, h + 8, 8)));
        w.push((d + 16, word_bytes(glen as u16)));
        let t = vec![host[h + 18]];
        assert(t@ =~= seq![host@[h + 18]]);
        w.push((d + 18, t));
        w.push((d + 19, name));
        let z = vec![0u8];
        assert(z@ =~= seq![0u8]);
        w.push((d + 19 + n, z));
        pad_start = 20 + n;
        proof {
            head = seq![
                (d as int, swapped(host@, h as int, 8)),
                (d + 8, swapped(host@, h + 8, 8)),
                (d + 16, u16_be_bytes(glen as u16)),
                (d + 18, seq![host@[h + 18]]),
                (d + 19, host@.subrange(h + 19, h + 19 + n)),
                (d + 19 + n, seq![0u8]),
            ];
            assert(writes_view(w@) =~= w0 + head);
        }
    } else {
        w.push((d, swapped_bytes(host, h, 4)));
        w.push((d + 4, swapped_bytes(host, h + 8, 4)));
        w.push((d + 8, word_bytes(glen as u16)));
        w.push((d + 10, name));
        let z = vec![0u8];
        assert(z@ =~= seq![0u8]);
        w.push((d + 10 + n, z));
        pad_start = 11 + n;
        proof {
            head = seq![
                (d as int, swapped(host@, h as int, 4)),
                (d + 4, swapped(host@, h + 8, 4)),
                (d + 8, u16_be_bytes(glen as u16)),
                (d + 10, host@.subrange(h + 19, h + 19 + n)),
                (d + 10 + n, seq![0u8]),
            ];
            assert(writes_view(w@) =~= w0 + head);
        }
    }
    let pad_end: usize = if wide {
        glen
    } else {
        glen - 1
    };
    let mut i = pad_start;
    while i < pad_end
        invariant
            pad_start <= i <= pad_end,
            pad_end <= glen,
            d + glen <= usize::MAX,
            writes_view(w@) == w0 + head + zero_writes(d + pad_start, i - pad_start),
        decreases pad_end - i,
    {
        let ghost before = writes_view(w@);
        let z = vec![0u8];
        assert(z@ =~= seq![0u8]);
        w.push((d + i, z));
        assert(writes_view(w@) =~= before.push(((d + i) as int, seq![0u8])));
        assert(zero_writes(d + pad_start, i + 1 - pad_start) =~= zero_writes(d + pad_start, i - pad_start).push(
            ((d + i) as int, seq![0u8]),
        ));
        i = i + 1;
    }
    if !wide {
        let ghost before = writes_view(w@);
        let t = vec![host[h + 18]];
        assert(t@ =~= seq![host@[h + 18]]);
        w.push((d + glen - 1, t));
        assert(writes_view(w@) =~= before.push(((d + glen - 1) as int, seq![host@[h + 18]])));
    }
    assert(writes_view(w@) =~= w0 + record_writes(host@, wide, d as int, h as int, n as int));
}

impl Cpu {
    /// Lay out the directory entries that the host's `getdents64` put in
    /// `host[..len]` as guest records at `dirp`, filling at most `count` bytes:
    /// `linux_dirent64` records where `wide` holds, old `linux_dirent` records
    /// otherwise. Returns the number of bytes filled, or `None` where a host record's
    /// length is shorter than its header or runs past `host`.
    pub fn copy_dirents(&mut self, host: &[u8], len: usize, wide: bool, dirp: usize, count: usize) -> (r: Option<
        Result<i64, CpuError>,
    >)
        requires
            len <= host@.len(),
            dirp + count <= usize::MAX,
            count <= i64::MAX,
        ensures
            match dirents_plan(host@, len as int, wide, dirp as int, count as int, 0, 0) {
                None => r is None,
                Some(p) => match apply_writes(old(self)@.mem, p.0) {
                    Ok(mem) => r == Some(Ok::<i64, CpuError>(p.1 as i64)) && final(self)@ == old(self)@.with_mem(mem),
                    Err(e) => r == Some(Err::<i64, CpuError>(e)),
                },
            },
    {
        let ghost plan = dirents_plan(host@, len as int, wide, dirp as int, count as int, 0, 0);
        let mut w: Vec<(usize, Vec<u8>)> = Vec::new();
        let mut h: usize = 0;
        let mut g: usize = 0;
        assert(writes_view(w@) =~= Seq::<(int, Seq<u8>)>::empty());
        assert(after_writes(Seq::empty(), plan) =~~= plan);
        loop
            invariant
                len <= host@.len(),
                dirp + count <= usize::MAX,
                count <= i64::MAX,
                g <= count,
                h <= host@.len(),
                plan == dirents_plan(host@, len as int, wide, dirp as int, count as int, 0, 0),
                plan == after_writes(
                    writes_view(w@),
                    dirents_plan(host@, len as int, wide, dirp as int, count as int, h as int, g as int),
                ),
            ensures
                g <= count <= i64::MAX,
                plan == Some((writes_view(w@), g as int)),
            decreases host@.len() - h,
        {
            if len < 19 || h > len - 19 {
                assert(writes_view(w@) + Seq::<(int, Seq<u8>)>::empty() =~= writes_view(w@));
                break;
            }
            let reclen: usize = host[h + 16] as usize + 256 * host[h + 17] as usize;
            if reclen < 19 || reclen > host.len() - h {
                return None;
            }
            let start = h + 19;
            let e = find_name_end(host, start, h + reclen);
            let n = e - start;
            let glen: usize = if wide {
                (20 + n + 7) / 8 * 8
            } else {
                (12 + n + 1) / 2 * 2
            };
            if glen > count - g {
                assert(writes_view(w@) + Seq::<(int, Seq<u8>)>::empty() =~= writes_view(w@));
                break;
            }
            let ghost before = writes_view(w@);
            push_record(&mut w, host, wide, dirp + g, h, n, glen);
            proof {
                let rest = dirents_plan(host@, len as int, wide, dirp as int, count as int, (h + reclen) as int, (g + glen) as int);
                match rest {
                    None => {},
                    Some(p) => {
                        assert(before + (record_writes(host@, wide, (dirp + g) as int, h as int, n as int) + p.0)
                            =~= writes_view(w@) + p.0);
                    },
                }
            }
            h = h + reclen;
            g = g + glen;
        }
        let ghost m0 = self@;
        let r = write_all(&mut self.memory, &w);
        proof {
            match apply_writes(m0.mem, writes_view(w@)) {
                Ok(mem) => {
                    assert(self@ =~= m0.with_mem(mem));
                },
                Err(_) => {},
            }
        }
        match r {
            Ok(()) => Some(Ok(g as i64)),
            Err(e) => Some(Err(e)),
        }
    }
}

} // verus!
