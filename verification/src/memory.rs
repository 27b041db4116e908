//! The guest address space: a list of segments, each a run of bytes at a
//! virtual address. Multi-byte values are big-endian, as on the m68k.

use vstd::prelude::*;

use crate::error::CpuError;

verus! {

/// One mapped region of guest memory.
#[derive(Clone, Debug)]
pub struct MemorySegment {
    pub vaddr: usize,
    pub data: Vec<u8>,
    pub flags: u32,
    pub align: usize,
}

/// The mathematical content of a segment.
pub struct SegmentView {
    pub vaddr: int,
    pub bytes: Seq<u8>,
    pub flags: u32,
    pub align: usize,
}

impl View for MemorySegment {
    type V = SegmentView;

    open spec fn view(&self) -> SegmentView {
        SegmentView { vaddr: self.vaddr as int, bytes: self.data@, flags: self.flags, align: self.align }
    }
}

impl MemorySegment {
    /// Number of bytes in the segment.
    pub fn len(&self) -> (r: usize)
        ensures
            r == self.data@.len(),
    {
        self.data.len()
    }
}

/// The whole guest address space.
#[derive(Clone, Debug)]
pub struct MemoryImage {
    pub segments: Vec<MemorySegment>,
}

impl View for MemoryImage {
    type V = Seq<SegmentView>;

    open spec fn view(&self) -> Seq<SegmentView> {
        self.segments@.map_values(|s: MemorySegment| s@)
    }
}

/// The segment holds every byte of `[addr, addr + len)`.
pub open spec fn seg_covers(s: SegmentView, addr: int, len: int) -> bool {
    &&& 0 <= len
    &&& s.vaddr <= addr
    &&& addr + len <= s.vaddr + s.bytes.len()
}

/// The first segment at index `k` or later that holds all of `[addr, addr + len)`.
pub open spec fn find_cover_from(segs: Seq<SegmentView>, addr: int, len: int, k: int) -> Option<int>
    decreases segs.len() - k,
{
    if k < 0 || k >= segs.len() {
        None
    } else if seg_covers(segs[k], addr, len) {
        Some(k)
    } else {
        find_cover_from(segs, addr, len, k + 1)
    }
}

/// The segment that serves an access to `[addr, addr + len)`: the first that holds it all.
pub open spec fn find_cover(segs: Seq<SegmentView>, addr: int, len: int) -> Option<int> {
    find_cover_from(segs, addr, len, 0)
}

/// The bytes `[addr, addr + len)`, where one segment holds them all.
pub open spec fn mem_read(segs: Seq<SegmentView>, addr: int, len: int) -> Option<Seq<u8>> {
    match find_cover(segs, addr, len) {
        Some(i) => Some(
            segs[i].bytes.subrange(addr - segs[i].vaddr, addr - segs[i].vaddr + len),
        ),
        None => None,
    }
}

/// `bytes` with `data` written over it from offset `off` on.
pub open spec fn splice(bytes: Seq<u8>, off: int, data: Seq<u8>) -> Seq<u8> {
    bytes.subrange(0, off) + data + bytes.subrange(off + data.len(), bytes.len() as int)
}

/// The address space after writing `data` at `addr`, where one segment holds the range.
pub open spec fn mem_write(segs: Seq<SegmentView>, addr: int, data: Seq<u8>) -> Option<Seq<SegmentView>> {
    match find_cover(segs, addr, data.len() as int) {
        Some(i) => Some(
            segs.update(
                i,
                SegmentView { bytes: splice(segs[i].bytes, addr - segs[i].vaddr, data), ..segs[i] },
            ),
        ),
        None => None,
    }
}

/// Two address spaces with the same segments at the same places and of the same lengths.
pub open spec fn same_layout(s1: Seq<SegmentView>, s2: Seq<SegmentView>) -> bool {
    &&& s1.len() == s2.len()
    &&& forall|k: int|
        0 <= k < s1.len() ==> (#[trigger] s1[k]).vaddr == s2[k].vaddr && s1[k].bytes.len()
            == s2[k].bytes.len() && s1[k].flags == s2[k].flags && s1[k].align == s2[k].align
}

/// The first segment at index `k` or later that starts at `base`.
pub open spec fn find_base_from(segs: Seq<SegmentView>, base: int, k: int) -> Option<int>
    decreases segs.len() - k,
{
    if k < 0 || k >= segs.len() {
        None
    } else if segs[k].vaddr == base {
        Some(k)
    } else {
        find_base_from(segs, base, k + 1)
    }
}

/// `bytes` cut or zero-extended to `n` bytes.
pub open spec fn resized(bytes: Seq<u8>, n: int) -> Seq<u8> {
    if n <= bytes.len() {
        bytes.subrange(0, n)
    } else {
        bytes + Seq::new((n - bytes.len()) as nat, |_i: int| 0u8)
    }
}

/// The address space after the first segment that starts at `base` is made `n` bytes long.
pub open spec fn mem_resize(segs: Seq<SegmentView>, base: int, n: int) -> Option<Seq<SegmentView>> {
    match find_base_from(segs, base, 0) {
        Some(i) => Some(segs.update(i, SegmentView { bytes: resized(segs[i].bytes, n), ..segs[i] })),
        None => None,
    }
}

/// Properties of the search for a segment by its start.
pub proof fn lemma_find_base_from(segs: Seq<SegmentView>, base: int, k: int)
    requires
        0 <= k,
    ensures
        match find_base_from(segs, base, k) {
            Some(i) => k <= i < segs.len() && segs[i].vaddr == base,
            None => forall|j: int| k <= j < segs.len() ==> (#[trigger] segs[j]).vaddr != base,
        },
    decreases segs.len() - k,
{
    if k < segs.len() && segs[k].vaddr != base {
        lemma_find_base_from(segs, base, k + 1);
    }
}

/// The range `[start, start + len)` meets the segment.
pub open spec fn overlaps(s: SegmentView, start: int, len: int) -> bool {
    start < s.vaddr + s.bytes.len() && s.vaddr < start + len
}

/// The range `[start, start + len)` lies in the 32-bit address space and meets no
/// segment.
pub open spec fn range_free(segs: Seq<SegmentView>, start: int, len: int) -> bool {
    &&& 0 <= start < 0x1_0000_0000
    &&& start + len <= 0x1_0000_0000
    &&& forall|i: int| 0 <= i < segs.len() ==> !overlaps(#[trigger] segs[i], start, len)
}

/// The places a new mapping is tried at, in order: 0x4000_0000 first, then the
/// page after the end of each segment (for the segments that end in the 32-bit
/// space).
pub open spec fn map_candidate(segs: Seq<SegmentView>, k: int) -> Option<int> {
    if k == 0 {
        Some(0x4000_0000)
    } else {
        let e = segs[k - 1].vaddr + segs[k - 1].bytes.len();
        if e <= 0x1_0000_0000 {
            Some(((e + 4095) / 4096) * 4096)
        } else {
            None
        }
    }
}

/// The first candidate, from the `k`-th on, where `len` bytes are free.
pub open spec fn free_range_from(segs: Seq<SegmentView>, len: int, k: int) -> Option<int>
    decreases segs.len() + 1 - k,
{
    if k < 0 || k > segs.len() {
        None
    } else {
        match map_candidate(segs, k) {
            Some(c) => if range_free(segs, c, len) {
                Some(c)
            } else {
                free_range_from(segs, len, k + 1)
            },
            None => free_range_from(segs, len, k + 1),
        }
    }
}

/// Properties of the search for a free range.
pub proof fn lemma_free_range_from(segs: Seq<SegmentView>, len: int, k: int)
    requires
        0 <= k,
    ensures
        free_range_from(segs, len, k) matches Some(c) ==> range_free(segs, c, len),
    decreases segs.len() + 1 - k,
{
    if k <= segs.len() {
        lemma_free_range_from(segs, len, k + 1);
    }
}

/// Big-endian value of two bytes.
pub open spec fn be_u16(b: Seq<u8>) -> u16 {
    (b[0] as int * 0x100 + b[1] as int) as u16
}

/// Big-endian value of four bytes.
pub open spec fn be_u32(b: Seq<u8>) -> u32 {
    (b[0] as int * 0x1000000 + b[1] as int * 0x10000 + b[2] as int * 0x100 + b[3] as int) as u32
}

/// Big-endian bytes of a word.
pub open spec fn u16_be_bytes(v: u16) -> Seq<u8> {
    seq![(v / 0x100) as u8, (v % 0x100) as u8]
}

/// Big-endian bytes of a long.
pub open spec fn u32_be_bytes(v: u32) -> Seq<u8> {
    seq![
        (v / 0x1000000) as u8,
        ((v / 0x10000) % 0x100) as u8,
        ((v / 0x100) % 0x100) as u8,
        (v % 0x100) as u8,
    ]
}

/// Properties of the first-cover search.
pub proof fn lemma_find_cover_from(segs: Seq<SegmentView>, addr: int, len: int, k: int)
    requires
        0 <= k,
    ensures
        match find_cover_from(segs, addr, len, k) {
            Some(i) => k <= i < segs.len() && seg_covers(segs[i], addr, len) && forall|j: int|
                k <= j < i ==> !seg_covers(#[trigger] segs[j], addr, len),
            None => forall|j: int| k <= j < segs.len() ==> !seg_covers(#[trigger] segs[j], addr, len),
        },
    decreases segs.len() - k,
{
    if k < segs.len() && !seg_covers(segs[k], addr, len) {
        lemma_find_cover_from(segs, addr, len, k + 1);
    }
}

/// The first-cover search only looks at where segments are and how long they are.
pub proof fn lemma_find_cover_same_layout(
    s1: Seq<SegmentView>,
    s2: Seq<SegmentView>,
    addr: int,
    len: int,
    k: int,
)
    requires
        same_layout(s1, s2),
        0 <= k,
    ensures
        find_cover_from(s1, addr, len, k) == find_cover_from(s2, addr, len, k),
    decreases s1.len() - k,
{
    if k < s1.len() {
        assert(s1[k].vaddr == s2[k].vaddr);
        lemma_find_cover_same_layout(s1, s2, addr, len, k + 1);
    }
}

/// A write keeps every segment where it is and as long as it was.
pub proof fn lemma_write_same_layout(segs: Seq<SegmentView>, addr: int, data: Seq<u8>)
    requires
        mem_write(segs, addr, data) is Some,
    ensures
        same_layout(segs, mem_write(segs, addr, data).unwrap()),
{
    let i = find_cover(segs, addr, data.len() as int).unwrap();
    lemma_find_cover_from(segs, addr, data.len() as int, 0);
    let s2 = mem_write(segs, addr, data).unwrap();
    assert forall|k: int| 0 <= k < segs.len() implies (#[trigger] segs[k]).vaddr == s2[k].vaddr
        && segs[k].bytes.len() == s2[k].bytes.len() && segs[k].flags == s2[k].flags
        && segs[k].align == s2[k].align by {
        if k == i {
            let off = addr - segs[i].vaddr;
            assert(splice(segs[i].bytes, off, data).len() == segs[i].bytes.len());
        }
    }
}

/// Reading back what was just written gives the written bytes.
pub proof fn lemma_read_after_write(segs: Seq<SegmentView>, addr: int, data: Seq<u8>)
    requires
        mem_write(segs, addr, data) is Some,
    ensures
        mem_read(mem_write(segs, addr, data).unwrap(), addr, data.len() as int) == Some(data),
{
    let s2 = mem_write(segs, addr, data).unwrap();
    lemma_write_same_layout(segs, addr, data);
    lemma_find_cover_same_layout(segs, s2, addr, data.len() as int, 0);
    lemma_find_cover_from(segs, addr, data.len() as int, 0);
    let i = find_cover(segs, addr, data.len() as int).unwrap();
    let off = addr - segs[i].vaddr;
    assert(splice(segs[i].bytes, off, data).subrange(off, off + data.len()) =~= data);
}

/// A write leaves every byte range that does not overlap it as it was.
pub proof fn lemma_write_frame(segs: Seq<SegmentView>, addr: int, data: Seq<u8>, addr2: int, len2: int)
    requires
        mem_write(segs, addr, data) is Some,
        addr2 + len2 <= addr || addr + data.len() <= addr2,
    ensures
        mem_read(mem_write(segs, addr, data).unwrap(), addr2, len2) == mem_read(segs, addr2, len2),
{
    let s2 = mem_write(segs, addr, data).unwrap();
    lemma_write_same_layout(segs, addr, data);
    lemma_find_cover_same_layout(segs, s2, addr2, len2, 0);
    lemma_find_cover_from(segs, addr, data.len() as int, 0);
    lemma_find_cover_from(segs, addr2, len2, 0);
    let i = find_cover(segs, addr, data.len() as int).unwrap();
    match find_cover(segs, addr2, len2) {
        Some(j) => {
            if j == i {
                let off = addr - segs[i].vaddr;
                let off2 = addr2 - segs[i].vaddr;
                let b = segs[i].bytes;
                let nb = splice(b, off, data);
                assert(nb.subrange(off2, off2 + len2) =~= b.subrange(off2, off2 + len2));
            }
        },
        None => {},
    }
}

/// Decoding the big-endian bytes of a long gives the long back.
pub proof fn lemma_be_u32_roundtrip(v: u32)
    ensures
        be_u32(u32_be_bytes(v)) == v,
        u32_be_bytes(v).len() == 4,
{
    let b = u32_be_bytes(v);
    assert(b[0] as int == v / 0x1000000);
    assert(b[1] as int == (v / 0x10000) % 0x100);
    assert(b[2] as int == (v / 0x100) % 0x100);
    assert(b[3] as int == v % 0x100);
    assert((v / 0x1000000) * 0x1000000 + ((v / 0x10000) % 0x100) * 0x10000 + ((v / 0x100) % 0x100)
        * 0x100 + v % 0x100 == v) by (nonlinear_arith);
}

/// Decoding the big-endian bytes of a word gives the word back.
pub proof fn lemma_be_u16_roundtrip(v: u16)
    ensures
        be_u16(u16_be_bytes(v)) == v,
        u16_be_bytes(v).len() == 2,
{
    let b = u16_be_bytes(v);
    assert(b[0] as int == v / 0x100);
    assert(b[1] as int == v % 0x100);
}

impl MemoryImage {
    /// An address space with no segments.
    pub fn new() -> (r: MemoryImage)
        ensures
            r@ == Seq::<SegmentView>::empty(),
    {
        let r = MemoryImage { segments: Vec::new() };
        assert(r@ =~= Seq::<SegmentView>::empty());
        r
    }

    /// The segments, in order.
    pub fn segments(&self) -> (r: &Vec<MemorySegment>)
        ensures
            r == &self.segments,
    {
        &self.segments
    }

    /// Add a segment after all the others.
    pub fn add_segment(&mut self, segment: MemorySegment)
        ensures
            final(self)@ == old(self)@.push(segment@),
    {
        self.segments.push(segment);
        assert(self@ =~= old(self)@.push(segment@));
    }

    /// Remove the segment at `idx`.
    pub fn remove_segment(&mut self, idx: usize)
        requires
            idx < old(self)@.len(),
        ensures
            final(self)@ == old(self)@.remove(idx as int),
    {
        self.segments.remove(idx);
        assert(self@ =~= old(self)@.remove(idx as int));
    }

    /// Index of the first segment that holds all of `[addr, addr + len)`.
    pub fn find_segment(&self, addr: usize, len: usize) -> (r: Option<usize>)
        ensures
            r matches Some(i) ==> find_cover(self@, addr as int, len as int) == Some(i as int),
            r is None ==> find_cover(self@, addr as int, len as int) is None,
    {
        let mut i: usize = 0;
        while i < self.segments.len()
            invariant
                0 <= i <= self.segments@.len(),
                self@.len() == self.segments@.len(),
                find_cover(self@, addr as int, len as int) == find_cover_from(
                    self@,
                    addr as int,
                    len as int,
                    i as int,
                ),
            decreases self.segments@.len() - i,
        {
            let s = &self.segments[i];
            let n = s.data.len();
            if addr >= s.vaddr && addr - s.vaddr <= n && len <= n - (addr - s.vaddr) {
                assert(seg_covers(self@[i as int], addr as int, len as int));
                return Some(i);
            }
            assert(!seg_covers(self@[i as int], addr as int, len as int));
            i = i + 1;
        }
        None
    }

    /// Index of the first segment that holds the byte at `addr`.
    pub fn find_segment_index(&self, addr: usize) -> (r: Option<usize>)
        ensures
            r matches Some(i) ==> find_cover(self@, addr as int, 1) == Some(i as int),
            r is None ==> find_cover(self@, addr as int, 1) is None,
    {
        self.find_segment(addr, 1)
    }

    /// Whether one segment holds all of `[addr, addr + len)`.
    pub fn covers_range(&self, addr: usize, len: usize) -> (r: bool)
        ensures
            r == (find_cover(self@, addr as int, len as int) is Some),
    {
        self.find_segment(addr, len).is_some()
    }

    /// The bytes `[addr, addr + len)`.
    pub fn read_data(&self, addr: usize, len: usize) -> (r: Result<Vec<u8>, CpuError>)
        ensures
            match mem_read(self@, addr as int, len as int) {
                Some(b) => r matches Ok(v) && v@ == b,
                None => r == Err::<Vec<u8>, CpuError>(CpuError::MemoryFault { addr, len }),
            },
    {
        match self.find_segment(addr, len) {
            None => Err(CpuError::MemoryFault { addr, len }),
            Some(i) => {
                proof {
                    lemma_find_cover_from(self@, addr as int, len as int, 0);
                    assert(self@[i as int] == self.segments@[i as int]@);
                }
                let seg = &self.segments[i];
                let seg_len = seg.data.len();
                let off = addr - seg.vaddr;
                let mut out: Vec<u8> = Vec::new();
                let mut j: usize = 0;
                while j < len
                    invariant
                        j <= len,
                        off + len <= seg.data@.len(),
                        seg.data@.len() == seg_len,
                        out@ == seg.data@.subrange(off as int, off + j),
                    decreases len - j,
                {
                    out.push(seg.data[off + j]);
                    j = j + 1;
                    assert(out@ =~= seg.data@.subrange(off as int, off + j));
                }
                Ok(out)
            },
        }
    }

    /// The byte at `addr`.
    pub fn read_byte(&self, addr: usize) -> (r: Result<u8, CpuError>)
        ensures
            match mem_read(self@, addr as int, 1) {
                Some(b) => r == Ok::<u8, CpuError>(b[0]),
                None => r == Err::<u8, CpuError>(CpuError::MemoryFault { addr, len: 1 }),
            },
    {
        match self.find_segment(addr, 1) {
            None => Err(CpuError::MemoryFault { addr, len: 1 }),
            Some(i) => {
                proof {
                    lemma_find_cover_from(self@, addr as int, 1, 0);
                    assert(self@[i as int] == self.segments@[i as int]@);
                }
                let seg = &self.segments[i];
                Ok(seg.data[addr - seg.vaddr])
            },
        }
    }

    /// The big-endian word at `addr`.
    pub fn read_word(&self, addr: usize) -> (r: Result<u16, CpuError>)
        ensures
            match mem_read(self@, addr as int, 2) {
                Some(b) => r == Ok::<u16, CpuError>(be_u16(b)),
                None => r == Err::<u16, CpuError>(CpuError::MemoryFault { addr, len: 2 }),
            },
    {
        match self.find_segment(addr, 2) {
            None => Err(CpuError::MemoryFault { addr, len: 2 }),
            Some(i) => {
                proof {
                    lemma_find_cover_from(self@, addr as int, 2, 0);
                    assert(self@[i as int] == self.segments@[i as int]@);
                }
                let seg = &self.segments[i];
                let seg_len = seg.data.len();
                let off = addr - seg.vaddr;
                let b0 = seg.data[off] as u16;
                let b1 = seg.data[off + 1] as u16;
                Ok(b0 * 0x100 + b1)
            },
        }
    }

    /// The big-endian long at `addr`.
    pub fn read_long(&self, addr: usize) -> (r: Result<u32, CpuError>)
        ensures
            match mem_read(self@, addr as int, 4) {
                Some(b) => r == Ok::<u32, CpuError>(be_u32(b)),
                None => r == Err::<u32, CpuError>(CpuError::MemoryFault { addr, len: 4 }),
            },
    {
        match self.find_segment(addr, 4) {
            None => Err(CpuError::MemoryFault { addr, len: 4 }),
            Some(i) => {
                proof {
                    lemma_find_cover_from(self@, addr as int, 4, 0);
                    assert(self@[i as int] == self.segments@[i as int]@);
                }
                let seg = &self.segments[i];
                let seg_len = seg.data.len();
                let off = addr - seg.vaddr;
                let b0 = seg.data[off] as u32;
                let b1 = seg.data[off + 1] as u32;
                let b2 = seg.data[off + 2] as u32;
                let b3 = seg.data[off + 3] as u32;
                Ok(b0 * 0x1000000 + b1 * 0x10000 + b2 * 0x100 + b3)
            },
        }
    }

    /// Write `data` at `addr`.
    pub fn write_data(&mut self, addr: usize, data: &[u8]) -> (r: Result<(), CpuError>)
        ensures
            match mem_write(old(self)@, addr as int, data@) {
                Some(s) => r is Ok && final(self)@ == s,
                None => r == Err::<(), CpuError>(CpuError::MemoryFault { addr, len: data@.len() as usize })
                    && final(self)@ == old(self)@,
            },
    {
        let len = data.len();
        match self.find_segment(addr, len) {
            None => Err(CpuError::MemoryFault { addr, len }),
            Some(i) => {
                proof {
                    lemma_find_cover_from(self@, addr as int, len as int, 0);
                }
                assert(self@[i as int] == self.segments@[i as int]@);
                let ghost old_segs = self.segments@;
                let ghost old_bytes = self.segments@[i as int].data@;
                let seg_len = self.segments[i].data.len();
                let off = addr - self.segments[i].vaddr;
                let mut j: usize = 0;
                while j < len
                    invariant
                        j <= len,
                        len == data@.len(),
                        i < old_segs.len(),
                        off + len <= old_bytes.len(),
                        old_bytes.len() == seg_len,
                        self.segments@.len() == old_segs.len(),
                        forall|k: int|
                            0 <= k < old_segs.len() && k != i ==> self.segments@[k] == old_segs[k],
                        self.segments@[i as int].vaddr == old_segs[i as int].vaddr,
                        self.segments@[i as int].flags == old_segs[i as int].flags,
                        self.segments@[i as int].align == old_segs[i as int].align,
                        self.segments@[i as int].data@ == old_bytes.subrange(0, off as int)
                            + data@.subrange(0, j as int) + old_bytes.subrange(
                            off + j,
                            old_bytes.len() as int,
                        ),
                    decreases len - j,
                {
                    let ghost before = self.segments@[i as int].data@;
                    self.segments[i].data[off + j] = data[j];
                    j = j + 1;
                    assert(self.segments@[i as int].data@ =~= old_bytes.subrange(0, off as int)
                        + data@.subrange(0, j as int) + old_bytes.subrange(
                        off + j,
                        old_bytes.len() as int,
                    ));
                }
                proof {
                    assert(data@.subrange(0, len as int) =~= data@);
                    let s = mem_write(old(self)@, addr as int, data@).unwrap();
                    assert(self@ =~= s);
                }
                Ok(())
            },
        }
    }
    /// Index of the first segment that starts at `base`.
    pub fn find_segment_by_base(&self, base: usize) -> (r: Option<usize>)
        ensures
            r matches Some(i) ==> find_base_from(self@, base as int, 0) == Some(i as int),
            r is None ==> find_base_from(self@, base as int, 0) is None,
    {
        let mut i: usize = 0;
        while i < self.segments.len()
            invariant
                0 <= i <= self.segments@.len(),
                self@.len() == self.segments@.len(),
                find_base_from(self@, base as int, 0) == find_base_from(self@, base as int, i as int),
            decreases self.segments@.len() - i,
        {
            if self.segments[i].vaddr == base {
                assert(self@[i as int] == self.segments@[i as int]@);
                return Some(i);
            }
            assert(self@[i as int] == self.segments@[i as int]@);
            i = i + 1;
        }
        None
    }

    /// Make the first segment that starts at `base` exactly `new_len` bytes long,
    /// cutting it or extending it with zero bytes.
    pub fn resize_segment(&mut self, base: usize, new_len: usize) -> (r: Result<(), CpuError>)
        ensures
            match mem_resize(old(self)@, base as int, new_len as int) {
                Some(s) => r is Ok && final(self)@ == s,
                None => r == Err::<(), CpuError>(CpuError::SegmentNotFound { addr: base })
                    && final(self)@ == old(self)@,
            },
    {
        match self.find_segment_by_base(base) {
            None => Err(CpuError::SegmentNotFound { addr: base }),
            Some(i) => {
                proof {
                    lemma_find_base_from(self@, base as int, 0);
                    assert(self@[i as int] == self.segments@[i as int]@);
                }
                let ghost old_segs = self.segments@;
                let ghost old_bytes = self.segments@[i as int].data@;
                let cur = self.segments[i].data.len();
                if new_len <= cur {
                    self.segments[i].data.truncate(new_len);
                } else {
                    let mut j: usize = cur;
                    while j < new_len
                        invariant
                            cur <= j <= new_len,
                            cur == old_bytes.len(),
                            i < old_segs.len(),
                            self.segments@.len() == old_segs.len(),
                            forall|k: int|
                                0 <= k < old_segs.len() && k != i ==> self.segments@[k] == old_segs[k],
                            self.segments@[i as int].vaddr == old_segs[i as int].vaddr,
                            self.segments@[i as int].flags == old_segs[i as int].flags,
                            self.segments@[i as int].align == old_segs[i as int].align,
                            self.segments@[i as int].data@ == old_bytes + Seq::new(
                                (j - cur) as nat,
                                |_i: int| 0u8,
                            ),
                        decreases new_len - j,
                    {
                        self.segments[i].data.push(0u8);
                        j = j + 1;
                        assert(self.segments@[i as int].data@ =~= old_bytes + Seq::new(
                            (j - cur) as nat,
                            |_i: int| 0u8,
                        ));
                    }
                }
                proof {
                    let s = mem_resize(old(self)@, base as int, new_len as int).unwrap();
                    assert(self.segments@[i as int]@.bytes =~= s[i as int].bytes);
                    assert(self@ =~= s);
                }
                Ok(())
            },
        }
    }

    /// Whether `[start, start + len)` lies in the 32-bit space and meets no segment.
    fn range_is_free(&self, start: u64, len: usize) -> (r: bool)
        ensures
            r == range_free(self@, start as int, len as int),
    {
        let end = start as u128 + len as u128;
        if start >= 0x1_0000_0000 || end > 0x1_0000_0000 {
            return false;
        }
        let mut i: usize = 0;
        while i < self.segments.len()
            invariant
                0 <= i <= self.segments@.len() == self@.len(),
                end == start + len,
                forall|j: int| 0 <= j < i ==> !overlaps(#[trigger] self@[j], start as int, len as int),
            decreases self.segments@.len() - i,
        {
            let s = &self.segments[i];
            assert(self@[i as int] == s@);
            let seg_end = s.vaddr as u128 + s.data.len() as u128;
            if (start as u128) < seg_end && (s.vaddr as u128) < end {
                return false;
            }
            i = i + 1;
        }
        true
    }

    /// A free 32-bit range of `len` bytes: at 0x4000_0000, or else at the first page
    /// after the end of a segment where the range is free.
    pub fn find_free_range(&self, len: usize) -> (r: Option<usize>)
        ensures
            match free_range_from(self@, len as int, 0) {
                Some(c) => r == Some(c as usize) && range_free(self@, c, len as int),
                None => r is None,
            },
    {
        proof {
            lemma_free_range_from(self@, len as int, 0);
        }
        if self.range_is_free(0x4000_0000, len) {
            return Some(0x4000_0000);
        }
        let n = self.segments.len();
        let mut i: usize = 0;
        while i < n
            invariant
                n == self.segments@.len() == self@.len(),
                i <= n,
                free_range_from(self@, len as int, 0) == free_range_from(self@, len as int, i + 1),
            decreases n - i,
        {
            let s = &self.segments[i];
            assert(self@[i as int] == s@);
            let e = s.vaddr as u128 + s.data.len() as u128;
            if e <= 0x1_0000_0000 {
                let c = (((e + 4095) / 4096) * 4096) as u64;
                if self.range_is_free(c, len) {
                    return Some(c as usize);
                }
            }
            i = i + 1;
        }
        None
    }
}

} // verus!
