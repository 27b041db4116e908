//! The guest image an ELF executable describes: its loadable segments, zero-filled
//! past their file contents, the stack that ends at 0xC000_0000, and the facts the
//! auxiliary vector reports. goblin reads the headers; the rest is computed here.

use vstd::prelude::*;

use crate::cpu::syscall::zeros;
use crate::cpu::ElfInfo;
use crate::elf_flags::{flag_r, flag_w, pf_r, pf_w, pt_load, pt_tls, type_load, type_tls};
use crate::error::CpuError;
use crate::memory::{MemoryImage, MemorySegment, SegmentView};

verus! {

/// Where the guest stack ends.
pub const STACK_TOP: usize = 0xC000_0000;

/// How large the guest stack is (8 MiB).
pub const STACK_SIZE: usize = 0x80_0000;

/// The fields of one program header that the loader reads.
#[derive(Clone, Copy, Debug, PartialEq, Eq, Structural)]
pub struct ProgramHeader {
    pub p_type: u32,
    pub flags: u32,
    pub offset: u64,
    pub vaddr: u64,
    pub filesz: u64,
    pub memsz: u64,
    pub align: u64,
}

/// The fields of an ELF file that the loader reads.
#[derive(Clone, Debug)]
pub struct ElfHeaders {
    pub entry: u64,
    pub phoff: u64,
    pub phentsize: u16,
    pub phnum: u16,
    pub program_headers: Vec<ProgramHeader>,
}

/// The mathematical content of `ElfHeaders`.
pub struct ElfHeadersView {
    pub entry: u64,
    pub phoff: u64,
    pub phentsize: u16,
    pub phnum: u16,
    pub program_headers: Seq<ProgramHeader>,
}

impl View for ElfHeaders {
    type V = ElfHeadersView;

    open spec fn view(&self) -> ElfHeadersView {
        ElfHeadersView {
            entry: self.entry,
            phoff: self.phoff,
            phentsize: self.phentsize,
            phnum: self.phnum,
            program_headers: self.program_headers@,
        }
    }
}

/// The headers goblin's ELF parser reads from a file's bytes, or `None` where it
/// refuses them.
pub uninterp spec fn elf_parse(data: Seq<u8>) -> Option<ElfHeadersView>;

/// `goblin::elf::Elf::parse` on the file's bytes, its headers copied field for field;
/// `None` where goblin returns an error. What goblin reads from which bytes is named
/// by `elf_parse`, not stated.
#[verifier::external_body]
fn parse_elf(data: &[u8]) -> (r: Option<ElfHeaders>)
    ensures
        match r {
            Some(h) => elf_parse(data@) == Some(h@),
            None => elf_parse(data@) is None,
        },
{
    let elf = goblin::elf::Elf::parse(data).ok()?;
    let mut program_headers = Vec::new();
    for ph in elf.program_headers.iter() {
        let (p_type, flags, offset, vaddr) = (ph.p_type, ph.p_flags, ph.p_offset, ph.p_vaddr);
        let (filesz, memsz, align) = (ph.p_filesz, ph.p_memsz, ph.p_align);
        program_headers.push(ProgramHeader { p_type, flags, offset, vaddr, filesz, memsz, align });
    }
    let h = &elf.header;
    Some(ElfHeaders { entry: elf.entry, phoff: h.e_phoff, phentsize: h.e_phentsize, phnum: h.e_phnum, program_headers })
}

/// The segment a loadable program header describes: its file bytes followed by zeros
/// up to its size in memory; or why it cannot be made.
pub open spec fn load_segment(data: Seq<u8>, ph: ProgramHeader) -> Result<SegmentView, CpuError> {
    if ph.offset + ph.filesz > data.len() {
        Err(CpuError::SegmentOutsideFile { vaddr: ph.vaddr })
    } else if ph.memsz < ph.filesz {
        Err(CpuError::SegmentTooSmall { vaddr: ph.vaddr })
    } else if ph.memsz > usize::MAX {
        Err(CpuError::AddressOverflow)
    } else {
        Ok(
            SegmentView {
                vaddr: ph.vaddr as usize as int,
                bytes: data.subrange(ph.offset as int, ph.offset + ph.filesz) + zeros(ph.memsz - ph.filesz),
                flags: ph.flags,
                align: ph.align as usize,
            },
        )
    }
}

/// The segments of the loadable program headers, in file order; the first header
/// that cannot be loaded gives the error.
pub open spec fn load_segments(data: Seq<u8>, phs: Seq<ProgramHeader>) -> Result<Seq<SegmentView>, CpuError>
    decreases phs.len(),
{
    if phs.len() == 0 {
        Ok(Seq::empty())
    } else {
        match load_segments(data, phs.drop_last()) {
            Err(e) => Err(e),
            Ok(segs) => if phs.last().p_type == type_load() {
                match load_segment(data, phs.last()) {
                    Err(e) => Err(e),
                    Ok(s) => Ok(segs.push(s)),
                }
            } else {
                Ok(segs)
            },
        }
    }
}

/// The guest stack: zeroed, readable and writable, ending at `STACK_TOP`.
pub open spec fn stack_segment() -> SegmentView {
    SegmentView {
        vaddr: STACK_TOP - STACK_SIZE,
        bytes: zeros(STACK_SIZE as int),
        flags: flag_r() | flag_w(),
        align: 0x1000,
    }
}

/// The first program header of type `t`.
pub open spec fn first_of_type(phs: Seq<ProgramHeader>, t: u32) -> Option<ProgramHeader>
    decreases phs.len(),
{
    if phs.len() == 0 {
        None
    } else if phs[0].p_type == t {
        Some(phs[0])
    } else {
        first_of_type(phs.drop_first(), t)
    }
}

/// Where the program headers are in guest memory: `e_phoff` bytes after the first
/// loadable segment (or after 0x8000_0000 where there is none).
pub open spec fn phdr_vaddr(h: ElfHeadersView) -> int {
    let base = match first_of_type(h.program_headers, type_load()) {
        Some(ph) => ph.vaddr as int,
        None => 0x8000_0000,
    };
    base + h.phoff
}

/// The program-header address can be computed in 64 bits.
pub open spec fn elf_info_ok(h: ElfHeadersView) -> bool {
    phdr_vaddr(h) <= u64::MAX
}

/// The facts the auxiliary vector reports: entry point, program headers, and the
/// TLS template of the first PT_TLS header.
pub open spec fn elf_info_spec(h: ElfHeadersView) -> ElfInfo {
    let tls = first_of_type(h.program_headers, type_tls());
    ElfInfo {
        entry_point: h.entry as u32,
        phdr_addr: phdr_vaddr(h) as u32,
        phent_size: h.phentsize as u32,
        phnum: h.phnum as u32,
        tls_vaddr: match tls {
            Some(ph) => Some(ph.vaddr as u32),
            None => None,
        },
        tls_memsz: match tls {
            Some(ph) => ph.memsz as u32,
            None => 0,
        },
    }
}

/// The address space of a new image (its loadable segments, then the stack) and its
/// auxiliary-vector facts; or the first segment that cannot be loaded.
pub open spec fn elf_image_spec(data: Seq<u8>, h: ElfHeadersView) -> Result<(Seq<SegmentView>, ElfInfo), CpuError> {
    match load_segments(data, h.program_headers) {
        Err(e) => Err(e),
        Ok(segs) => Ok((segs.push(stack_segment()), elf_info_spec(h))),
    }
}

/// An image result agrees with its specification.
pub open spec fn image_outcome(
    r: Result<(MemoryImage, ElfInfo), CpuError>,
    spec: Result<(Seq<SegmentView>, ElfInfo), CpuError>,
) -> bool {
    match spec {
        Ok((segs, info)) => r is Ok && r->Ok_0.0@ == segs && r->Ok_0.1 == info,
        Err(e) => r == Err::<(MemoryImage, ElfInfo), CpuError>(e),
    }
}

/// Once a program header cannot be loaded, the whole image cannot, with that error.
proof fn lemma_load_error_stays(data: Seq<u8>, phs: Seq<ProgramHeader>, k: int)
    requires
        0 <= k <= phs.len(),
        load_segments(data, phs.take(k)) is Err,
    ensures
        load_segments(data, phs) == load_segments(data, phs.take(k)),
    decreases phs.len() - k,
{
    if k < phs.len() {
        assert(phs.take(k + 1).drop_last() =~= phs.take(k));
        lemma_load_error_stays(data, phs, k + 1);
    } else {
        assert(phs.take(k) =~= phs);
    }
}

/// The segment a loadable program header describes.
fn load_one(data: &Vec<u8>, ph: &ProgramHeader) -> (r: Result<MemorySegment, CpuError>)
    ensures
        match load_segment(data@, *ph) {
            Ok(s) => r is Ok && r->Ok_0@ == s,
            Err(e) => r == Err::<MemorySegment, CpuError>(e),
        },
{
    let n: usize = data.len();
    let end = match ph.offset.checked_add(ph.filesz) {
        Some(e) => e,
        None => {
            assert(data@.len() == n && n <= u64::MAX);
            return Err(CpuError::SegmentOutsideFile { vaddr: ph.vaddr });
        },
    };
    if end > data.len() as u64 {
        return Err(CpuError::SegmentOutsideFile { vaddr: ph.vaddr });
    }
    if ph.memsz < ph.filesz {
        return Err(CpuError::SegmentTooSmall { vaddr: ph.vaddr });
    }
    if ph.memsz > usize::MAX as u64 {
        return Err(CpuError::AddressOverflow);
    }
    let start = ph.offset as usize;
    let end = end as usize;
    let memsz = ph.memsz as usize;
    assert(start == ph.offset && end == ph.offset + ph.filesz && memsz == ph.memsz);
    let mut bytes: Vec<u8> = Vec::new();
    let mut i = start;
    while i < end
        invariant
            start <= i <= end <= data@.len(),
            bytes@ == data@.subrange(start as int, i as int),
        decreases end - i,
    {
        bytes.push(data[i]);
        i = i + 1;
    }
    let filesz = end - start;
    while bytes.len() < memsz
        invariant
            filesz <= bytes@.len() <= memsz,
            filesz == ph.filesz,
            bytes@ == data@.subrange(start as int, end as int) + zeros(bytes@.len() - filesz),
        decreases memsz - bytes@.len(),
    {
        bytes.push(0);
        assert(bytes@ =~= data@.subrange(start as int, end as int) + zeros(bytes@.len() - filesz));
    }
    assert(bytes@.len() == memsz);
    let seg = MemorySegment { vaddr: ph.vaddr as usize, data: bytes, flags: ph.flags, align: ph.align as usize };
    assert(seg@ == load_segment(data@, *ph)->Ok_0);
    Ok(seg)
}

/// The first program header of type `t`.
fn find_first(phs: &Vec<ProgramHeader>, t: u32) -> (r: Option<ProgramHeader>)
    ensures
        r == first_of_type(phs@, t),
{
    let mut i: usize = 0;
    assert(phs@.subrange(0, phs@.len() as int) =~= phs@);
    while i < phs.len()
        invariant
            i <= phs@.len(),
            first_of_type(phs@, t) == first_of_type(phs@.subrange(i as int, phs@.len() as int), t),
        decreases phs@.len() - i,
    {
        let ghost rest = phs@.subrange(i as int, phs@.len() as int);
        assert(rest[0] == phs@[i as int]);
        if phs[i].p_type == t {
            return Some(phs[i]);
        }
        assert(rest.drop_first() =~= phs@.subrange(i + 1, phs@.len() as int));
        i = i + 1;
    }
    None
}

/// The address space of a new image (its loadable segments, zero-filled past their
/// file contents, then the stack) and the facts the auxiliary vector reports.
pub fn elf_image(data: &Vec<u8>, h: &ElfHeaders) -> (r: Result<(MemoryImage, ElfInfo), CpuError>)
    requires
        elf_info_ok(h@),
    ensures
        image_outcome(r, elf_image_spec(data@, h@)),
{
    let load = pt_load();
    let mut memory = MemoryImage::new();
    let mut i: usize = 0;
    while i < h.program_headers.len()
        invariant
            i <= h.program_headers@.len(),
            load == type_load(),
            load_segments(data@, h.program_headers@.take(i as int)) == Ok::<Seq<SegmentView>, CpuError>(memory@),
        decreases h.program_headers@.len() - i,
    {
        let ph = &h.program_headers[i];
        assert(h.program_headers@.take(i + 1).drop_last() =~= h.program_headers@.take(i as int));
        if ph.p_type == load {
            match load_one(data, ph) {
                Ok(seg) => memory.add_segment(seg),
                Err(e) => {
                    proof {
                        lemma_load_error_stays(data@, h.program_headers@, i + 1);
                    }
                    return Err(e);
                },
            }
        }
        i = i + 1;
    }
    assert(h.program_headers@.take(i as int) =~= h.program_headers@);
    let stack = MemorySegment { vaddr: STACK_TOP - STACK_SIZE, data: vec![0u8; STACK_SIZE], flags: pf_r() | pf_w(), align: 0x1000 };
    assert(stack.data@ =~= zeros(STACK_SIZE as int));
    memory.add_segment(stack);
    let first_load = find_first(&h.program_headers, load);
    let base: u64 = match first_load {
        Some(ph) => ph.vaddr,
        None => 0x8000_0000,
    };
    assert(base + h.phoff == phdr_vaddr(h@));
    let tls = find_first(&h.program_headers, pt_tls());
    let info = ElfInfo {
        entry_point: h.entry as u32,
        phdr_addr: (base + h.phoff) as u32,
        phent_size: h.phentsize as u32,
        phnum: h.phnum as u32,
        tls_vaddr: match tls {
            Some(ph) => Some(ph.vaddr as u32),
            None => None,
        },
        tls_memsz: match tls {
            Some(ph) => ph.memsz as u32,
            None => 0,
        },
    };
    assert(info == elf_info_spec(h@));
    assert(memory@ == elf_image_spec(data@, h@)->Ok_0.0);
    Ok((memory, info))
}

/// Read an ELF file's headers with goblin and build its image: `InvalidElf` where
/// goblin refuses the file, `AddressOverflow` where the program-header address does
/// not fit 64 bits, and otherwise what `elf_image` gives.
pub fn load_elf(data: &Vec<u8>) -> (r: Result<(MemoryImage, ElfInfo), CpuError>)
    ensures
        match elf_parse(data@) {
            None => r == Err::<(MemoryImage, ElfInfo), CpuError>(CpuError::InvalidElf),
            Some(h) => if elf_info_ok(h) {
                image_outcome(r, elf_image_spec(data@, h))
            } else {
                r == Err::<(MemoryImage, ElfInfo), CpuError>(CpuError::AddressOverflow)
            },
        },
{
    let h = match parse_elf(data.as_slice()) {
        Some(h) => h,
        None => return Err(CpuError::InvalidElf),
    };
    let first_load = find_first(&h.program_headers, pt_load());
    let base: u64 = match first_load {
        Some(ph) => ph.vaddr,
        None => 0x8000_0000,
    };
    if base.checked_add(h.phoff).is_none() {
        return Err(CpuError::AddressOverflow);
    }
    elf_image(data, &h)
}

} // verus!
