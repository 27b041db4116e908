//! Building the processor for a loaded program: the stack and heap segments, the
//! initial program break, the thread-local storage area, and the initial stack with
//! the arguments and the auxiliary vector.

use vstd::prelude::*;

use crate::cpu::{align_up, align_up_spec, Cpu, CpuModel, ElfInfo, M68K_TLS_TCB_SIZE, TLS_DATA_PAD};
use crate::elf_flags::{flag_w, pf_w};
use crate::error::CpuError;
use crate::memory::{find_base_from, lemma_find_base_from, mem_resize, mem_write, u32_be_bytes, MemoryImage, SegmentView};

verus! {

/// The first address past a segment.
pub open spec fn seg_end(s: SegmentView) -> int {
    s.vaddr + s.bytes.len()
}

/// Every segment ends inside the address range.
pub open spec fn segments_fit(segs: Seq<SegmentView>) -> bool {
    forall|i: int| 0 <= i < segs.len() ==> seg_end(#[trigger] segs[i]) <= usize::MAX
}

/// Among the first `n` segments, the last one of those that end highest: the stack.
pub open spec fn stack_choice(segs: Seq<SegmentView>, n: int) -> Option<int>
    decreases n,
{
    if n <= 0 {
        None
    } else {
        match stack_choice(segs, n - 1) {
            None => Some(n - 1),
            Some(i) => if seg_end(segs[n - 1]) >= seg_end(segs[i]) {
                Some(n - 1)
            } else {
                Some(i)
            },
        }
    }
}

/// Among the first `n` segments other than `skip`, the first writable one of those
/// that end highest (above 0), with its end: the heap.
pub open spec fn heap_choice(segs: Seq<SegmentView>, skip: int, n: int) -> (Option<int>, int)
    decreases n,
{
    if n <= 0 {
        (None, 0)
    } else {
        let (b, e) = heap_choice(segs, skip, n - 1);
        let i = n - 1;
        if i != skip && segs[i].flags & flag_w() != 0 && seg_end(segs[i]) > e {
            (Some(i), seg_end(segs[i]))
        } else {
            (b, e)
        }
    }
}

/// The end of the guarded TLS area above a thread pointer.
pub open spec fn tls_end(tp: usize) -> int {
    tp + TLS_DATA_PAD
}

/// The heap grown, where needed, to hold the TLS area above the thread pointer `tp`,
/// a page short of the stack at most.
pub open spec fn ensure_tls_spec(m: CpuModel, tp: usize) -> Result<CpuModel, CpuError> {
    if tls_end(tp) > usize::MAX {
        Err(CpuError::AddressOverflow)
    } else {
        match find_base_from(m.mem, m.heap_segment_base as int, 0) {
            None => Err(CpuError::HeapSegmentNotFound),
            Some(i) => {
                let end = tls_end(tp);
                if end > m.heap_segment_base + m.mem[i].bytes.len() {
                    if end + 0x1000 > m.stack_base {
                        Err(CpuError::TlsOverlapsStack)
                    } else {
                        match mem_resize(m.mem, m.heap_segment_base as int, end - m.heap_segment_base) {
                            Some(mem) => Ok(m.with_mem(mem)),
                            None => Err(CpuError::SegmentNotFound { addr: m.heap_segment_base }),
                        }
                    }
                } else {
                    Ok(m)
                }
            },
        }
    }
}

/// The arithmetic of `ensure_tls_spec` stays in range: the heap segment ends inside
/// the address range, and so does the stack guard above a TLS area that grows it.
pub open spec fn ensure_tls_ok(m: CpuModel, tp: usize) -> bool {
    match find_base_from(m.mem, m.heap_segment_base as int, 0) {
        Some(i) => {
            &&& m.heap_segment_base + m.mem[i].bytes.len() <= usize::MAX
            &&& (tls_end(tp) <= usize::MAX && tls_end(tp) > m.heap_segment_base + m.mem[i].bytes.len())
                ==> tls_end(tp) + 0x1000 <= usize::MAX
        },
        None => true,
    }
}

/// The bytes of the argument strings, UTF-8 encoded.
pub open spec fn arg_strings(args: Seq<String>) -> Seq<Seq<u8>> {
    args.map_values(|s: String| vstd::utf8::encode_utf8(s@))
}

/// The bytes the strings `a[j..]` take on the stack, terminators included.
pub open spec fn strings_bytes(a: Seq<Seq<u8>>, j: int) -> int
    decreases a.len() - j,
{
    if j < 0 || j >= a.len() {
        0
    } else {
        a[j].len() + 1 + strings_bytes(a, j + 1)
    }
}

/// Where argument `j` is copied: the strings are stacked from 64 bytes below the
/// top downwards, the last argument highest.
pub open spec fn arg_addr(top: int, a: Seq<Seq<u8>>, j: int) -> int {
    top - 64 - strings_bytes(a, j)
}

/// `x` rounded down to a multiple of 4.
pub open spec fn align_down4(x: int) -> int {
    x - x % 4
}

/// The 16 bytes AT_RANDOM points at (fixed, for reproducible runs).
pub open spec fn random_seed() -> Seq<u8> {
    seq![0x12u8, 0x34, 0x56, 0x78, 0x9a, 0xbc, 0xde, 0xf0, 0x11, 0x22, 0x33, 0x44, 0x55, 0x66, 0x77, 0x88]
}

/// Where the 16 seed bytes go: below the strings, aligned to 4.
pub open spec fn random_addr(top: int, a: Seq<Seq<u8>>) -> int {
    align_down4(arg_addr(top, a, 0)) - 16
}

/// The auxiliary vector as (type, value) pairs, in the order they are pushed: the
/// terminator first and AT_PHDR last, so that AT_PHDR ends up lowest.
pub open spec fn auxv_entries(elf: ElfInfo, random: u32) -> Seq<(u32, u32)> {
    seq![
        (0u32, 0u32),
        (25, random),
        (23, 0),
        (14, 1000),
        (13, 1000),
        (12, 1000),
        (11, 1000),
        (9, elf.entry_point),
        (8, 0),
        (7, 0),
        (6, 4096),
        (5, elf.phnum),
        (4, elf.phent_size),
        (3, elf.phdr_addr),
    ]
}

/// The stack pointer after the auxiliary vector and the two terminators.
pub open spec fn argv_end(top: int, a: Seq<Seq<u8>>) -> int {
    random_addr(top, a) - 14 * 8 - 8
}

/// The initial stack pointer: argc, below the argv pointers.
pub open spec fn initial_sp(top: int, a: Seq<Seq<u8>>) -> int {
    argv_end(top, a) - 4 * a.len() - 4
}

/// The writes that build the initial stack, in the order they are made: the strings
/// (each followed by its terminator, last argument first), the seed bytes, the
/// auxiliary vector (value above type), the envp and argv terminators, the argv
/// pointers (last argument first) and argc.
pub open spec fn stack_writes(top: int, a: Seq<Seq<u8>>, elf: ElfInfo) -> Seq<(int, Seq<u8>)> {
    let n = a.len() as int;
    let r = random_addr(top, a);
    let aux = auxv_entries(elf, r as u32);
    let e = argv_end(top, a);
    Seq::new(
        (2 * n) as nat,
        |i: int|
            {
                let j = n - 1 - i / 2;
                if i % 2 == 0 {
                    (arg_addr(top, a, j), a[j])
                } else {
                    (arg_addr(top, a, j) + a[j].len(), seq![0u8])
                }
            },
    ) + seq![(r, random_seed())] + Seq::new(
        28,
        |i: int|
            {
                let k = i / 2;
                if i % 2 == 0 {
                    (r - 8 * k - 4, u32_be_bytes(aux[k].1))
                } else {
                    (r - 8 * k - 8, u32_be_bytes(aux[k].0))
                }
            },
    ) + seq![(e + 4, u32_be_bytes(0)), (e, u32_be_bytes(0))] + Seq::new(
        n as nat,
        |k: int| (e - 4 * (k + 1), u32_be_bytes(arg_addr(top, a, n - 1 - k) as u32)),
    ) + seq![(initial_sp(top, a), u32_be_bytes(n as u32))]
}

/// `writes` made in order; the first that fails is the error.
pub open spec fn apply_writes(mem: Seq<SegmentView>, writes: Seq<(int, Seq<u8>)>) -> Result<Seq<SegmentView>, CpuError>
    decreases writes.len(),
{
    if writes.len() == 0 {
        Ok(mem)
    } else {
        match apply_writes(mem, writes.drop_last()) {
            Err(e) => Err(e),
            Ok(m1) => {
                let w = writes.last();
                match mem_write(m1, w.0, w.1) {
                    Some(m2) => Ok(m2),
                    None => Err(CpuError::MemoryFault { addr: w.0 as usize, len: w.1.len() as usize }),
                }
            },
        }
    }
}

/// The top of the stack segment, where there is one.
pub open spec fn stack_top(m: CpuModel) -> Option<int> {
    match find_base_from(m.mem, m.stack_base as int, 0) {
        Some(i) => Some(m.stack_base + m.mem[i].bytes.len()),
        None => None,
    }
}

/// The initial stack fits below the top of the stack segment.
pub open spec fn setup_stack_ok(m: CpuModel, a: Seq<Seq<u8>>) -> bool {
    match stack_top(m) {
        Some(top) => top <= usize::MAX && initial_sp(top, a) >= 0,
        None => true,
    }
}

/// The state after the initial stack is built: the writes made and A7 at argc.
pub open spec fn setup_stack_spec(m: CpuModel, a: Seq<Seq<u8>>, elf: ElfInfo) -> Result<CpuModel, CpuError> {
    match stack_top(m) {
        None => Err(CpuError::StackSegmentNotFound),
        Some(top) => match apply_writes(m.mem, stack_writes(top, a, elf)) {
            Err(e) => Err(e),
            Ok(mem) => Ok(m.with_mem(mem).with_a(7, initial_sp(top, a) as u32)),
        },
    }
}

/// The thread pointer the TLS segment asks for, 0 where there is none.
pub open spec fn initial_tls_base(elf: ElfInfo) -> int {
    match elf.tls_vaddr {
        Some(v) => v + M68K_TLS_TCB_SIZE,
        None => 0,
    }
}

/// The initial program break: the heap end rounded up to a page, and past the TLS
/// area where there is one.
pub open spec fn initial_brk(heap_end: int, tls: int) -> int {
    let b = align_up_spec(heap_end, 4096);
    if tls != 0 && align_up_spec(tls, 4096) > b {
        align_up_spec(tls, 4096)
    } else {
        b
    }
}

/// Among the first `n` segments, the last one of those that start highest.
pub open spec fn base_choice(segs: Seq<SegmentView>, n: int) -> Option<int>
    decreases n,
{
    if n <= 0 {
        None
    } else {
        match base_choice(segs, n - 1) {
            None => Some(n - 1),
            Some(i) => if segs[n - 1].vaddr >= segs[i].vaddr {
                Some(n - 1)
            } else {
                Some(i)
            },
        }
    }
}

/// The processor state before the TLS area and the stack are set up.
pub open spec fn fresh_model(
    mem: Seq<SegmentView>,
    elf: ElfInfo,
    exe_path: Seq<char>,
    heap_base: usize,
    stack_base: usize,
    brk: usize,
    tls: usize,
) -> CpuModel {
    CpuModel {
        d: Seq::new(8, |_i: int| 0u32),
        a: Seq::new(8, |_i: int| 0u32),
        sr: 0,
        pc: elf.entry_point as usize,
        mem,
        halted: false,
        tls_base: tls as u32,
        tls_initialized: false,
        tls_memsz: elf.tls_memsz as usize,
        brk,
        brk_base: brk,
        heap_segment_base: heap_base,
        stack_base,
        exe_path,
    }
}

/// The first argument, or the empty path.
pub open spec fn first_arg(args: Seq<String>) -> Seq<char> {
    if args.len() > 0 {
        args[0]@
    } else {
        Seq::empty()
    }
}

/// The segments and the program break a program image starts from, given the
/// stack segment: the heap segment with its end, and the memory with the heap grown
/// to the break.
pub open spec fn image_layout(mem: Seq<SegmentView>, elf: ElfInfo, stack: Option<int>) -> Result<
    (int, int, int, int, Seq<SegmentView>),
    CpuError,
> {
    match stack {
        None => Err(CpuError::NoSegments),
        Some(si) => {
            let (h, heap_end) = heap_choice(mem, si, mem.len() as int);
            match h {
                None => Err(CpuError::NoWritableSegment),
                Some(hi) => {
                    let heap_base = mem[hi].vaddr;
                    let brk = initial_brk(heap_end, initial_tls_base(elf));
                    if brk > heap_end {
                        match mem_resize(mem, heap_base, brk - heap_base) {
                            Some(mem1) => Ok((mem[si].vaddr, heap_base, heap_end, brk, mem1)),
                            None => Err(CpuError::SegmentNotFound { addr: heap_base as usize }),
                        }
                    } else {
                        Ok((mem[si].vaddr, heap_base, heap_end, brk, mem))
                    }
                },
            }
        },
    }
}

/// The processor for a program image, given its stack segment and executable path:
/// fresh registers, the heap and break, the TLS area and the initial stack.
pub open spec fn image_spec(
    mem: Seq<SegmentView>,
    elf: ElfInfo,
    args: Seq<String>,
    stack: Option<int>,
    exe_path: Seq<char>,
) -> Result<CpuModel, CpuError> {
    match image_layout(mem, elf, stack) {
        Err(e) => Err(e),
        Ok((stack_base, heap_base, heap_end, brk, mem1)) => {
            let tls = initial_tls_base(elf);
            let m0 = fresh_model(mem1, elf, exe_path, heap_base as usize, stack_base as usize, brk as usize, tls as usize);
            let m1 = if tls != 0 {
                ensure_tls_spec(m0, tls as usize)
            } else {
                Ok(m0)
            };
            match m1 {
                Err(e) => Err(e),
                Ok(m1) => setup_stack_spec(m1, arg_strings(args), elf),
            }
        },
    }
}

/// The arithmetic of building the processor for an image stays in range: every
/// segment ends inside the address range, the TLS pointer and the rounded break fit,
/// the TLS area can be checked and the initial stack fits.
pub open spec fn image_ok(mem: Seq<SegmentView>, elf: ElfInfo, args: Seq<String>, stack: Option<int>) -> bool {
    &&& segments_fit(mem)
    &&& initial_tls_base(elf) + 4096 <= usize::MAX
    &&& match stack {
        Some(si) => heap_choice(mem, si, mem.len() as int).1 + 4096 <= usize::MAX,
        None => true,
    }
    &&& match image_layout(mem, elf, stack) {
        Err(_) => true,
        Ok((stack_base, heap_base, heap_end, brk, mem1)) => {
            let tls = initial_tls_base(elf);
            let m0 = fresh_model(mem1, elf, Seq::empty(), heap_base as usize, stack_base as usize, brk as usize, tls as usize);
            &&& tls != 0 ==> ensure_tls_ok(m0, tls as usize)
            &&& match (if tls != 0 {
                ensure_tls_spec(m0, tls as usize)
            } else {
                Ok(m0)
            }) {
                Ok(m1) => setup_stack_ok(m1, arg_strings(args)),
                Err(_) => true,
            }
        },
    }
}

/// What `Cpu::new` builds from a memory image: the stack is the segment that ends
/// highest, and the executable path is the first argument.
pub open spec fn new_spec(mem: Seq<SegmentView>, elf: ElfInfo, args: Seq<String>) -> Result<CpuModel, CpuError> {
    image_spec(mem, elf, args, stack_choice(mem, mem.len() as int), first_arg(args))
}

/// The arithmetic of `Cpu::new` stays in range.
pub open spec fn new_ok(mem: Seq<SegmentView>, elf: ElfInfo, args: Seq<String>) -> bool {
    image_ok(mem, elf, args, stack_choice(mem, mem.len() as int))
}

/// What an execve builds from the new image: the stack is the segment that starts
/// highest, and the executable path is the first argument, or the file name where
/// there is none.
pub open spec fn exec_image_spec(mem: Seq<SegmentView>, elf: ElfInfo, argv: Seq<String>, filename: Seq<char>) -> Result<
    CpuModel,
    CpuError,
> {
    image_spec(
        mem,
        elf,
        argv,
        base_choice(mem, mem.len() as int),
        if argv.len() > 0 {
            argv[0]@
        } else {
            filename
        },
    )
}

/// The arithmetic of an execve image stays in range.
pub open spec fn exec_image_ok(mem: Seq<SegmentView>, elf: ElfInfo, argv: Seq<String>) -> bool {
    image_ok(mem, elf, argv, base_choice(mem, mem.len() as int))
}

/// Once a write fails, the rest of a write list fails the same way.
proof fn lemma_apply_err_extends(mem: Seq<SegmentView>, writes: Seq<(int, Seq<u8>)>, k: int)
    requires
        0 <= k <= writes.len(),
        apply_writes(mem, writes.take(k)) is Err,
    ensures
        apply_writes(mem, writes) == apply_writes(mem, writes.take(k)),
    decreases writes.len() - k,
{
    if k < writes.len() {
        assert(writes.drop_last().take(k) =~= writes.take(k));
        lemma_apply_err_extends(mem, writes.drop_last(), k);
    } else {
        assert(writes.take(k) =~= writes);
    }
}

/// The strings of arguments `j..` take at least their own lengths.
proof fn lemma_strings_bytes(a: Seq<Seq<u8>>, j: int)
    requires
        0 <= j <= a.len(),
    ensures
        strings_bytes(a, j) >= 0,
        j < a.len() ==> strings_bytes(a, j) == a[j].len() + 1 + strings_bytes(a, j + 1),
        strings_bytes(a, 0) >= strings_bytes(a, j),
    decreases j,
{
    if j > 0 {
        lemma_strings_bytes(a, j - 1);
    }
    lemma_strings_bytes_nonneg(a, j);
}

proof fn lemma_strings_bytes_nonneg(a: Seq<Seq<u8>>, j: int)
    ensures
        strings_bytes(a, j) >= 0,
    decreases a.len() - j,
{
    if 0 <= j < a.len() {
        lemma_strings_bytes_nonneg(a, j + 1);
    }
}

/// The views of the pending writes.
pub open spec fn writes_view(ws: Seq<(usize, Vec<u8>)>) -> Seq<(int, Seq<u8>)> {
    ws.map_values(|w: (usize, Vec<u8>)| (w.0 as int, w.1@))
}

/// The big-endian bytes of a long, as a vector.
pub(crate) fn long_bytes(v: u32) -> (r: Vec<u8>)
    ensures
        r@ == u32_be_bytes(v),
{
    let b = crate::cpu::operand::long_to_be_bytes(v);
    let r = vec![b[0], b[1], b[2], b[3]];
    assert(r@ =~= b@);
    r
}

/// Make `writes` in order.
pub(crate) fn write_all(memory: &mut MemoryImage, writes: &Vec<(usize, Vec<u8>)>) -> (r: Result<(), CpuError>)
    ensures
        match apply_writes(old(memory)@, writes_view(writes@)) {
            Ok(m) => r is Ok && final(memory)@ == m,
            Err(e) => r == Err::<(), CpuError>(e),
        },
{
    let ghost all = writes_view(writes@);
    let mut i: usize = 0;
    while i < writes.len()
        invariant
            i <= writes.len(),
            all == writes_view(writes@),
            apply_writes(old(memory)@, all.take(i as int)) == Ok::<Seq<SegmentView>, CpuError>(memory@),
        decreases writes.len() - i,
    {
        let (addr, ref data) = writes[i];
        proof {
            assert(all.take((i + 1) as int).drop_last() =~= all.take(i as int));
            assert(all.take((i + 1) as int).last() == (addr as int, data@));
        }
        match memory.write_data(addr, data.as_slice()) {
            Ok(()) => {},
            Err(e) => {
                proof {
                    lemma_apply_err_extends(old(memory)@, all, (i + 1) as int);
                }
                return Err(e);
            },
        }
        i = i + 1;
    }
    assert(all.take(writes.len() as int) =~= all);
    Ok(())
}

impl Cpu {
    /// Ensure the TLS region around the thread pointer is backed by memory.
    pub fn ensure_tls_range(&mut self, thread_ptr: usize) -> (r: Result<(), CpuError>)
        requires
            ensure_tls_ok(old(self)@, thread_ptr),
        ensures
            crate::cpu::outcome(r, final(self)@, ensure_tls_spec(old(self)@, thread_ptr)),
            r is Err ==> final(self)@ == old(self)@,
    {
        let end = match thread_ptr.checked_add(TLS_DATA_PAD) {
            Some(e) => e,
            None => return Err(CpuError::AddressOverflow),
        };
        let heap_len = match self.memory.find_segment_by_base(self.heap_segment_base) {
            Some(i) => {
                proof {
                    lemma_find_base_from(self@.mem, self.heap_segment_base as int, 0);
                    assert(self@.mem[i as int] == self.memory.segments@[i as int]@);
                }
                self.memory.segments[i].len()
            },
            None => return Err(CpuError::HeapSegmentNotFound),
        };
        let current_end = self.heap_segment_base + heap_len;
        if end > current_end {
            let guard: usize = 0x1000;
            if end + guard > self.stack_base {
                return Err(CpuError::TlsOverlapsStack);
            }
            let new_len = match end.checked_sub(self.heap_segment_base) {
                Some(n) => n,
                None => return Err(CpuError::AddressOverflow),
            };
            let base = self.heap_segment_base;
            let r = self.memory.resize_segment(base, new_len);
            proof {
                match mem_resize(old(self)@.mem, base as int, new_len as int) {
                    Some(mem) => {
                        assert(self@ =~= old(self)@.with_mem(mem));
                    },
                    None => {},
                }
            }
            r?;
        }
        Ok(())
    }

    /// Set up the initial stack with argc/argv/envp and auxiliary vector
    /// This can be called both during initialization and for execve
    pub fn setup_initial_stack(&mut self, args: &[String], elf_info: &ElfInfo) -> (r: Result<(), CpuError>)
        requires
            setup_stack_ok(old(self)@, arg_strings(args@)),
        ensures
            crate::cpu::outcome(r, final(self)@, setup_stack_spec(old(self)@, arg_strings(args@), *elf_info)),
    {
        let ghost a = arg_strings(args@);
        let seg_len = match self.memory.find_segment_by_base(self.stack_base) {
            Some(i) => {
                proof {
                    lemma_find_base_from(self@.mem, self.stack_base as int, 0);
                    assert(self@.mem[i as int] == self.memory.segments@[i as int]@);
                }
                self.memory.segments[i].len()
            },
            None => return Err(CpuError::StackSegmentNotFound),
        };
        let stack_top = self.stack_base + seg_len;
        let ghost top = stack_top as int;
        let ghost n = a.len() as int;
        proof {
            lemma_strings_bytes(a, 0);
        }
        let mut writes: Vec<(usize, Vec<u8>)> = Vec::new();
        let mut argv_addrs: Vec<u32> = Vec::new();
        let mut sp = stack_top - 64;
        let mut k: usize = 0;
        let nargs = args.len();
        while k < nargs
            invariant
                nargs == args@.len() == n,
                a == arg_strings(args@),
                k <= nargs,
                top <= usize::MAX,
                initial_sp(top, a) >= 0,
                sp == arg_addr(top, a, n - k),
                writes_view(writes@) == stack_writes(top, a, *elf_info).take(2 * k),
                argv_addrs@.len() == k,
                forall|i: int| 0 <= i < k ==> argv_addrs@[i] == arg_addr(top, a, n - 1 - i) as u32,
            decreases nargs - k,
        {
            let j = nargs - 1 - k;
            proof {
                lemma_strings_bytes(a, j as int);
                lemma_strings_bytes(a, 0);
            }
            let bytes = args[j].as_str().as_bytes();
            let len = bytes.len() + 1;
            sp = sp - len;
            let data = vstd::slice::slice_to_vec(bytes);
            let zero = vec![0u8];
            proof {
                assert(data@ == a[j as int]);
                assert(zero@ =~= seq![0u8]);
            }
            let ghost before = writes_view(writes@);
            writes.push((sp, data));
            writes.push((sp + bytes.len(), zero));
            argv_addrs.push(sp as u32);
            proof {
                assert(writes_view(writes@) =~= before.push((sp as int, a[j as int])).push(
                    (sp + a[j as int].len(), seq![0u8]),
                ));
                assert(stack_writes(top, a, *elf_info).take(2 * (k + 1)) =~= stack_writes(top, a, *elf_info).take(
                    2 * k,
                ).push((sp as int, a[j as int])).push((sp + a[j as int].len(), seq![0u8])));
            }
            k = k + 1;
        }
        let ghost sw = stack_writes(top, a, *elf_info);
        proof {
            lemma_strings_bytes(a, 0);
            assert(sp == arg_addr(top, a, 0));
            assert(sp & !3usize == sp - sp % 4) by (bit_vector);
        }
        sp = sp & !3;
        let random = sp - 16;
        sp = random;
        let seed: Vec<u8> = vec![0x12u8, 0x34, 0x56, 0x78, 0x9a, 0xbc, 0xde, 0xf0, 0x11, 0x22, 0x33, 0x44, 0x55, 0x66, 0x77, 0x88];
        proof {
            assert(seed@ =~= random_seed());
            assert(sp == random_addr(top, a));
            assert(sw.take(2 * n + 1) =~= sw.take(2 * n).push((sp as int, seed@)));
            assert(sp % 4 == 0);
            assert(sp & !3usize == sp) by (bit_vector)
                requires
                    sp % 4 == 0,
            ;
        }
        writes.push((sp, seed));
        sp = sp & !3;
        let aux: [(u32, u32); 14] = [
            (0, 0),
            (25, random as u32),
            (23, 0),
            (14, 1000),
            (13, 1000),
            (12, 1000),
            (11, 1000),
            (9, elf_info.entry_point),
            (8, 0),
            (7, 0),
            (6, 4096),
            (5, elf_info.phnum),
            (4, elf_info.phent_size),
            (3, elf_info.phdr_addr),
        ];
        proof {
            assert(aux@ =~= auxv_entries(*elf_info, random as u32));
        }
        let mut e: usize = 0;
        while e < 14
            invariant
                e <= 14,
                sw == stack_writes(top, a, *elf_info),
                n == a.len(),
                top <= usize::MAX,
                initial_sp(top, a) >= 0,
                random as int == random_addr(top, a),
                aux@ == auxv_entries(*elf_info, random as u32),
                sp == random - 8 * e,
                writes_view(writes@) == sw.take(2 * n + 1 + 2 * e),
            decreases 14 - e,
        {
            let (typ, val) = aux[e];
            let ghost before = writes_view(writes@);
            sp = sp - 4;
            let vb = long_bytes(val);
            writes.push((sp, vb));
            sp = sp - 4;
            let tb = long_bytes(typ);
            writes.push((sp, tb));
            proof {
                assert(writes_view(writes@) =~= before.push(((sp + 4) as int, u32_be_bytes(val))).push(
                    (sp as int, u32_be_bytes(typ)),
                ));
                assert(sw.take(2 * n + 1 + 2 * (e + 1)) =~= sw.take(2 * n + 1 + 2 * e).push(
                    ((sp + 4) as int, u32_be_bytes(val)),
                ).push((sp as int, u32_be_bytes(typ))));
            }
            e = e + 1;
        }
        let ghost before_term = writes_view(writes@);
        sp = sp - 4;
        writes.push((sp, long_bytes(0)));
        sp = sp - 4;
        writes.push((sp, long_bytes(0)));
        proof {
            assert(sp == argv_end(top, a));
            assert(writes_view(writes@) =~= sw.take(2 * n + 31));
        }
        let mut p: usize = 0;
        while p < nargs
            invariant
                p <= nargs == n == a.len(),
                sw == stack_writes(top, a, *elf_info),
                top <= usize::MAX,
                initial_sp(top, a) >= 0,
                argv_addrs@.len() == n,
                forall|i: int| 0 <= i < n ==> argv_addrs@[i] == arg_addr(top, a, n - 1 - i) as u32,
                sp == argv_end(top, a) - 4 * p,
                writes_view(writes@) == sw.take(2 * n + 31 + p),
            decreases nargs - p,
        {
            let ghost before = writes_view(writes@);
            sp = sp - 4;
            let pb = long_bytes(argv_addrs[p]);
            writes.push((sp, pb));
            proof {
                assert(writes_view(writes@) =~= before.push((sp as int, u32_be_bytes(argv_addrs@[p as int]))));
                assert(sw.take(2 * n + 31 + p + 1) =~= sw.take(2 * n + 31 + p).push(
                    (sp as int, u32_be_bytes(argv_addrs@[p as int])),
                ));
            }
            p = p + 1;
        }
        let ghost before_argc = writes_view(writes@);
        sp = sp - 4;
        writes.push((sp, long_bytes(nargs as u32)));
        proof {
            assert(sp == initial_sp(top, a));
            assert(writes_view(writes@) =~= before_argc.push((sp as int, u32_be_bytes(nargs as u32))));
            assert(sw.len() == 3 * n + 32);
            assert(sw.take(3 * n + 31).push((sp as int, u32_be_bytes(nargs as u32))) =~= sw);
        }
        write_all(&mut self.memory, &writes)?;
        self.addr_regs[7] = sp as u32;
        Ok(())
    }

    /// Build the processor for a loaded program: the highest-ending segment is the
    /// stack, the highest-ending other writable segment the heap; the program break
    /// starts at the heap end rounded up to a page (past the TLS area, where there is
    /// one); then the TLS area and the initial stack are set up.
    pub fn new(memory: MemoryImage, elf_info: &ElfInfo, args: &[String]) -> (r: Result<Cpu, CpuError>)
        requires
            new_ok(memory@, *elf_info, args@),
        ensures
            match new_spec(memory@, *elf_info, args@) {
                Ok(m) => r matches Ok(c) && c@ == m,
                Err(e) => r matches Err(e2) && e2 == e,
            },
    {
        let ghost mem0 = memory@;
        let nseg = memory.segments.len();
        let mut best: Option<(usize, usize)> = None;
        let mut i: usize = 0;
        while i < nseg
            invariant
                i <= nseg == memory.segments@.len() == mem0.len(),
                memory@ == mem0,
                segments_fit(mem0),
                match stack_choice(mem0, i as int) {
                    None => best is None,
                    Some(k) => best == Some((k as usize, seg_end(mem0[k]) as usize)) && 0 <= k < i,
                },
            decreases nseg - i,
        {
            proof {
                assert(mem0[i as int] == memory.segments@[i as int]@);
            }
            let end = memory.segments[i].vaddr + memory.segments[i].len();
            best = match best {
                None => Some((i, end)),
                Some((k, e)) => if end >= e {
                    Some((i, end))
                } else {
                    Some((k, e))
                },
            };
            i = i + 1;
        }
        let stack_index = match best {
            Some((k, _)) => k,
            None => return Err(CpuError::NoSegments),
        };
        let exe_path = if args.len() > 0 {
            args[0].clone()
        } else {
            String::new()
        };
        Self::build_image(memory, elf_info, args, stack_index, exe_path)
    }

    /// Build the processor for a program image whose stack is segment `stack_index`:
    /// the highest-ending other writable segment is the heap; the program break starts
    /// at the heap end rounded up to a page (past the TLS area, where there is one);
    /// then the TLS area and the initial stack are set up.
    fn build_image(memory: MemoryImage, elf_info: &ElfInfo, args: &[String], stack_index: usize, exe_path: String) -> (r:
        Result<Cpu, CpuError>)
        requires
            stack_index < memory@.len(),
            image_ok(memory@, *elf_info, args@, Some(stack_index as int)),
        ensures
            match image_spec(memory@, *elf_info, args@, Some(stack_index as int), exe_path@) {
                Ok(m) => r matches Ok(c) && c@ == m,
                Err(e) => r matches Err(e2) && e2 == e,
            },
    {
        let mut memory = memory;
        let ghost mem0 = memory@;
        let nseg = memory.segments.len();
        proof {
            assert(mem0[stack_index as int] == memory.segments@[stack_index as int]@);
        }
        let stack_base = memory.segments[stack_index].vaddr;
        let flag_writable = pf_w();
        let mut heap_base: Option<usize> = None;
        let mut heap_end: usize = 0;
        let mut idx: usize = 0;
        while idx < nseg
            invariant
                idx <= nseg == memory.segments@.len() == mem0.len(),
                memory@ == mem0,
                segments_fit(mem0),
                flag_writable == flag_w(),
                stack_index < nseg,
                heap_choice(mem0, stack_index as int, idx as int).1 == heap_end,
                match heap_choice(mem0, stack_index as int, idx as int).0 {
                    None => heap_base is None,
                    Some(k) => heap_base == Some(mem0[k].vaddr as usize) && 0 <= k < idx && heap_end == seg_end(
                        mem0[k],
                    ),
                },
            decreases nseg - idx,
        {
            proof {
                assert(mem0[idx as int] == memory.segments@[idx as int]@);
            }
            if idx != stack_index && (memory.segments[idx].flags & flag_writable) != 0 {
                let end = memory.segments[idx].vaddr + memory.segments[idx].len();
                if end > heap_end {
                    heap_end = end;
                    heap_base = Some(memory.segments[idx].vaddr);
                }
            }
            idx = idx + 1;
        }
        let heap_segment_base = match heap_base {
            Some(b) => b,
            None => return Err(CpuError::NoWritableSegment),
        };
        let tls_base: usize = match elf_info.tls_vaddr {
            Some(v) => v as usize + M68K_TLS_TCB_SIZE,
            None => 0,
        };
        let mut brk_base = align_up(heap_end, 4096);
        if tls_base != 0 {
            let tls_page = align_up(tls_base, 4096);
            if tls_page > brk_base {
                brk_base = tls_page;
            }
        }
        if brk_base > heap_end {
            memory.resize_segment(heap_segment_base, brk_base - heap_segment_base)?;
        }
        let mut cpu = Cpu {
            data_regs: [0; 8],
            addr_regs: [0; 8],
            sr: 0,
            pc: elf_info.entry_point as usize,
            memory,
            halted: false,
            tls_base: tls_base as u32,
            tls_initialized: false,
            tls_memsz: elf_info.tls_memsz as usize,
            brk: brk_base,
            brk_base,
            heap_segment_base,
            stack_base,
            exe_path,
        };
        proof {
            let ghost m0 = fresh_model(cpu.memory@, *elf_info, exe_path@, heap_segment_base, stack_base, brk_base, tls_base);
            assert(cpu@ =~= m0);
        }
        if tls_base != 0 {
            cpu.ensure_tls_range(tls_base)?;
        }
        cpu.setup_initial_stack(args, elf_info)?;
        Ok(cpu)
    }

    /// Replace the program with a new image, as execve does: every register and
    /// setting starts afresh; the stack is the segment that starts highest, and the
    /// executable path is the first argument (the file name where there is none).
    pub fn exec_image(&mut self, memory: MemoryImage, elf_info: &ElfInfo, argv: &[String], filename: &String) -> (r:
        Result<(), CpuError>)
        requires
            exec_image_ok(memory@, *elf_info, argv@),
        ensures
            match exec_image_spec(memory@, *elf_info, argv@, filename@) {
                Ok(m) => r is Ok && final(self)@ == m,
                Err(e) => r == Err::<(), CpuError>(e),
            },
    {
        let ghost mem0 = memory@;
        let nseg = memory.segments.len();
        let mut best: Option<(usize, usize)> = None;
        let mut i: usize = 0;
        while i < nseg
            invariant
                i <= nseg == memory.segments@.len() == mem0.len(),
                memory@ == mem0,
                match base_choice(mem0, i as int) {
                    None => best is None,
                    Some(k) => best == Some((k as usize, mem0[k].vaddr as usize)) && 0 <= k < i,
                },
            decreases nseg - i,
        {
            proof {
                assert(mem0[i as int] == memory.segments@[i as int]@);
            }
            let base = memory.segments[i].vaddr;
            best = match best {
                None => Some((i, base)),
                Some((k, b)) => if base >= b {
                    Some((i, base))
                } else {
                    Some((k, b))
                },
            };
            i = i + 1;
        }
        let stack_index = match best {
            Some((k, _)) => k,
            None => return Err(CpuError::NoSegments),
        };
        let exe_path = if argv.len() > 0 {
            argv[0].clone()
        } else {
            filename.clone()
        };
        let cpu = Self::build_image(memory, elf_info, argv, stack_index, exe_path)?;
        *self = cpu;
        Ok(())
    }
}

} // verus!
