//! System calls: how each m68k Linux system call number is answered, and the calls
//! the interpreter answers itself (the program break, anonymous mappings, memory
//! protection queries, the thread pointer and the m68k atomic helpers). The calls
//! that need the host are handed back to the caller.

use vstd::prelude::*;

use crate::cpu::setup::{ensure_tls_ok, ensure_tls_spec};
use crate::cpu::{align_up, align_up_spec, Cpu, CpuModel, M68K_TLS_TCB_SIZE, TLS_DATA_PAD};
use crate::elf_flags::{flag_r, flag_w, flag_x, pf_r, pf_w, pf_x};
use crate::error::CpuError;
use crate::memory::{
    be_u32, find_cover, free_range_from, mem_read, mem_resize, mem_write, u32_be_bytes, MemorySegment, SegmentView,
};

verus! {

/// How a system call number is answered.
#[derive(Clone, Copy, Debug, PartialEq, Eq, Structural)]
pub enum SyscallClass {
    /// `exit`: the host process ends with the status in D1.
    Exit,
    /// A retired or trivial call that always returns this value.
    Constant(i32),
    /// A call the interpreter carries out on its own state.
    Internal,
    /// A call without pointer arguments, passed to the host with this many arguments
    /// from D1 on.
    Passthrough(u32),
    /// A call the host carries out, translating guest memory.
    Host,
    /// A known call that the interpreter does not provide.
    NotImplemented,
    /// A number that is no m68k system call.
    Unsupported,
}

/// What the caller owes after `handle_syscall`.
#[derive(Clone, Copy, Debug, PartialEq, Eq, Structural)]
pub enum SyscallAction {
    /// The call is done and its result is in D0.
    Done,
    /// End the process with this status.
    Exit(i32),
    /// Make the host call with this many arguments from D1 on, then hand its
    /// result to `finish_syscall`.
    Passthrough(u32),
    /// Carry the call out on the host, then hand its result to `finish_syscall`.
    Host,
}

/// How the interpreter answers each m68k system call number.
pub open spec fn syscall_class_of(n: u32) -> SyscallClass {
    match n {
        1 => SyscallClass::Exit,
        17 | 31 | 32 | 35 | 44 | 53 | 56 | 58 | 59 | 84 | 86 | 89 | 98 | 109 | 110 | 112 | 113 | 137 => SyscallClass::Constant(-1i32),
        123 => SyscallClass::Constant(0i32),
        45 | 90 | 125 | 192 | 237 | 333 | 334 | 335 | 336 | 381 | 382 | 383 | 398 | 462 => SyscallClass::Internal,
        2 | 20 | 24 | 29 | 36 | 47 | 49 | 50 | 64 | 65 | 66 | 111 | 153 | 158 | 199 | 200 | 201 |
            202 | 284 => SyscallClass::Passthrough(0u32),
        6 | 23 | 27 | 41 | 46 | 60 | 118 | 132 | 133 | 135 | 136 | 138 | 139 | 147 | 148 | 152 |
            157 | 159 | 160 | 213 | 214 | 215 | 216 | 247 | 249 | 253 | 257 | 319 | 325 | 328 | 343 => SyscallClass::Passthrough(1u32),
        37 | 57 | 63 | 70 | 71 | 91 | 93 | 94 | 96 | 143 | 150 | 151 | 176 | 194 | 203 | 204 |
            256 | 286 | 318 | 324 | 360 | 370 | 399 | 408 => SyscallClass::Passthrough(2u32),
        19 | 54 | 55 | 95 | 97 | 101 | 144 | 164 | 170 | 207 | 208 | 210 | 221 | 239 | 254 | 265 |
            312 | 326 | 356 | 375 | 393 | 395 | 436 => SyscallClass::Passthrough(3u32),
        88 | 174 | 175 | 246 | 250 | 251 | 255 | 267 | 307 | 308 | 320 | 384 | 409 => SyscallClass::Passthrough(4u32),
        163 | 302 => SyscallClass::Passthrough(5u32),
        301 => SyscallClass::Passthrough(6u32),
        21 | 25 | 26 | 28 | 34 | 48 | 62 | 67 | 68 | 69 | 72 | 73 | 102 | 119 | 126 | 127 | 130 |
            131 | 134 | 149 | 167 | 169 | 173 | 177 | 178 | 179 | 186 | 188 | 189 | 217 | 222 |
            238 | 240 | 241 | 242 | 243 | 244 | 245 | 248 | 252 | 258 | 268 | 269 | 270 | 275 |
            279 | 280 | 281 | 282 | 283 | 287 | 303 | 304 | 305 | 310 | 311 | 313 | 315 | 331 |
            332 | 337 | 338 | 340 | 341 | 344 | 345 | 346 | 347 | 348 | 349 | 350 | 354 | 355 |
            371 | 372 | 373 | 374 | 377 | 378 | 380 | 414 | 416 | 417 | 420 | 421 | 422 | 423 |
            424 | 425 | 426 | 427 | 428 | 429 | 430 | 431 | 432 | 433 | 434 | 435 | 438 | 439 |
            440 | 441 | 442 | 443 | 448 | 449 | 450 | 451 | 453 | 454 | 455 | 456 | 457 | 458 |
            459 | 460 | 461 | 468 | 469 => SyscallClass::NotImplemented,
        3 | 4 | 5 | 7 | 8 | 9 | 10 | 11 | 12 | 13 | 14 | 15 | 16 | 18 | 22 | 30 | 33 | 38 | 39 |
            40 | 42 | 43 | 51 | 52 | 61 | 74 | 75 | 76 | 77 | 78 | 79 | 80 | 81 | 82 | 83 | 85 |
            87 | 92 | 99 | 100 | 103 | 104 | 105 | 106 | 107 | 108 | 114 | 115 | 116 | 117 | 120 |
            121 | 122 | 124 | 128 | 129 | 140 | 141 | 142 | 145 | 146 | 154 | 155 | 156 | 161 |
            162 | 165 | 166 | 168 | 171 | 172 | 180 | 181 | 182 | 183 | 184 | 185 | 187 | 190 |
            191 | 193 | 195 | 196 | 197 | 198 | 205 | 206 | 209 | 211 | 212 | 220 | 223 | 224 |
            225 | 226 | 227 | 228 | 229 | 230 | 231 | 232 | 233 | 234 | 235 | 236 | 259 | 260 |
            261 | 262 | 263 | 264 | 266 | 271 | 272 | 273 | 274 | 276 | 277 | 285 | 288 | 289 |
            290 | 291 | 292 | 293 | 294 | 295 | 296 | 297 | 298 | 299 | 300 | 306 | 309 | 314 |
            316 | 317 | 321 | 322 | 323 | 327 | 329 | 330 | 339 | 342 | 351 | 352 | 353 | 357 |
            358 | 359 | 361 | 362 | 363 | 364 | 365 | 366 | 367 | 368 | 369 | 376 | 379 | 394 |
            396 | 397 | 400 | 401 | 402 | 403 | 404 | 405 | 406 | 407 | 410 | 411 | 412 | 413 |
            418 | 419 | 437 | 444 | 445 | 446 | 452 | 463 | 464 | 465 | 466 | 467 => SyscallClass::Host,
        _ => SyscallClass::Unsupported,
    }
}

/// Classify an m68k system call number.
pub fn syscall_class(n: u32) -> (r: SyscallClass)
    ensures
        r == syscall_class_of(n),
{
    match n {
        1 => SyscallClass::Exit,
        17 | 31 | 32 | 35 | 44 | 53 | 56 | 58 | 59 | 84 | 86 | 89 | 98 | 109 | 110 | 112 | 113 | 137 => SyscallClass::Constant(-1i32),
        123 => SyscallClass::Constant(0i32),
        45 | 90 | 125 | 192 | 237 | 333 | 334 | 335 | 336 | 381 | 382 | 383 | 398 | 462 => SyscallClass::Internal,
        2 | 20 | 24 | 29 | 36 | 47 | 49 | 50 | 64 | 65 | 66 | 111 | 153 | 158 | 199 | 200 | 201 |
            202 | 284 => SyscallClass::Passthrough(0u32),
        6 | 23 | 27 | 41 | 46 | 60 | 118 | 132 | 133 | 135 | 136 | 138 | 139 | 147 | 148 | 152 |
            157 | 159 | 160 | 213 | 214 | 215 | 216 | 247 | 249 | 253 | 257 | 319 | 325 | 328 | 343 => SyscallClass::Passthrough(1u32),
        37 | 57 | 63 | 70 | 71 | 91 | 93 | 94 | 96 | 143 | 150 | 151 | 176 | 194 | 203 | 204 |
            256 | 286 | 318 | 324 | 360 | 370 | 399 | 408 => SyscallClass::Passthrough(2u32),
        19 | 54 | 55 | 95 | 97 | 101 | 144 | 164 | 170 | 207 | 208 | 210 | 221 | 239 | 254 | 265 |
            312 | 326 | 356 | 375 | 393 | 395 | 436 => SyscallClass::Passthrough(3u32),
        88 | 174 | 175 | 246 | 250 | 251 | 255 | 267 | 307 | 308 | 320 | 384 | 409 => SyscallClass::Passthrough(4u32),
        163 | 302 => SyscallClass::Passthrough(5u32),
        301 => SyscallClass::Passthrough(6u32),
        21 | 25 | 26 | 28 | 34 | 48 | 62 | 67 | 68 | 69 | 72 | 73 | 102 | 119 | 126 | 127 | 130 |
            131 | 134 | 149 | 167 | 169 | 173 | 177 | 178 | 179 | 186 | 188 | 189 | 217 | 222 |
            238 | 240 | 241 | 242 | 243 | 244 | 245 | 248 | 252 | 258 | 268 | 269 | 270 | 275 |
            279 | 280 | 281 | 282 | 283 | 287 | 303 | 304 | 305 | 310 | 311 | 313 | 315 | 331 |
            332 | 337 | 338 | 340 | 341 | 344 | 345 | 346 | 347 | 348 | 349 | 350 | 354 | 355 |
            371 | 372 | 373 | 374 | 377 | 378 | 380 | 414 | 416 | 417 | 420 | 421 | 422 | 423 |
            424 | 425 | 426 | 427 | 428 | 429 | 430 | 431 | 432 | 433 | 434 | 435 | 438 | 439 |
            440 | 441 | 442 | 443 | 448 | 449 | 450 | 451 | 453 | 454 | 455 | 456 | 457 | 458 |
            459 | 460 | 461 | 468 | 469 => SyscallClass::NotImplemented,
        3 | 4 | 5 | 7 | 8 | 9 | 10 | 11 | 12 | 13 | 14 | 15 | 16 | 18 | 22 | 30 | 33 | 38 | 39 |
            40 | 42 | 43 | 51 | 52 | 61 | 74 | 75 | 76 | 77 | 78 | 79 | 80 | 81 | 82 | 83 | 85 |
            87 | 92 | 99 | 100 | 103 | 104 | 105 | 106 | 107 | 108 | 114 | 115 | 116 | 117 | 120 |
            121 | 122 | 124 | 128 | 129 | 140 | 141 | 142 | 145 | 146 | 154 | 155 | 156 | 161 |
            162 | 165 | 166 | 168 | 171 | 172 | 180 | 181 | 182 | 183 | 184 | 185 | 187 | 190 |
            191 | 193 | 195 | 196 | 197 | 198 | 205 | 206 | 209 | 211 | 212 | 220 | 223 | 224 |
            225 | 226 | 227 | 228 | 229 | 230 | 231 | 232 | 233 | 234 | 235 | 236 | 259 | 260 |
            261 | 262 | 263 | 264 | 266 | 271 | 272 | 273 | 274 | 276 | 277 | 285 | 288 | 289 |
            290 | 291 | 292 | 293 | 294 | 295 | 296 | 297 | 298 | 299 | 300 | 306 | 309 | 314 |
            316 | 317 | 321 | 322 | 323 | 327 | 329 | 330 | 339 | 342 | 351 | 352 | 353 | 357 |
            358 | 359 | 361 | 362 | 363 | 364 | 365 | 366 | 367 | 368 | 369 | 376 | 379 | 394 |
            396 | 397 | 400 | 401 | 402 | 403 | 404 | 405 | 406 | 407 | 410 | 411 | 412 | 413 |
            418 | 419 | 437 | 444 | 445 | 446 | 452 | 463 | 464 | 465 | 466 | 467 => SyscallClass::Host,
        _ => SyscallClass::Unsupported,
    }
}

/// The state with the program break moved.
pub open spec fn with_brk(m: CpuModel, brk: usize) -> CpuModel {
    CpuModel { brk, ..m }
}

/// brk(addr): 0 asks for the current break; otherwise the break moves to the address
/// (not below its start), growing the heap by whole pages, unless that would come
/// within a page of the stack, in which case the break stays. The result is the
/// break.
pub open spec fn brk_spec(m: CpuModel) -> Result<(CpuModel, i64), CpuError> {
    let req = m.d[1] as usize;
    let old = m.brk;
    if req == 0 {
        Ok((m, old as i64))
    } else {
        let target = if req < m.brk_base {
            m.brk_base
        } else {
            req
        };
        let ta = align_up_spec(target as int, 4096);
        let oa = align_up_spec(old as int, 4096);
        if ta + 0x1000 > m.stack_base {
            Ok((m, old as i64))
        } else if ta > oa {
            if ta < m.heap_segment_base {
                Err(CpuError::AddressOverflow)
            } else {
                match mem_resize(m.mem, m.heap_segment_base as int, ta - m.heap_segment_base) {
                    None => Err(CpuError::SegmentNotFound { addr: m.heap_segment_base }),
                    Some(mem) => Ok((with_brk(m.with_mem(mem), target), target as i64)),
                }
            }
        } else {
            Ok((with_brk(m, target), target as i64))
        }
    }
}

/// The page rounding in `brk_spec` stays in range.
pub open spec fn brk_ok(m: CpuModel) -> bool {
    let req = m.d[1] as usize;
    let target = if req < m.brk_base {
        m.brk_base
    } else {
        req
    };
    req != 0 ==> target + 4096 <= usize::MAX && m.brk + 4096 <= usize::MAX && align_up_spec(target as int, 4096)
        + 0x1000 <= usize::MAX
}

/// A length rounded up to whole pages.
pub open spec fn page_len(length: usize) -> int {
    ((length + 4095) / 4096) * 4096
}

/// The segment permissions of mmap protection bits: PROT_READ, PROT_WRITE and
/// PROT_EXEC give read, write and execute.
pub open spec fn anon_flags(prot: i32) -> u32 {
    (if prot & 1 != 0 {
        flag_r()
    } else {
        0
    }) | (if prot & 2 != 0 {
        flag_w()
    } else {
        0
    }) | (if prot & 4 != 0 {
        flag_x()
    } else {
        0
    })
}

/// An anonymous mapping: a zeroed segment of whole pages at the requested address,
/// or at a free range where none is requested. The result is its address.
pub open spec fn alloc_spec(m: CpuModel, req: usize, length: usize, prot: i32) -> Result<(CpuModel, usize), CpuError> {
    let len = page_len(length);
    let at = if req != 0 {
        Some(req as int)
    } else {
        free_range_from(m.mem, len, 0)
    };
    match at {
        None => Err(CpuError::NoFreeRange),
        Some(a) => Ok(
            (
                m.with_mem(
                    m.mem.push(
                        SegmentView {
                            vaddr: a,
                            bytes: Seq::new(len as nat, |_i: int| 0u8),
                            flags: anon_flags(prot),
                            align: 4096,
                        },
                    ),
                ),
                a as usize,
            ),
        ),
    }
}

/// `k` longs read from `p` on, four bytes apart; the first that cannot be read is
/// the error.
pub open spec fn read_longs(mem: Seq<SegmentView>, p: usize, k: nat) -> Result<Seq<u32>, CpuError>
    decreases k,
{
    if k == 0 {
        Ok(Seq::empty())
    } else {
        match read_longs(mem, p, (k - 1) as nat) {
            Err(e) => Err(e),
            Ok(s) => {
                let a = p + 4 * (k - 1);
                match mem_read(mem, a, 4) {
                    None => Err(CpuError::MemoryFault { addr: a as usize, len: 4 }),
                    Some(b) => Ok(s.push(be_u32(b))),
                }
            },
        }
    }
}

/// The addresses of the longs read stay in range while the reads succeed.
pub open spec fn read_longs_ok(mem: Seq<SegmentView>, p: usize, k: nat) -> bool {
    forall|i: nat| i < k && (#[trigger] read_longs(mem, p, i)) is Ok ==> p + 4 * i <= usize::MAX
}

/// mmap(args): the old m68k mmap reads (addr, len, prot, flags, fd, offset) from the
/// block D1 points at; only anonymous mappings (MAP_ANONYMOUS or fd -1) are made.
pub open spec fn mmap_spec(m: CpuModel) -> Result<(CpuModel, i64), CpuError> {
    match read_longs(m.mem, m.d[1] as usize, 6) {
        Err(e) => Err(e),
        Ok(v) => {
            let flags = v[3] as i32;
            let fd = v[4] as i32;
            if !((flags & 0x20) != 0 || fd == -1) {
                Err(CpuError::FileBackedMapping)
            } else {
                match alloc_spec(m, v[0] as usize, v[1] as usize, v[2] as i32) {
                    Err(e) => Err(e),
                    Ok((m1, a)) => Ok((m1, a as i64)),
                }
            }
        },
    }
}

/// The arithmetic of `mmap_spec` stays in range.
pub open spec fn mmap_ok(m: CpuModel) -> bool {
    &&& read_longs_ok(m.mem, m.d[1] as usize, 6)
    &&& match read_longs(m.mem, m.d[1] as usize, 6) {
        Ok(v) => (v[1] as usize) + 4095 <= usize::MAX,
        Err(_) => true,
    }
}

/// mmap2(addr, len, prot, flags, fd, pgoff): only anonymous mappings are made.
pub open spec fn mmap2_spec(m: CpuModel) -> Result<(CpuModel, i64), CpuError> {
    if (m.d[4] as i32) & 0x20 == 0 {
        Err(CpuError::FileBackedMapping)
    } else {
        match alloc_spec(m, m.d[1] as usize, m.d[2] as usize, m.d[3] as i32) {
            Err(e) => Err(e),
            Ok((m1, a)) => Ok((m1, a as i64)),
        }
    }
}

/// mprotect(addr, len, prot) and pkey_mprotect: the first and the last byte of the
/// range must be mapped; protections are not changed, and the result is 0.
pub open spec fn protect_spec(m: CpuModel) -> Result<(CpuModel, i64), CpuError> {
    let addr = m.d[1] as usize;
    let len = m.d[2] as usize;
    if len > 0 && find_cover(m.mem, addr as int, 1) is None {
        Err(CpuError::MemoryFault { addr, len: 1 })
    } else if len > 1 && find_cover(m.mem, addr + len - 1, 1) is None {
        Err(CpuError::MemoryFault { addr: (addr + len - 1) as usize, len: 1 })
    } else {
        Ok((m, 0))
    }
}

/// The last byte of a protected range has an address.
pub open spec fn protect_ok(m: CpuModel) -> bool {
    let addr = m.d[1] as usize;
    let len = m.d[2] as usize;
    len > 1 ==> addr + len <= usize::MAX
}

/// mincore(addr, len, vec): the range must be mapped; every page is reported
/// resident (a 1 byte per page in `vec`); the result is 0.
pub open spec fn mincore_spec(m: CpuModel) -> Result<(CpuModel, i64), CpuError> {
    let addr = m.d[1] as usize;
    let length = m.d[2] as usize;
    let vec = m.d[3] as usize;
    let pages = (length + 4095) / 4096;
    if length > 0 && find_cover(m.mem, addr as int, length as int) is None {
        Err(CpuError::MemoryFault { addr, len: length })
    } else {
        match mem_write(m.mem, vec as int, Seq::new(pages as nat, |_i: int| 1u8)) {
            None => Err(CpuError::MemoryFault { addr: vec, len: pages as usize }),
            Some(mem) => Ok((m.with_mem(mem), 0)),
        }
    }
}

/// The page count of `mincore_spec` stays in range.
pub open spec fn mincore_ok(m: CpuModel) -> bool {
    (m.d[2] as usize) + 4096 <= usize::MAX
}

/// read_tp: the thread pointer, in D0. Where none is set, a zeroed TLS block
/// (the TCB gap and the pad) is mapped at a free range and the thread pointer set
/// 0x7000 bytes into it.
pub open spec fn read_tp_spec(m: CpuModel) -> Result<(CpuModel, i64), CpuError> {
    let size = M68K_TLS_TCB_SIZE + TLS_DATA_PAD;
    let m1 = if m.tls_base == 0 {
        match free_range_from(m.mem, size as int, 0) {
            None => Err(CpuError::NoFreeRange),
            Some(a) => {
                let m2 = m.with_mem(
                    m.mem.push(
                        SegmentView {
                            vaddr: a,
                            bytes: Seq::new(size as nat, |_i: int| 0u8),
                            flags: flag_r() | flag_w(),
                            align: 0x1000,
                        },
                    ),
                );
                Ok(CpuModel { tls_base: (a + M68K_TLS_TCB_SIZE) as u32, ..m2 })
            },
        }
    } else {
        Ok(m)
    };
    match m1 {
        Err(e) => Err(e),
        Ok(m1) => Ok((m1.with_d(0, m1.tls_base), m1.tls_base as i64)),
    }
}

/// `n` zero bytes.
pub open spec fn zeros(n: int) -> Seq<u8> {
    Seq::new(n as nat, |_i: int| 0u8)
}

/// The TLS block of the new thread pointer cleared, where it is mapped.
pub open spec fn clear_new_tls(m: CpuModel, tls_addr: usize) -> Result<CpuModel, CpuError> {
    if m.tls_memsz > 0 {
        if tls_addr < M68K_TLS_TCB_SIZE {
            Err(CpuError::AddressOverflow)
        } else {
            let ns = tls_addr - M68K_TLS_TCB_SIZE;
            if find_cover(m.mem, ns, m.tls_memsz as int) is Some {
                match mem_write(m.mem, ns, zeros(m.tls_memsz as int)) {
                    Some(mem) => Ok(m.with_mem(mem)),
                    None => Err(CpuError::MemoryFault { addr: ns as usize, len: m.tls_memsz }),
                }
            } else {
                Ok(m)
            }
        }
    } else {
        Ok(m)
    }
}

/// Moving to a new thread pointer: the head of the old TLS block (as much as fits in
/// the TCB gap and the pad) is copied to the new one where both are mapped and the
/// old one was set up, and cleared there otherwise.
pub open spec fn move_tls(m: CpuModel, tls_addr: usize) -> Result<CpuModel, CpuError> {
    if m.tls_base != 0 && m.tls_base as usize != tls_addr {
        if m.tls_base < M68K_TLS_TCB_SIZE {
            Err(CpuError::AddressOverflow)
        } else if tls_addr < M68K_TLS_TCB_SIZE {
            Err(CpuError::AddressOverflow)
        } else {
            let old_start = (m.tls_base - M68K_TLS_TCB_SIZE) as usize;
            let new_start = tls_addr - M68K_TLS_TCB_SIZE;
            let copy_len = if m.tls_memsz < M68K_TLS_TCB_SIZE + TLS_DATA_PAD {
                m.tls_memsz as int
            } else {
                M68K_TLS_TCB_SIZE + TLS_DATA_PAD
            };
            if copy_len > 0 && find_cover(m.mem, new_start, copy_len) is Some {
                let data = if find_cover(m.mem, old_start as int, copy_len) is Some && m.tls_initialized {
                    mem_read(m.mem, old_start as int, copy_len)->Some_0
                } else {
                    zeros(copy_len)
                };
                match mem_write(m.mem, new_start, data) {
                    Some(mem) => Ok(m.with_mem(mem)),
                    None => Err(CpuError::MemoryFault { addr: new_start as usize, len: copy_len as usize }),
                }
            } else {
                Ok(m)
            }
        }
    } else {
        Ok(m)
    }
}

/// set_thread_area(tp): the TLS area made to exist, the new block cleared, the old
/// block's head carried over, and the thread pointer set; the result is 0.
pub open spec fn set_thread_area_spec(m: CpuModel) -> Result<(CpuModel, i64), CpuError> {
    let tls_addr = m.d[1] as usize;
    match ensure_tls_spec(m, tls_addr) {
        Err(e) => Err(e),
        Ok(m1) => match clear_new_tls(m1, tls_addr) {
            Err(e) => Err(e),
            Ok(m2) => match move_tls(m2, tls_addr) {
                Err(e) => Err(e),
                Ok(m3) => Ok((CpuModel { tls_base: tls_addr as u32, tls_initialized: true, ..m3 }, 0)),
            },
        },
    }
}

/// atomic_cmpxchg_32(addr, old, new): the long at `addr` is replaced by `new` where it
/// equals `old`; the result is the long as it was.
pub open spec fn exchange_long_spec(m: CpuModel) -> Result<(CpuModel, i64), CpuError> {
    let addr = m.d[1] as usize;
    match mem_read(m.mem, addr as int, 4) {
        None => Err(CpuError::MemoryFault { addr, len: 4 }),
        Some(b) => {
            let current = be_u32(b);
            if current == m.d[2] {
                match mem_write(m.mem, addr as int, u32_be_bytes(m.d[3])) {
                    Some(mem) => Ok((m.with_mem(mem), current as i64)),
                    None => Err(CpuError::MemoryFault { addr, len: 4 }),
                }
            } else {
                Ok((m, current as i64))
            }
        },
    }
}

/// shmdt(addr): the segment that holds `addr` is unmapped; the result is 0.
pub open spec fn shmdt_spec(m: CpuModel) -> Result<(CpuModel, i64), CpuError> {
    let addr = m.d[1] as usize;
    match find_cover(m.mem, addr as int, 1) {
        None => Err(CpuError::SegmentNotFound { addr }),
        Some(i) => Ok((m.with_mem(m.mem.remove(i)), 0)),
    }
}

/// What an internal call number does.
pub open spec fn internal_spec(m: CpuModel, n: u32) -> Result<(CpuModel, i64), CpuError> {
    if n == 45 {
        brk_spec(m)
    } else if n == 90 {
        mmap_spec(m)
    } else if n == 125 || n == 381 {
        protect_spec(m)
    } else if n == 192 {
        mmap2_spec(m)
    } else if n == 237 {
        mincore_spec(m)
    } else if n == 333 {
        read_tp_spec(m)
    } else if n == 334 {
        set_thread_area_spec(m)
    } else if n == 335 {
        exchange_long_spec(m)
    } else if n == 382 {
        Ok((m, 1))
    } else if n == 398 {
        shmdt_spec(m)
    } else if n == 462 {
        Ok((m, -1i64))
    } else {
        Ok((m, 0))
    }
}

/// The arithmetic of an internal call stays in range.
pub open spec fn internal_ok(m: CpuModel, n: u32) -> bool {
    if n == 45 {
        brk_ok(m)
    } else if n == 90 {
        mmap_ok(m)
    } else if n == 125 || n == 381 {
        protect_ok(m)
    } else if n == 192 {
        (m.d[2] as usize) + 4095 <= usize::MAX
    } else if n == 237 {
        mincore_ok(m)
    } else if n == 334 {
        ensure_tls_ok(m, m.d[1] as usize)
    } else {
        true
    }
}

/// What `handle_syscall` does with the call in D0 (arguments in D1 on): the state
/// after it and what the caller owes, or the error.
pub open spec fn syscall_spec(m: CpuModel) -> Result<(CpuModel, SyscallAction), CpuError> {
    let n = m.d[0];
    match syscall_class_of(n) {
        SyscallClass::Exit => Ok((m, SyscallAction::Exit(m.d[1] as i32))),
        SyscallClass::Constant(v) => Ok((m.with_d(0, v as u32), SyscallAction::Done)),
        SyscallClass::Internal => match internal_spec(m, n) {
            Err(e) => Err(e),
            Ok((m1, res)) => Ok((m1.with_d(0, res as u32), SyscallAction::Done)),
        },
        SyscallClass::Passthrough(k) => Ok((m, SyscallAction::Passthrough(k))),
        SyscallClass::Host => Ok((m, SyscallAction::Host)),
        SyscallClass::NotImplemented => Err(CpuError::SyscallNotImplemented { number: n }),
        SyscallClass::Unsupported => Err(CpuError::UnsupportedSyscall { number: n }),
    }
}

/// The internal calls stay in range.
pub open spec fn syscall_ok(m: CpuModel) -> bool {
    syscall_class_of(m.d[0]) == SyscallClass::Internal ==> internal_ok(m, m.d[0])
}

/// `std::sync::atomic::fence` with sequentially consistent ordering: a full memory
/// barrier on the host. It changes no value the library sees.
#[verifier::external_body]
fn full_fence() {
    std::sync::atomic::fence(std::sync::atomic::Ordering::SeqCst);
}

/// A state result from a model result.
pub open spec fn call_outcome(r: Result<i64, CpuError>, post: CpuModel, spec: Result<(CpuModel, i64), CpuError>) -> bool {
    match spec {
        Ok((m, v)) => r == Ok::<i64, CpuError>(v) && post == m,
        Err(e) => r == Err::<i64, CpuError>(e),
    }
}

/// The segment permissions of mmap protection bits.
fn anon_flags_of(prot: i32) -> (r: u32)
    ensures
        r == anon_flags(prot),
{
    let mut elf_flags = 0u32;
    if prot & 0x1 != 0 {
        elf_flags = elf_flags | pf_r();
    }
    if prot & 0x2 != 0 {
        elf_flags = elf_flags | pf_w();
    }
    if prot & 0x4 != 0 {
        elf_flags = elf_flags | pf_x();
    }
    proof {
        let a: u32 = if prot & 1 != 0 { 4 } else { 0 };
        let b: u32 = if prot & 2 != 0 { 2 } else { 0 };
        let c: u32 = if prot & 4 != 0 { 1 } else { 0 };
        assert(0u32 | a == a && a | 0u32 == a && (a | b) | 0u32 == a | b) by (bit_vector);
    }
    elf_flags
}

impl Cpu {
    /// brk(addr)
    pub fn sys_brk(&mut self) -> (r: Result<i64, CpuError>)
        requires
            brk_ok(old(self)@),
        ensures
            call_outcome(r, final(self)@, brk_spec(old(self)@)),
            r is Err ==> final(self)@ == old(self)@,
    {
        let requested = self.data_regs[1] as usize;
        let old_brk = self.brk;
        if requested == 0 {
            return Ok(old_brk as i64);
        }
        let mut target = requested;
        if target < self.brk_base {
            target = self.brk_base;
        }
        let target_aligned = align_up(target, 4096);
        let old_brk_aligned = align_up(old_brk, 4096);
        let guard: usize = 0x1000;
        if target_aligned + guard > self.stack_base {
            return Ok(old_brk as i64);
        }
        if target_aligned > old_brk_aligned {
            let new_len = match target_aligned.checked_sub(self.heap_segment_base) {
                Some(n) => n,
                None => return Err(CpuError::AddressOverflow),
            };
            let base = self.heap_segment_base;
            let r = self.memory.resize_segment(base, new_len);
            proof {
                match mem_resize(old(self)@.mem, base as int, new_len as int) {
                    Some(mem) => {
                        assert(self@ =~= old(self)@.with_mem(mem));
                    },
                    None => {},
                }
            }
            r?;
        }
        self.brk = target;
        Ok(self.brk as i64)
    }

    /// A zeroed segment of whole pages for an anonymous mapping; the result is its
    /// address.
    pub fn alloc_anonymous_mmap(&mut self, req_addr: usize, length: usize, prot: i32) -> (r: Result<usize, CpuError>)
        requires
            length + 4095 <= usize::MAX,
        ensures
            match alloc_spec(old(self)@, req_addr, length, prot) {
                Ok((m, a)) => r == Ok::<usize, CpuError>(a) && final(self)@ == m,
                Err(e) => r == Err::<usize, CpuError>(e),
            },
            r is Err ==> final(self)@ == old(self)@,
    {
        let aligned_len = (length + 4095) & !4095;
        proof {
            let l: usize = (length + 4095) as usize;
            assert(l & !4095usize == (l / 4096) * 4096) by (bit_vector);
        }
        let addr = if req_addr != 0 {
            req_addr
        } else {
            match self.memory.find_free_range(aligned_len) {
                Some(a) => a,
                None => return Err(CpuError::NoFreeRange),
            }
        };
        let elf_flags = anon_flags_of(prot);
        let data = vec![0u8; aligned_len];
        let segment = MemorySegment { vaddr: addr, data, flags: elf_flags, align: 4096 };
        proof {
            assert(segment@.bytes =~= Seq::new(aligned_len as nat, |_i: int| 0u8));
        }
        let ghost before = self@;
        self.memory.add_segment(segment);
        assert(self@ =~= before.with_mem(before.mem.push(segment@)));
        Ok(addr)
    }

    /// mmap(args) - the old m68k form with the arguments in guest memory.
    pub fn sys_mmap(&mut self) -> (r: Result<i64, CpuError>)
        requires
            mmap_ok(old(self)@),
        ensures
            call_outcome(r, final(self)@, mmap_spec(old(self)@)),
            r is Err ==> final(self)@ == old(self)@,
    {
        let args_ptr = self.data_regs[1] as usize;
        let ghost mem = self@.mem;
        proof {
            assert(read_longs(mem, args_ptr, 0) is Ok);
        }
        let addr_req = self.memory.read_long(args_ptr)? as usize;
        proof {
            assert(read_longs(mem, args_ptr, 1) is Ok);
        }
        let length = self.memory.read_long(args_ptr + 4)? as usize;
        proof {
            assert(read_longs(mem, args_ptr, 2) is Ok);
        }
        let prot = self.memory.read_long(args_ptr + 8)? as i32;
        proof {
            assert(read_longs(mem, args_ptr, 3) is Ok);
        }
        let flags = self.memory.read_long(args_ptr + 12)? as i32;
        proof {
            assert(read_longs(mem, args_ptr, 4) is Ok);
        }
        let fd = self.memory.read_long(args_ptr + 16)? as i32;
        proof {
            assert(read_longs(mem, args_ptr, 5) is Ok);
        }
        let _offset = self.memory.read_long(args_ptr + 20)?;
        let is_anonymous = (flags & 0x20) != 0 || fd == -1;
        if !is_anonymous {
            return Err(CpuError::FileBackedMapping);
        }
        let addr = self.alloc_anonymous_mmap(addr_req, length, prot)?;
        Ok(addr as i64)
    }

    /// mmap2(addr, length, prot, flags, fd, pgoffset) - offset is in pages
    pub fn sys_mmap2(&mut self) -> (r: Result<i64, CpuError>)
        requires
            (old(self).data_regs[2] as usize) + 4095 <= usize::MAX,
        ensures
            call_outcome(r, final(self)@, mmap2_spec(old(self)@)),
            r is Err ==> final(self)@ == old(self)@,
    {
        let req_addr = self.data_regs[1] as usize;
        let length = self.data_regs[2] as usize;
        let prot = self.data_regs[3] as i32;
        let flags = self.data_regs[4] as i32;
        let is_anonymous = (flags & 0x20) != 0;
        if !is_anonymous {
            return Err(CpuError::FileBackedMapping);
        }
        let addr = self.alloc_anonymous_mmap(req_addr, length, prot)?;
        Ok(addr as i64)
    }

    /// The first and the last byte of the range in D1/D2 are mapped.
    fn check_protect_range(&self) -> (r: Result<i64, CpuError>)
        requires
            protect_ok(self@),
        ensures
            call_outcome(r, self@, protect_spec(self@)),
    {
        let addr = self.data_regs[1] as usize;
        let len = self.data_regs[2] as usize;
        if len > 0 {
            if !self.memory.covers_range(addr, 1) {
                return Err(CpuError::MemoryFault { addr, len: 1 });
            }
            if len > 1 {
                if !self.memory.covers_range(addr + len - 1, 1) {
                    return Err(CpuError::MemoryFault { addr: addr + len - 1, len: 1 });
                }
            }
        }
        Ok(0)
    }

    /// mprotect(addr, len, prot)
    pub fn sys_mprotect(&self) -> (r: Result<i64, CpuError>)
        requires
            protect_ok(self@),
        ensures
            call_outcome(r, self@, protect_spec(self@)),
    {
        self.check_protect_range()
    }

    /// pkey_mprotect(addr, len, prot, pkey)
    pub fn sys_pkey_mprotect(&self) -> (r: Result<i64, CpuError>)
        requires
            protect_ok(self@),
        ensures
            call_outcome(r, self@, protect_spec(self@)),
    {
        self.check_protect_range()
    }

    /// pkey_alloc(flags, rights): protection keys are simulated; key 1 is handed out.
    pub fn sys_pkey_alloc(&self) -> (r: Result<i64, CpuError>)
        ensures
            r == Ok::<i64, CpuError>(1),
    {
        Ok(1)
    }

    /// pkey_free(pkey): always succeeds.
    pub fn sys_pkey_free(&self) -> (r: Result<i64, CpuError>)
        ensures
            r == Ok::<i64, CpuError>(0),
    {
        Ok(0)
    }

    /// mseal(addr, len, flags): not provided by 32-bit Linux.
    pub fn sys_mseal(&self) -> (r: Result<i64, CpuError>)
        ensures
            r == Ok::<i64, CpuError>(-1i64),
    {
        Ok(-1)
    }

    /// atomic_barrier(): a full memory barrier on the host.
    pub fn sys_atomic_barrier(&self) -> (r: Result<i64, CpuError>)
        ensures
            r == Ok::<i64, CpuError>(0),
    {
        full_fence();
        Ok(0)
    }

    /// mincore(addr, length, vec)
    pub fn sys_mincore(&mut self) -> (r: Result<i64, CpuError>)
        requires
            mincore_ok(old(self)@),
        ensures
            call_outcome(r, final(self)@, mincore_spec(old(self)@)),
            r is Err ==> final(self)@ == old(self)@,
    {
        let addr = self.data_regs[1] as usize;
        let length = self.data_regs[2] as usize;
        let vec_ptr = self.data_regs[3] as usize;
        let page_size: usize = 4096;
        let num_pages = (length + page_size - 1) / page_size;
        if length > 0 && !self.memory.covers_range(addr, length) {
            return Err(CpuError::MemoryFault { addr, len: length });
        }
        let ones = vec![1u8; num_pages];
        proof {
            assert(ones@ =~= Seq::new(num_pages as nat, |_i: int| 1u8));
        }
        let r = self.memory.write_data(vec_ptr, ones.as_slice());
        proof {
            match mem_write(old(self)@.mem, vec_ptr as int, ones@) {
                Some(mem) => {
                    assert(self@ =~= old(self)@.with_mem(mem));
                },
                None => {},
            }
        }
        r?;
        Ok(0)
    }

    /// read_tp(): return the thread pointer, mapping a TLS block first where none is
    /// set.
    pub fn sys_read_tp(&mut self) -> (r: Result<i64, CpuError>)
        ensures
            call_outcome(r, final(self)@, read_tp_spec(old(self)@)),
            r is Err ==> final(self)@ == old(self)@,
    {
        let mut tp = self.tls_base;
        if tp == 0 {
            let tls_size: usize = M68K_TLS_TCB_SIZE + TLS_DATA_PAD;
            let addr = match self.memory.find_free_range(tls_size) {
                Some(a) => a,
                None => return Err(CpuError::NoFreeRange),
            };
            assert(addr + tls_size <= 0x1_0000_0000);
            let flags = pf_r() | pf_w();
            let data = vec![0u8; tls_size];
            let segment = MemorySegment { vaddr: addr, data, flags, align: 0x1000 };
            proof {
                assert(segment@.bytes =~= Seq::new(tls_size as nat, |_i: int| 0u8));
            }
            let ghost before = self@;
            self.memory.add_segment(segment);
            assert(self@ =~= before.with_mem(before.mem.push(segment@)));
            tp = (addr + M68K_TLS_TCB_SIZE) as u32;
            self.tls_base = tp;
        }
        self.data_regs[0] = tp;
        Ok(tp as i64)
    }

    /// The long exchange of atomic_cmpxchg_32.
    fn exchange_long(&mut self) -> (r: Result<i64, CpuError>)
        ensures
            call_outcome(r, final(self)@, exchange_long_spec(old(self)@)),
            r is Err ==> final(self)@ == old(self)@,
    {
        let addr = self.data_regs[1] as usize;
        let expected = self.data_regs[2];
        let new = self.data_regs[3];
        let current = self.memory.read_long(addr)?;
        if current == expected {
            let bytes = crate::cpu::operand::long_to_be_bytes(new);
            let r = self.memory.write_data(addr, &bytes);
            proof {
                match mem_write(old(self)@.mem, addr as int, u32_be_bytes(new)) {
                    Some(mem) => {
                        assert(self@ =~= old(self)@.with_mem(mem));
                    },
                    None => {},
                }
            }
            r?;
        }
        Ok(current as i64)
    }

    /// atomic_cmpxchg_32(uaddr, oldval, newval) - m68k only
    /// Returns the previous value at *uaddr.
    pub fn sys_atomic_cmpxchg_32(&mut self) -> (r: Result<i64, CpuError>)
        ensures
            call_outcome(r, final(self)@, exchange_long_spec(old(self)@)),
            r is Err ==> final(self)@ == old(self)@,
    {
        self.exchange_long()
    }

    /// shmdt(shmaddr): unmap the segment that holds the address.
    pub fn sys_shmdt(&mut self) -> (r: Result<i64, CpuError>)
        ensures
            call_outcome(r, final(self)@, shmdt_spec(old(self)@)),
            r is Err ==> final(self)@ == old(self)@,
    {
        let guest_addr = self.data_regs[1] as usize;
        let segment_idx = match self.memory.find_segment_index(guest_addr) {
            Some(i) => i,
            None => return Err(CpuError::SegmentNotFound { addr: guest_addr }),
        };
        proof {
            crate::memory::lemma_find_cover_from(self@.mem, guest_addr as int, 1, 0);
        }
        let ghost before = self@;
        self.memory.remove_segment(segment_idx);
        assert(self@ =~= before.with_mem(before.mem.remove(segment_idx as int)));
        Ok(0)
    }

    /// Clear the TLS block below a new thread pointer, where it is mapped.
    fn clear_new_tls(&mut self, tls_addr: usize) -> (r: Result<(), CpuError>)
        ensures
            crate::cpu::outcome(r, final(self)@, clear_new_tls(old(self)@, tls_addr)),
    {
        if self.tls_memsz > 0 {
            let new_start = match tls_addr.checked_sub(M68K_TLS_TCB_SIZE) {
                Some(s) => s,
                None => return Err(CpuError::AddressOverflow),
            };
            if self.memory.covers_range(new_start, self.tls_memsz) {
                let zero_bytes = vec![0u8; self.tls_memsz];
                proof {
                    assert(zero_bytes@ =~= zeros(self.tls_memsz as int));
                }
                let r = self.memory.write_data(new_start, zero_bytes.as_slice());
                proof {
                    match mem_write(old(self)@.mem, new_start as int, zero_bytes@) {
                        Some(mem) => {
                            assert(self@ =~= old(self)@.with_mem(mem));
                        },
                        None => {},
                    }
                }
                r?;
            }
        }
        Ok(())
    }

    /// Carry the head of the old TLS block over to a new thread pointer.
    fn move_tls(&mut self, tls_addr: usize) -> (r: Result<(), CpuError>)
        ensures
            crate::cpu::outcome(r, final(self)@, move_tls(old(self)@, tls_addr)),
    {
        if self.tls_base != 0 && self.tls_base as usize != tls_addr {
            let old_start = match self.tls_base.checked_sub(M68K_TLS_TCB_SIZE as u32) {
                Some(s) => s as usize,
                None => return Err(CpuError::AddressOverflow),
            };
            let new_start = match tls_addr.checked_sub(M68K_TLS_TCB_SIZE) {
                Some(s) => s,
                None => return Err(CpuError::AddressOverflow),
            };
            let copy_len = if self.tls_memsz < M68K_TLS_TCB_SIZE + TLS_DATA_PAD {
                self.tls_memsz
            } else {
                M68K_TLS_TCB_SIZE + TLS_DATA_PAD
            };
            if copy_len > 0 && self.memory.covers_range(new_start, copy_len) {
                let data = if self.memory.covers_range(old_start, copy_len) && self.tls_initialized {
                    proof {
                        crate::memory::lemma_find_cover_from(self@.mem, old_start as int, copy_len as int, 0);
                    }
                    self.memory.read_data(old_start, copy_len)?
                } else {
                    let z = vec![0u8; copy_len];
                    proof {
                        assert(z@ =~= zeros(copy_len as int));
                    }
                    z
                };
                assert(data@.len() == copy_len);
                let r = self.memory.write_data(new_start, data.as_slice());
                proof {
                    match mem_write(old(self)@.mem, new_start as int, data@) {
                        Some(mem) => {
                            assert(self@ =~= old(self)@.with_mem(mem));
                        },
                        None => {},
                    }
                }
                r?;
            }
        }
        Ok(())
    }

    /// Set thread area
    pub fn set_thread_area(&mut self) -> (r: Result<i64, CpuError>)
        requires
            ensure_tls_ok(old(self)@, old(self).data_regs[1] as usize),
        ensures
            call_outcome(r, final(self)@, set_thread_area_spec(old(self)@)),
    {
        let tls_addr = self.data_regs[1] as usize;
        self.ensure_tls_range(tls_addr)?;
        self.clear_new_tls(tls_addr)?;
        self.move_tls(tls_addr)?;
        self.tls_base = tls_addr as u32;
        self.tls_initialized = true;
        Ok(0)
    }

    /// Carry out a call the interpreter answers itself.
    fn internal_syscall(&mut self, n: u32) -> (r: Result<i64, CpuError>)
        requires
            old(self)@.d[0] == n,
            internal_ok(old(self)@, n),
        ensures
            call_outcome(r, final(self)@, internal_spec(old(self)@, n)),
            r is Err && n != 334 ==> final(self)@ == old(self)@,
    {
        if n == 45 {
            self.sys_brk()
        } else if n == 90 {
            self.sys_mmap()
        } else if n == 125 {
            self.sys_mprotect()
        } else if n == 381 {
            self.sys_pkey_mprotect()
        } else if n == 192 {
            self.sys_mmap2()
        } else if n == 237 {
            self.sys_mincore()
        } else if n == 333 {
            self.sys_read_tp()
        } else if n == 334 {
            self.set_thread_area()
        } else if n == 335 {
            self.sys_atomic_cmpxchg_32()
        } else if n == 382 {
            self.sys_pkey_alloc()
        } else if n == 398 {
            self.sys_shmdt()
        } else if n == 462 {
            self.sys_mseal()
        } else if n == 336 {
            self.sys_atomic_barrier()
        } else {
            self.sys_pkey_free()
        }
    }

    /// Answer the system call in D0 (m68k Linux ABI: arguments in D1-D5). Calls the
    /// interpreter answers itself leave their result in D0; the others tell the
    /// caller what to carry out.
    pub fn handle_syscall(&mut self) -> (r: Result<SyscallAction, CpuError>)
        requires
            syscall_ok(old(self)@),
        ensures
            match syscall_spec(old(self)@) {
                Ok((m, a)) => r == Ok::<SyscallAction, CpuError>(a) && final(self)@ == m,
                Err(e) => r == Err::<SyscallAction, CpuError>(e),
            },
            r is Err && old(self).data_regs[0] != 334 ==> final(self)@ == old(self)@,
    {
        let num = self.data_regs[0];
        match syscall_class(num) {
            SyscallClass::Exit => Ok(SyscallAction::Exit(self.data_regs[1] as i32)),
            SyscallClass::Constant(v) => {
                self.data_regs[0] = v as u32;
                Ok(SyscallAction::Done)
            },
            SyscallClass::Internal => {
                let result = self.internal_syscall(num)?;
                self.data_regs[0] = result as u32;
                Ok(SyscallAction::Done)
            },
            SyscallClass::Passthrough(k) => Ok(SyscallAction::Passthrough(k)),
            SyscallClass::Host => Ok(SyscallAction::Host),
            SyscallClass::NotImplemented => Err(CpuError::SyscallNotImplemented { number: num }),
            SyscallClass::Unsupported => Err(CpuError::UnsupportedSyscall { number: num }),
        }
    }

    /// Store the result of a call the host carried out in D0.
    pub fn finish_syscall(&mut self, result: i64)
        ensures
            final(self)@ == old(self)@.with_d(0, result as u32),
    {
        self.data_regs[0] = result as u32;
    }
}

} // verus!
