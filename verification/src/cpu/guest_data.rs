//! Reading and writing the data system calls exchange with the guest: C strings,
//! string arrays, 64-bit values, argument blocks and `fd_set` bits; the open flags
//! of the guest's ABI; and the host's error convention.

use vstd::prelude::*;

use crate::cpu::Cpu;
use crate::error::CpuError;
use crate::memory::{be_u32, mem_read, mem_write, u32_be_bytes, SegmentView};

verus! {

/// The most bytes read for one C string before it counts as unterminated.
pub const MAX_C_STRING: usize = 4096;

/// The most pointers read from one string array.
pub const MAX_STRING_ARRAY: usize = 1024;

/// A result with `prefix` put in front of its bytes.
pub open spec fn prepend(prefix: Seq<u8>, r: Result<Seq<u8>, CpuError>) -> Result<Seq<u8>, CpuError> {
    match r {
        Ok(s) => Ok(prefix + s),
        Err(e) => Err(e),
    }
}

/// The bytes of the C string at `addr`, the `i`-th byte of the one that starts at
/// `start`: up to the terminating zero, failing on an unreadable byte, on the end of
/// the address range and after `MAX_C_STRING` bytes without a terminator.
pub open spec fn c_string_from(mem: Seq<SegmentView>, addr: int, start: usize, i: int) -> Result<Seq<u8>, CpuError>
    decreases MAX_C_STRING - i,
{
    if i >= MAX_C_STRING {
        Err(CpuError::UnterminatedString { addr: start })
    } else {
        match mem_read(mem, addr, 1) {
            None => Err(CpuError::MemoryFault { addr: addr as usize, len: 1 }),
            Some(b) => if b[0] == 0 {
                Ok(Seq::empty())
            } else if addr + 1 > usize::MAX {
                Err(CpuError::AddressOverflow)
            } else {
                prepend(seq![b[0]], c_string_from(mem, addr + 1, start, i + 1))
            },
        }
    }
}

/// The C string at `addr`, without its terminator.
pub open spec fn c_string(mem: Seq<SegmentView>, addr: usize) -> Result<Seq<u8>, CpuError> {
    c_string_from(mem, addr as int, addr, 0)
}

/// The strings of a NULL-terminated array of 32-bit string pointers, from the
/// `i`-th pointer at `addr` on; every string must be UTF-8, and an array that is
/// still going after `MAX_STRING_ARRAY` pointers is refused.
pub open spec fn string_array_from(mem: Seq<SegmentView>, addr: int, start: usize, i: int) -> Result<Seq<Seq<char>>, CpuError>
    decreases MAX_STRING_ARRAY - i,
{
    if i >= MAX_STRING_ARRAY {
        Err(CpuError::StringArrayTooLong { addr: start })
    } else {
        match mem_read(mem, addr, 4) {
            None => Err(CpuError::MemoryFault { addr: addr as usize, len: 4 }),
            Some(b) => {
                let ptr = be_u32(b) as usize;
                if ptr == 0 {
                    Ok(Seq::empty())
                } else {
                    match c_string(mem, ptr) {
                        Err(e) => Err(e),
                        Ok(bytes) => if !vstd::utf8::valid_utf8(bytes) {
                            Err(CpuError::InvalidUtf8)
                        } else if addr + 4 > usize::MAX {
                            Err(CpuError::AddressOverflow)
                        } else {
                            match string_array_from(mem, addr + 4, start, i + 1) {
                                Ok(rest) => Ok(seq![vstd::utf8::decode_utf8(bytes)] + rest),
                                Err(e) => Err(e),
                            }
                        },
                    }
                }
            },
        }
    }
}

/// The strings of the array at `addr`.
pub open spec fn string_array(mem: Seq<SegmentView>, addr: usize) -> Result<Seq<Seq<char>>, CpuError> {
    string_array_from(mem, addr as int, addr, 0)
}

/// Open flags of the m68k Linux ABI in the x86-64 encoding: the low flags are shared;
/// O_DIRECTORY, O_NOFOLLOW, O_DIRECT and O_LARGEFILE sit at other bits; O_CLOEXEC is
/// kept.
pub open spec fn open_flags_spec(f: i32) -> i32 {
    (f & 0o037777) | (if f & 0o040000 != 0 {
        0o200000i32
    } else {
        0
    }) | (if f & 0o100000 != 0 {
        0o400000i32
    } else {
        0
    }) | (if f & 0o200000 != 0 {
        0o040000i32
    } else {
        0
    }) | (if f & 0o400000 != 0 {
        0o100000i32
    } else {
        0
    }) | (f & 0o2000000)
}

/// The kernel's convention for a host call's result: -1 is an error whose number is
/// `errno` (1 where the host gives none), returned negated; anything else is kept.
pub open spec fn kernel_result(result: i64, errno: Option<i32>) -> i64 {
    if result == -1 {
        match errno {
            Some(e) => (-(e as int)) as i64,
            None => -1i64,
        }
    } else {
        result
    }
}

/// `String::from_utf8`: the string the bytes encode, where they are valid UTF-8 (as
/// std documents it), `None` otherwise.
#[verifier::external_body]
fn utf8_to_string(bytes: Vec<u8>) -> (r: Option<String>)
    ensures
        match r {
            Some(s) => vstd::utf8::valid_utf8(bytes@) && s@ == vstd::utf8::decode_utf8(bytes@),
            None => !vstd::utf8::valid_utf8(bytes@),
        },
{
    String::from_utf8(bytes).ok()
}

/// `std::io::Error::last_os_error().raw_os_error()`: the host's current `errno`. It
/// depends on the last failed host call, so nothing is stated of it.
#[verifier::external_body]
fn last_errno() -> (r: Option<i32>) {
    std::io::Error::last_os_error().raw_os_error()
}

/// The kernel result for an error number read from the host.
pub fn kernel_result_of(result: i64, errno: Option<i32>) -> (r: i64)
    ensures
        r == kernel_result(result, errno),
{
    if result == -1 {
        match errno {
            Some(e) => -(e as i64),
            None => -1,
        }
    } else {
        result
    }
}

impl Cpu {
    /// Convert libc syscall result (-1 + errno) to kernel ABI (-errno).
    /// libc::syscall returns -1 on error and sets errno.
    /// The kernel returns -errno directly.
    pub fn libc_to_kernel(result: i64) -> (r: i64)
        ensures
            result != -1 ==> r == result,
            result == -1 ==> exists|e: Option<i32>| r == kernel_result(result, e),
    {
        if result == -1 {
            let errno = last_errno();
            kernel_result_of(result, errno)
        } else {
            result
        }
    }

    /// Translate the open flags of the m68k ABI to the host's.
    pub fn translate_open_flags(m68k_flags: i32) -> (r: i32)
        ensures
            r == open_flags_spec(m68k_flags),
    {
        let m68k_o_directory: i32 = 0o040000;
        let m68k_o_nofollow: i32 = 0o100000;
        let m68k_o_direct: i32 = 0o200000;
        let m68k_o_largefile: i32 = 0o400000;
        let x86_64_o_direct: i32 = 0o040000;
        let x86_64_o_largefile: i32 = 0o100000;
        let x86_64_o_directory: i32 = 0o200000;
        let x86_64_o_nofollow: i32 = 0o400000;
        let common_flags_mask: i32 = 0o037777;
        let mut x86_flags = m68k_flags & common_flags_mask;
        let ghost f = m68k_flags;
        let d = if m68k_flags & m68k_o_directory != 0 {
            x86_64_o_directory
        } else {
            0
        };
        let n = if m68k_flags & m68k_o_nofollow != 0 {
            x86_64_o_nofollow
        } else {
            0
        };
        let t = if m68k_flags & m68k_o_direct != 0 {
            x86_64_o_direct
        } else {
            0
        };
        let l = if m68k_flags & m68k_o_largefile != 0 {
            x86_64_o_largefile
        } else {
            0
        };
        x86_flags = x86_flags | d;
        x86_flags = x86_flags | n;
        x86_flags = x86_flags | t;
        x86_flags = x86_flags | l;
        x86_flags = x86_flags | (m68k_flags & 0o2000000);
        x86_flags
    }

    /// Read a NUL-terminated string from guest memory (without the terminator).
    pub fn read_c_string(&self, addr: usize) -> (r: Result<Vec<u8>, CpuError>)
        ensures
            match c_string(self@.mem, addr) {
                Ok(s) => r matches Ok(v) && v@ == s,
                Err(e) => r matches Err(e2) && e2 == e,
            },
    {
        let mut bytes: Vec<u8> = Vec::new();
        let mut offset = addr;
        let mut i: usize = 0;
        while i < MAX_C_STRING
            invariant
                i <= MAX_C_STRING,
                offset == addr + i,
                bytes@.len() == i,
                c_string(self@.mem, addr) == prepend(bytes@, c_string_from(self@.mem, offset as int, addr, i as int)),
            decreases MAX_C_STRING - i,
        {
            let byte = match self.memory.read_byte(offset) {
                Ok(b) => b,
                Err(e) => return Err(e),
            };
            if byte == 0 {
                assert(bytes@ + Seq::<u8>::empty() =~= bytes@);
                return Ok(bytes);
            }
            let ghost before = bytes@;
            bytes.push(byte);
            offset = match offset.checked_add(1) {
                Some(o) => o,
                None => return Err(CpuError::AddressOverflow),
            };
            proof {
                let rest = c_string_from(self@.mem, offset as int, addr, (i + 1) as int);
                match rest {
                    Ok(s) => {
                        assert(before + (seq![byte] + s) =~= bytes@ + s);
                    },
                    Err(_) => {},
                }
            }
            i = i + 1;
        }
        Err(CpuError::UnterminatedString { addr })
    }

    /// Read a NULL-terminated array of string pointers from guest memory.
    pub fn read_string_array(&self, array_addr: usize) -> (r: Result<Vec<String>, CpuError>)
        ensures
            match string_array(self@.mem, array_addr) {
                Ok(s) => r matches Ok(v) && v@.map_values(|x: String| x@) == s,
                Err(e) => r matches Err(e2) && e2 == e,
            },
    {
        let mut strings: Vec<String> = Vec::new();
        let mut offset = array_addr;
        let mut i: usize = 0;
        while i < MAX_STRING_ARRAY
            invariant
                i <= MAX_STRING_ARRAY,
                strings@.len() == i,
                match string_array(self@.mem, array_addr) {
                    Ok(all) => match string_array_from(self@.mem, offset as int, array_addr, i as int) {
                        Ok(rest) => all == strings@.map_values(|x: String| x@) + rest,
                        Err(_) => false,
                    },
                    Err(e) => string_array_from(self@.mem, offset as int, array_addr, i as int) == Err::<
                        Seq<Seq<char>>,
                        CpuError,
                    >(e),
                },
            decreases MAX_STRING_ARRAY - i,
        {
            let ptr = match self.memory.read_long(offset) {
                Ok(p) => p as usize,
                Err(e) => return Err(e),
            };
            if ptr == 0 {
                assert(strings@.map_values(|x: String| x@) + Seq::<Seq<char>>::empty() =~= strings@.map_values(
                    |x: String| x@,
                ));
                return Ok(strings);
            }
            let bytes = self.read_c_string(ptr)?;
            let ghost bv = bytes@;
            let string = match utf8_to_string(bytes) {
                Some(s) => s,
                None => return Err(CpuError::InvalidUtf8),
            };
            let ghost before = strings@;
            strings.push(string);
            offset = match offset.checked_add(4) {
                Some(o) => o,
                None => return Err(CpuError::AddressOverflow),
            };
            proof {
                assert(strings@.map_values(|x: String| x@) =~= before.map_values(|x: String| x@).push(
                    vstd::utf8::decode_utf8(bv),
                ));
                match string_array_from(self@.mem, offset as int, array_addr, (i + 1) as int) {
                    Ok(rest) => {
                        assert(before.map_values(|x: String| x@) + (seq![vstd::utf8::decode_utf8(bv)] + rest)
                            =~= strings@.map_values(|x: String| x@) + rest);
                    },
                    Err(_) => {},
                }
            }
            i = i + 1;
        }
        Err(CpuError::StringArrayTooLong { addr: array_addr })
    }

    /// Read a big-endian 64-bit value (two longs).
    pub fn read_u64_be(&self, addr: usize) -> (r: Result<u64, CpuError>)
        requires
            mem_read(self@.mem, addr as int, 4) is Some ==> addr + 4 <= usize::MAX,
        ensures
            match mem_read(self@.mem, addr as int, 4) {
                None => r == Err::<u64, CpuError>(CpuError::MemoryFault { addr, len: 4 }),
                Some(h) => match mem_read(self@.mem, addr + 4, 4) {
                    None => r == Err::<u64, CpuError>(CpuError::MemoryFault { addr: (addr + 4) as usize, len: 4 }),
                    Some(l) => r == Ok::<u64, CpuError>((be_u32(h) as int * 0x1_0000_0000 + be_u32(l) as int) as u64),
                },
            },
    {
        let hi = self.memory.read_long(addr)?;
        let lo = self.memory.read_long(addr + 4)?;
        proof {
            assert(((hi as u64) << 32u64) | (lo as u64) == hi as u64 * 0x1_0000_0000 + lo as u64) by (bit_vector);
        }
        Ok(((hi as u64) << 32) | (lo as u64))
    }

    /// Write a big-endian 64-bit value (two longs).
    pub fn write_u64_be(&mut self, addr: usize, value: u64) -> (r: Result<(), CpuError>)
        requires
            mem_read(old(self)@.mem, addr as int, 4) is Some ==> addr + 4 <= usize::MAX,
        ensures
            match mem_write(old(self)@.mem, addr as int, u32_be_bytes((value / 0x1_0000_0000) as u32)) {
                None => r == Err::<(), CpuError>(CpuError::MemoryFault { addr, len: 4 }),
                Some(m1) => match mem_write(m1, addr + 4, u32_be_bytes((value % 0x1_0000_0000) as u32)) {
                    None => r == Err::<(), CpuError>(CpuError::MemoryFault { addr: (addr + 4) as usize, len: 4 }),
                    Some(m2) => r is Ok && final(self)@ == old(self)@.with_mem(m2),
                },
            },
    {
        let hi = (value >> 32) as u32;
        let lo = value as u32;
        proof {
            assert((value >> 32u64) as u32 == (value / 0x1_0000_0000) as u32 && value as u32 == (value
                % 0x1_0000_0000) as u32) by (bit_vector);
            crate::memory::lemma_find_cover_from(self@.mem, addr as int, 4, 0);
        }
        let hb = crate::cpu::operand::long_to_be_bytes(hi);
        let lb = crate::cpu::operand::long_to_be_bytes(lo);
        self.memory.write_data(addr, &hb)?;
        self.memory.write_data(addr + 4, &lb)?;
        Ok(())
    }

    /// Read the (value pointer, size, flags) block of the *xattrat calls.
    pub fn read_xattr_args(&self, addr: usize) -> (r: Result<(usize, usize, u32), CpuError>)
        requires
            addr + 8 <= usize::MAX,
        ensures
            match mem_read(self@.mem, addr as int, 4) {
                None => r == Err::<(usize, usize, u32), CpuError>(CpuError::MemoryFault { addr, len: 4 }),
                Some(a) => match mem_read(self@.mem, addr + 4, 4) {
                    None => r == Err::<(usize, usize, u32), CpuError>(
                        CpuError::MemoryFault { addr: (addr + 4) as usize, len: 4 },
                    ),
                    Some(b) => match mem_read(self@.mem, addr + 8, 4) {
                        None => r == Err::<(usize, usize, u32), CpuError>(
                            CpuError::MemoryFault { addr: (addr + 8) as usize, len: 4 },
                        ),
                        Some(c) => r == Ok::<(usize, usize, u32), CpuError>(
                            (be_u32(a) as usize, be_u32(b) as usize, be_u32(c)),
                        ),
                    },
                },
            },
    {
        let value_ptr = self.memory.read_long(addr)? as usize;
        let size = self.memory.read_long(addr + 4)? as usize;
        let flags = self.memory.read_long(addr + 8)?;
        Ok((value_ptr, size, flags))
    }

    /// Whether bit `fd` is set in the guest `fd_set` at `fdset_addr` (32-bit longs,
    /// bit 0 the least significant).
    pub fn guest_fd_isset(&self, fd: i32, fdset_addr: usize) -> (r: Result<bool, CpuError>)
        requires
            0 <= fd,
            fdset_addr + (fd / 32) * 4 <= usize::MAX,
        ensures
            match mem_read(self@.mem, fdset_addr + (fd / 32) * 4, 4) {
                None => r == Err::<bool, CpuError>(
                    CpuError::MemoryFault { addr: (fdset_addr + (fd / 32) * 4) as usize, len: 4 },
                ),
                Some(b) => r == Ok::<bool, CpuError>(be_u32(b) & (1u32 << ((fd % 32) as u32)) != 0),
            },
    {
        let long_index = (fd / 32) as usize;
        let bit_index = fd % 32;
        let long_addr = fdset_addr + long_index * 4;
        let long_val = self.memory.read_long(long_addr)?;
        Ok((long_val & (1u32 << bit_index)) != 0)
    }
}

} // verus!
