//! Bit fields (BFTST, BFCHG, BFCLR, BFSET, BFEXTU, BFEXTS, BFFFO, BFINS): a field of
//! 1 to 32 bits inside a data register, or anywhere in memory at a bit offset from a
//! base byte.

use vstd::prelude::*;

use crate::alu::{bf_width, data_reg_index, dreg, extract_bitfield_from_u32, extract_spec, insert_bitfield_into_u32, insert_spec, low_mask};
use crate::cpu::operand::ea_spec;
use crate::cpu::{with_flag, Cpu, CpuModel, FLAG_C, FLAG_N, FLAG_V, FLAG_Z};
use crate::decoder::{AddressingMode, BitFieldParam, DataReg, EffectiveAddress, Instruction};
use crate::error::CpuError;
use crate::memory::{mem_read, mem_write, MemoryImage, SegmentView};

verus! {

/// The value of a sequence of bytes read most significant first.
pub open spec fn be_value(s: Seq<u8>) -> int
    decreases s.len(),
{
    if s.len() == 0 {
        0
    } else {
        be_value(s.drop_last()) * 256 + s.last() as int
    }
}

/// 256 to the power `n`.
pub open spec fn pow256(n: nat) -> int
    decreases n,
{
    if n == 0 {
        1
    } else {
        pow256((n - 1) as nat) * 256
    }
}

/// `n` bytes read byte by byte from `start` on; the first byte that cannot be read
/// is the error.
pub open spec fn read_each(mem: Seq<SegmentView>, start: int, n: nat) -> Result<Seq<u8>, CpuError>
    decreases n,
{
    if n == 0 {
        Ok(Seq::empty())
    } else {
        match read_each(mem, start, (n - 1) as nat) {
            Err(e) => Err(e),
            Ok(s) => match mem_read(mem, start + n - 1, 1) {
                Some(b) => Ok(s.push(b[0])),
                None => Err(CpuError::MemoryFault { addr: (start + n - 1) as usize, len: 1 }),
            },
        }
    }
}

/// `data` written byte by byte from `start` on; the first byte that cannot be written
/// is the error.
pub open spec fn write_each(mem: Seq<SegmentView>, start: int, data: Seq<u8>) -> Result<Seq<SegmentView>, CpuError>
    decreases data.len(),
{
    if data.len() == 0 {
        Ok(mem)
    } else {
        match write_each(mem, start, data.drop_last()) {
            Err(e) => Err(e),
            Ok(m1) => match mem_write(m1, start + data.len() - 1, seq![data.last()]) {
                Some(m2) => Ok(m2),
                None => Err(CpuError::MemoryFault { addr: (start + data.len() - 1) as usize, len: 1 }),
            },
        }
    }
}

/// The bit address of a memory bit field: `offset` bits after the most significant
/// bit of the byte at `base`.
pub open spec fn bf_bit_addr(base: u32, offset: i32) -> int {
    base as int * 8 + offset as int
}

/// The bytes of a memory bit field that starts at or after address 0 fit the address
/// range (one that starts before address 0 is refused as an underflow).
pub open spec fn bf_mem_in_range(base: u32, offset: i32, width: u32) -> bool {
    let a = bf_bit_addr(base, offset);
    a >= 0 ==> a / 8 + 5 <= usize::MAX
}

/// Where a memory bit field lies: its first byte, the bit of that byte it starts at
/// and how many bytes it spans.
pub open spec fn bf_span(base: u32, offset: i32, width: u32) -> (int, int, int) {
    let a = bf_bit_addr(base, offset);
    let bit = a % 8;
    (a / 8, bit, (bit + bf_width(width) + 7) / 8)
}

/// The distance of a field's last bit from the end of the bytes it spans.
pub open spec fn bf_shift(base: u32, offset: i32, width: u32) -> u32 {
    let (start, bit, n) = bf_span(base, offset, width);
    (n * 8 - bit - bf_width(width)) as u32
}

/// The bit field read from memory, right-justified.
pub open spec fn mem_extract_spec(mem: Seq<SegmentView>, base: u32, offset: i32, width: u32) -> Result<u32, CpuError> {
    let (start, bit, n) = bf_span(base, offset, width);
    if bf_bit_addr(base, offset) < 0 {
        Err(CpuError::BitFieldUnderflow)
    } else {
        match read_each(mem, start, n as nat) {
            Err(e) => Err(e),
            Ok(bytes) => Ok(
                (((be_value(bytes) as u64) >> bf_shift(base, offset, width)) as u32) & low_mask(bf_width(width)),
            ),
        }
    }
}

/// The mask of the low `w` bits as a 64-bit value.
pub open spec fn low_mask64(w: u32) -> u64 {
    if w >= 32 {
        0xFFFF_FFFF
    } else {
        ((1u64 << w) - 1) as u64
    }
}

/// The bytes spanned by a field after the field is replaced by the low bits of `value`.
pub open spec fn inserted_bytes(bytes: Seq<u8>, base: u32, offset: i32, width: u32, value: u32) -> Seq<u8> {
    let n = bytes.len() as int;
    let shift = bf_shift(base, offset, width);
    let mask = low_mask64(bf_width(width));
    let data = ((be_value(bytes) as u64) & !(mask << shift)) | (((value as u64) & mask) << shift);
    Seq::new(bytes.len(), |i: int| (data >> (((n - 1 - i) * 8) as usize)) as u8)
}

/// The address space after the low bits of `value` are stored into a memory bit field.
pub open spec fn mem_insert_spec(mem: Seq<SegmentView>, base: u32, offset: i32, width: u32, value: u32) -> Result<
    Seq<SegmentView>,
    CpuError,
> {
    let (start, bit, n) = bf_span(base, offset, width);
    if bf_bit_addr(base, offset) < 0 {
        Err(CpuError::BitFieldUnderflow)
    } else {
        match read_each(mem, start, n as nat) {
            Err(e) => Err(e),
            Ok(bytes) => write_each(mem, start, inserted_bytes(bytes, base, offset, width, value)),
        }
    }
}

/// The big-endian value of `s` is below 256 to the power of its length.
pub proof fn lemma_be_value_bound(s: Seq<u8>)
    ensures
        0 <= be_value(s) < pow256(s.len()),
    decreases s.len(),
{
    if s.len() > 0 {
        lemma_be_value_bound(s.drop_last());
    }
}

/// Where the field starts, in bytes and bits, for a non-negative bit address.
fn bit_location(base_addr: u32, offset: i32) -> (r: (i64, u32))
    ensures
        r.0 == bf_bit_addr(base_addr, offset),
        r.0 >= 0 ==> r.1 == bf_bit_addr(base_addr, offset) % 8,
{
    let bit_addr = (base_addr as i64 * 8) + offset as i64;
    if bit_addr >= 0 {
        (bit_addr, (bit_addr % 8) as u32)
    } else {
        (bit_addr, 0)
    }
}

/// Read `n` bytes from `start` on, most significant first, as one value.
fn read_field_bytes(memory: &MemoryImage, start: usize, n: usize) -> (r: Result<u64, CpuError>)
    requires
        1 <= n <= 5,
        start + n <= usize::MAX,
    ensures
        match read_each(memory@, start as int, n as nat) {
            Ok(bytes) => r == Ok::<u64, CpuError>(be_value(bytes) as u64) && be_value(bytes) < pow256(n as nat)
                && bytes.len() == n,
            Err(e) => r == Err::<u64, CpuError>(e),
        },
{
    let mut field_data = 0u64;
    let ghost mut got: Seq<u8> = Seq::empty();
    let mut i: usize = 0;
    while i < n
        invariant
            i <= n <= 5,
            start + n <= usize::MAX,
            read_each(memory@, start as int, i as nat) == Ok::<Seq<u8>, CpuError>(got),
            got.len() == i,
            field_data as int == be_value(got),
        decreases n - i,
    {
        proof {
            lemma_be_value_bound(got);
            assert(pow256(i as nat) <= 0x1_0000_0000) by {
                reveal_with_fuel(pow256, 5);
            }
        }
        let byte = match memory.read_byte(start + i) {
            Ok(b) => b,
            Err(e) => {
                assert(read_each(memory@, start as int, (i + 1) as nat) == Err::<Seq<u8>, CpuError>(e));
                proof {
                    lemma_read_each_err_extends(memory@, start as int, (i + 1) as nat, n as nat);
                }
                return Err(e);
            },
        };
        proof {
            assert(field_data < 0x1_0000_0000);
            assert((field_data << 8) | (byte as u64) == field_data * 256 + byte as u64) by (bit_vector)
                requires
                    field_data < 0x1_0000_0000,
            ;
            assert(got.push(byte).drop_last() =~= got);
        }
        field_data = (field_data << 8) | (byte as u64);
        proof {
            got = got.push(byte);
        }
        i = i + 1;
    }
    proof {
        lemma_be_value_bound(got);
    }
    Ok(field_data)
}

/// Once reading fails at some length, it fails the same way at every greater length.
proof fn lemma_read_each_err_extends(mem: Seq<SegmentView>, start: int, k: nat, n: nat)
    requires
        k <= n,
        read_each(mem, start, k) is Err,
    ensures
        read_each(mem, start, n) == read_each(mem, start, k),
    decreases n - k,
{
    if k < n {
        lemma_read_each_err_extends(mem, start, k, (n - 1) as nat);
    }
}

/// Once writing fails at some prefix, it fails the same way for the whole data.
proof fn lemma_write_each_err_extends(mem: Seq<SegmentView>, start: int, data: Seq<u8>, k: int)
    requires
        0 <= k <= data.len(),
        write_each(mem, start, data.take(k)) is Err,
    ensures
        write_each(mem, start, data) == write_each(mem, start, data.take(k)),
    decreases data.len() - k,
{
    if k < data.len() {
        assert(data.drop_last().take(k) =~= data.take(k));
        lemma_write_each_err_extends(mem, start, data.drop_last(), k);
        assert(data.take(data.len() as int) =~= data);
    } else {
        assert(data.take(k) =~= data);
    }
}

/// Extract a bit field from memory.
/// The base address points to the byte containing bit 0 of the field reference.
/// Offset can be negative or greater than 7.
pub fn extract_bitfield_from_memory(memory: &MemoryImage, base_addr: u32, offset: i32, width: u32) -> (r: Result<
    u32,
    CpuError,
>)
    requires
        bf_mem_in_range(base_addr, offset, width),
    ensures
        r == mem_extract_spec(memory@, base_addr, offset, width),
{
    let width = if width == 0 {
        32
    } else if width < 32 {
        width
    } else {
        32
    };
    let (bit_addr, bit_in_byte) = bit_location(base_addr, offset);
    if bit_addr < 0 {
        return Err(CpuError::BitFieldUnderflow);
    }
    let start_addr = (bit_addr / 8) as usize;
    let total_bits = bit_in_byte + width;
    let bytes_needed = ((total_bits + 7) / 8) as usize;
    let field_data = read_field_bytes(memory, start_addr, bytes_needed)?;
    let shift = (bytes_needed as u32 * 8) - bit_in_byte - width;
    let mask = if width == 32 {
        0xFFFFFFFF
    } else {
        proof {
            crate::alu::lemma_shl_one(width);
        }
        (1u32 << width) - 1
    };
    Ok(((field_data >> shift) as u32) & mask)
}

/// Write `data` byte by byte from `start` on.
fn write_field_bytes(memory: &mut MemoryImage, start: usize, data: &Vec<u8>) -> (r: Result<(), CpuError>)
    requires
        start + data.len() <= usize::MAX,
    ensures
        match write_each(old(memory)@, start as int, data@) {
            Ok(m) => r is Ok && final(memory)@ == m,
            Err(e) => r == Err::<(), CpuError>(e),
        },
{
    let n = data.len();
    let mut i: usize = 0;
    while i < n
        invariant
            i <= n == data.len(),
            start + n <= usize::MAX,
            write_each(old(memory)@, start as int, data@.take(i as int)) == Ok::<Seq<SegmentView>, CpuError>(
                memory@,
            ),
        decreases n - i,
    {
        let byte = data[i];
        let buf = [byte];
        proof {
            assert(data@.take((i + 1) as int).drop_last() =~= data@.take(i as int));
            assert(buf@ =~= seq![data@.take((i + 1) as int).last()]);
        }
        match memory.write_data(start + i, &buf) {
            Ok(()) => {},
            Err(e) => {
                proof {
                    lemma_write_each_err_extends(old(memory)@, start as int, data@, (i + 1) as int);
                }
                return Err(e);
            },
        }
        i = i + 1;
    }
    assert(data@.take(n as int) =~= data@);
    Ok(())
}

/// Insert a bit field into memory.
/// The base address points to the byte containing bit 0 of the field reference.
/// Offset can be negative or greater than 7.
pub fn insert_bitfield_into_memory(memory: &mut MemoryImage, base_addr: u32, offset: i32, width: u32, value: u32) -> (r:
    Result<(), CpuError>)
    requires
        bf_mem_in_range(base_addr, offset, width),
    ensures
        match mem_insert_spec(old(memory)@, base_addr, offset, width, value) {
            Ok(m) => r is Ok && final(memory)@ == m,
            Err(e) => r == Err::<(), CpuError>(e),
        },
{
    let ghost w0 = width;
    let width = if width == 0 {
        32
    } else if width < 32 {
        width
    } else {
        32
    };
    let (bit_addr, bit_in_byte) = bit_location(base_addr, offset);
    if bit_addr < 0 {
        return Err(CpuError::BitFieldUnderflow);
    }
    let start_addr = (bit_addr / 8) as usize;
    let total_bits = bit_in_byte + width;
    let bytes_needed = ((total_bits + 7) / 8) as usize;
    let field_data = read_field_bytes(memory, start_addr, bytes_needed)?;
    let ghost bytes = read_each(memory@, start_addr as int, bytes_needed as nat)->Ok_0;
    let shift = (bytes_needed as u32 * 8) - bit_in_byte - width;
    let mask = if width == 32 {
        0xFFFFFFFFu64
    } else {
        proof {
            assert(width < 32 ==> 1u64 << width >= 1) by (bit_vector);
        }
        (1u64 << width) - 1
    };
    let field_mask = mask << shift;
    let src_bits = ((value as u64) & mask) << shift;
    let data = (field_data & !field_mask) | src_bits;
    let mut out: Vec<u8> = Vec::new();
    let mut i: usize = 0;
    while i < bytes_needed
        invariant
            i <= bytes_needed <= 5,
            out@.len() == i,
            bytes.len() == bytes_needed,
            forall|j: int|
                0 <= j < i ==> out@[j] == inserted_bytes(bytes, base_addr, offset, w0, value)[j],
            data == ((be_value(bytes) as u64) & !(low_mask64(bf_width(w0)) << bf_shift(base_addr, offset, w0)))
                | (((value as u64) & low_mask64(bf_width(w0))) << bf_shift(base_addr, offset, w0)),
        decreases bytes_needed - i,
    {
        let byte_shift = (bytes_needed - 1 - i) * 8;
        out.push((data >> byte_shift) as u8);
        i = i + 1;
    }
    assert(out@ =~= inserted_bytes(bytes, base_addr, offset, w0, value));
    write_field_bytes(memory, start_addr, &out)
}

/// The field offset an instruction names: an immediate or a data register, read as
/// a signed number of bits.
pub open spec fn bf_offset(m: CpuModel, offset: BitFieldParam) -> i32 {
    match offset {
        BitFieldParam::Immediate(v) => v as i32,
        BitFieldParam::Register(reg) => m.d[dreg(reg)] as i32,
    }
}

/// The field width an instruction names; 0 stands for 32, and a register gives its
/// low five bits.
pub open spec fn bf_width_of(m: CpuModel, width: BitFieldParam) -> u32 {
    match width {
        BitFieldParam::Immediate(v) => if v == 0 {
            32
        } else {
            v as u32
        },
        BitFieldParam::Register(reg) => {
            let w = m.d[dreg(reg)] & 0x1f;
            if w == 0 {
                32
            } else {
                w
            }
        },
    }
}

/// The field at `off`/`w` of the operand: in a data register the offset wraps round
/// the register; in memory it counts from the operand's address.
pub open spec fn bf_field_spec(m: CpuModel, inst_addr: usize, mode: AddressingMode, off: i32, w: u32) -> Result<
    u32,
    CpuError,
> {
    match mode.ea {
        EffectiveAddress::Dr(reg) => Ok(extract_spec(m.d[dreg(reg)], (off as u32) % 32, w)),
        _ => match ea_spec(m, mode, inst_addr) {
            Err(e) => Err(e),
            Ok(addr) => mem_extract_spec(m.mem, addr as u32, off, w),
        },
    }
}

/// The state after the low bits of `value` are stored into the field at `off`/`w`.
pub open spec fn bf_store_spec(m: CpuModel, inst_addr: usize, mode: AddressingMode, off: i32, w: u32, value: u32) -> Result<
    CpuModel,
    CpuError,
> {
    match mode.ea {
        EffectiveAddress::Dr(reg) => Ok(
            m.with_d(dreg(reg), insert_spec(m.d[dreg(reg)], value, (off as u32) % 32, w)),
        ),
        _ => match ea_spec(m, mode, inst_addr) {
            Err(e) => Err(e),
            Ok(addr) => match mem_insert_spec(m.mem, addr as u32, off, w, value) {
                Ok(mem) => Ok(m.with_mem(mem)),
                Err(e) => Err(e),
            },
        },
    }
}

/// A memory field's bit arithmetic stays in range (see `bf_mem_in_range`).
pub open spec fn bf_access_ok(m: CpuModel, inst_addr: usize, mode: AddressingMode, offset: BitFieldParam, width: BitFieldParam) -> bool {
    match mode.ea {
        EffectiveAddress::Dr(_) => true,
        _ => match ea_spec(m, mode, inst_addr) {
            Ok(addr) => bf_mem_in_range(addr as u32, bf_offset(m, offset), bf_width_of(m, width)),
            Err(_) => true,
        },
    }
}

/// Where the field can be read, its width is at most 32.
pub open spec fn bf_read_width_ok(m: CpuModel, inst_addr: usize, mode: AddressingMode, offset: BitFieldParam, width: BitFieldParam) -> bool {
    match bf_field_spec(m, inst_addr, mode, bf_offset(m, offset), bf_width_of(m, width)) {
        Ok(_) => bf_width_of(m, width) <= 32,
        Err(_) => true,
    }
}

/// Condition codes of a bit-field instruction: N from the field's top bit, Z where
/// the field is zero, V and C cleared.
pub open spec fn bf_sr(sr: u16, field: u32, w: u32) -> u16 {
    with_flag(
        with_flag(with_flag(with_flag(sr, FLAG_N, field & (1u32 << ((w - 1) as u32)) != 0), FLAG_Z, field == 0), FLAG_V, false),
        FLAG_C,
        false,
    )
}

/// BFTST: condition codes from the field.
pub open spec fn bftst_spec(m: CpuModel, inst_addr: usize, mode: AddressingMode, offset: BitFieldParam, width: BitFieldParam) -> Result<
    CpuModel,
    CpuError,
> {
    let w = bf_width_of(m, width);
    match bf_field_spec(m, inst_addr, mode, bf_offset(m, offset), w) {
        Err(e) => Err(e),
        Ok(f) => Ok(m.with_sr(bf_sr(m.sr, f, w))),
    }
}

/// BFCHG, BFCLR, BFSET: condition codes from the field as it was, and the field
/// replaced by `new(field)`.
pub open spec fn bf_rewrite_spec(
    m: CpuModel,
    inst_addr: usize,
    mode: AddressingMode,
    offset: BitFieldParam,
    width: BitFieldParam,
    new: spec_fn(u32, u32) -> u32,
) -> Result<CpuModel, CpuError> {
    let off = bf_offset(m, offset);
    let w = bf_width_of(m, width);
    match bf_field_spec(m, inst_addr, mode, off, w) {
        Err(e) => Err(e),
        Ok(f) => match bf_store_spec(m, inst_addr, mode, off, w, new(f, w)) {
            Err(e) => Err(e),
            Ok(m1) => Ok(m1.with_sr(bf_sr(m1.sr, f, w))),
        },
    }
}

/// BFCHG stores the complement of the field.
pub open spec fn bf_complement(f: u32, w: u32) -> u32 {
    !f & low_mask(w)
}

/// BFCLR stores zeros.
pub open spec fn bf_zeros(f: u32, w: u32) -> u32 {
    0
}

/// BFSET stores ones.
pub open spec fn bf_ones(f: u32, w: u32) -> u32 {
    low_mask(w)
}

/// The field sign-extended from its top bit.
pub open spec fn bf_sign_extend(f: u32, w: u32) -> u32 {
    if w >= 32 {
        f
    } else if f & (1u32 << ((w - 1) as u32)) != 0 {
        f | !(((1u32 << w) - 1) as u32)
    } else {
        f
    }
}

/// BFEXTU / BFEXTS: the field, zero- or sign-extended, to Dn.
pub open spec fn bfext_spec(
    m: CpuModel,
    inst_addr: usize,
    src: AddressingMode,
    dst: DataReg,
    offset: BitFieldParam,
    width: BitFieldParam,
    signed: bool,
) -> Result<CpuModel, CpuError> {
    let w = bf_width_of(m, width);
    match bf_field_spec(m, inst_addr, src, bf_offset(m, offset), w) {
        Err(e) => Err(e),
        Ok(f) => {
            let v = if signed {
                bf_sign_extend(f, w)
            } else {
                f
            };
            Ok(m.with_d(dreg(dst), v).with_sr(bf_sr(m.sr, f, w)))
        },
    }
}

/// The index, counted from the field's top bit, of its first set bit at `i` or later;
/// `w` where there is none.
pub open spec fn first_one(f: u32, w: u32, i: u32) -> u32
    decreases w - i,
{
    if i >= w {
        w
    } else if f & (1u32 << ((w - 1 - i) as u32)) != 0 {
        i
    } else {
        first_one(f, w, (i + 1) as u32)
    }
}

/// The offset BFFFO reports: the field offset plus the position of the first set bit.
pub open spec fn bfffo_offset(mode: AddressingMode, off: i32, pos: u32) -> u32 {
    match mode.ea {
        EffectiveAddress::Dr(_) => crate::cpu::operand::wrap_add((off as u32) % 32, pos),
        _ => crate::cpu::operand::wrap_add(off as u32, pos),
    }
}

/// BFFFO: the offset of the field's first set bit to Dn.
pub open spec fn bfffo_spec(
    m: CpuModel,
    inst_addr: usize,
    src: AddressingMode,
    dst: DataReg,
    offset: BitFieldParam,
    width: BitFieldParam,
) -> Result<CpuModel, CpuError> {
    let off = bf_offset(m, offset);
    let w = bf_width_of(m, width);
    match bf_field_spec(m, inst_addr, src, off, w) {
        Err(e) => Err(e),
        Ok(f) => {
            let pos = first_one(f, w, 0);
            let r = bfffo_offset(src, off, pos);
            Ok(
                m.with_d(dreg(dst), r).with_sr(
                    with_flag(
                        with_flag(with_flag(with_flag(m.sr, FLAG_N, r & 0x8000_0000 != 0), FLAG_Z, pos == w), FLAG_V, false),
                        FLAG_C,
                        false,
                    ),
                ),
            )
        },
    }
}

/// Where BFINS can store, its width is at most 32.
pub open spec fn bfins_width_ok(m: CpuModel, inst_addr: usize, src: DataReg, dst: AddressingMode, offset: BitFieldParam, width: BitFieldParam) -> bool {
    let w = bf_width_of(m, width);
    match bf_store_spec(m, inst_addr, dst, bf_offset(m, offset), w, m.d[dreg(src)]) {
        Ok(_) => w <= 32,
        Err(_) => true,
    }
}

/// BFINS: the low bits of Dn into the field; condition codes from the inserted bits.
pub open spec fn bfins_spec(
    m: CpuModel,
    inst_addr: usize,
    src: DataReg,
    dst: AddressingMode,
    offset: BitFieldParam,
    width: BitFieldParam,
) -> Result<CpuModel, CpuError> {
    let w = bf_width_of(m, width);
    let v = m.d[dreg(src)];
    match bf_store_spec(m, inst_addr, dst, bf_offset(m, offset), w, v) {
        Err(e) => Err(e),
        Ok(m1) => Ok(m1.with_sr(bf_sr(m1.sr, v & low_mask(w), w))),
    }
}

impl Cpu {
    /// The offset and width a bit-field instruction names.
    fn bf_params(&self, offset: BitFieldParam, width: BitFieldParam) -> (r: (i32, u32))
        ensures
            r.0 == bf_offset(self@, offset),
            r.1 == bf_width_of(self@, width),
            r.1 >= 1,
    {
        let offset_val = match offset {
            BitFieldParam::Immediate(v) => v as i32,
            BitFieldParam::Register(reg) => self.data_regs[data_reg_index(reg)] as i32,
        };
        let width_val = match width {
            BitFieldParam::Immediate(0) => 32u32,
            BitFieldParam::Immediate(v) => v as u32,
            BitFieldParam::Register(reg) => {
                let w = self.data_regs[data_reg_index(reg)] & 0x1f;
                if w == 0 {
                    32
                } else {
                    w
                }
            },
        };
        (offset_val, width_val)
    }

    /// Read the field at `off`/`w` of the operand.
    fn read_bitfield(&self, inst_addr: usize, mode: &AddressingMode, off: i32, w: u32) -> (r: Result<u32, CpuError>)
        requires
            match mode.ea {
                EffectiveAddress::Dr(_) => true,
                _ => match ea_spec(self@, *mode, inst_addr) {
                    Ok(addr) => bf_mem_in_range(addr as u32, off, w),
                    Err(_) => true,
                },
            },
        ensures
            r == bf_field_spec(self@, inst_addr, *mode, off, w),
    {
        match mode.ea {
            EffectiveAddress::Dr(reg) => {
                let offset_mod = (off as u32) % 32;
                let reg_val = self.data_regs[data_reg_index(reg)];
                Ok(extract_bitfield_from_u32(reg_val, offset_mod, w))
            },
            _ => {
                let base_addr = self.compute_effective_address(mode, inst_addr)? as u32;
                extract_bitfield_from_memory(&self.memory, base_addr, off, w)
            },
        }
    }

    /// Store the low bits of `value` into the field at `off`/`w` of the operand.
    fn write_bitfield(&mut self, inst_addr: usize, mode: &AddressingMode, off: i32, w: u32, value: u32) -> (r: Result<
        (),
        CpuError,
    >)
        requires
            match mode.ea {
                EffectiveAddress::Dr(_) => true,
                _ => match ea_spec(old(self)@, *mode, inst_addr) {
                    Ok(addr) => bf_mem_in_range(addr as u32, off, w),
                    Err(_) => true,
                },
            },
        ensures
            match bf_store_spec(old(self)@, inst_addr, *mode, off, w, value) {
                Ok(m) => r is Ok && final(self)@ == m,
                Err(e) => r == Err::<(), CpuError>(e),
            },
    {
        match mode.ea {
            EffectiveAddress::Dr(reg) => {
                let offset_mod = (off as u32) % 32;
                let idx = data_reg_index(reg);
                let dest_value = self.data_regs[idx];
                let result = insert_bitfield_into_u32(dest_value, value, offset_mod, w);
                self.data_regs[idx] = result;
                Ok(())
            },
            _ => {
                let base_addr = self.compute_effective_address(mode, inst_addr)? as u32;
                let r = insert_bitfield_into_memory(&mut self.memory, base_addr, off, w, value);
                proof {
                    match mem_insert_spec(old(self)@.mem, base_addr, off, w, value) {
                        Ok(mem) => {
                            assert(self@ =~= old(self)@.with_mem(mem));
                        },
                        Err(_) => {},
                    }
                }
                r
            },
        }
    }

    /// Set the condition codes of a bit-field instruction.
    fn set_bf_flags(&mut self, field: u32, w: u32)
        requires
            1 <= w <= 32,
        ensures
            final(self)@ == old(self)@.with_sr(bf_sr(old(self).sr, field, w)),
    {
        let msb_mask = 1u32 << (w - 1);
        self.set_flag(FLAG_N, (field & msb_mask) != 0);
        self.set_flag(FLAG_Z, field == 0);
        self.set_flag(FLAG_V, false);
        self.set_flag(FLAG_C, false);
    }

    /// The mask of the low `w` bits.
    fn field_mask(w: u32) -> (r: u32)
        requires
            1 <= w <= 32,
        ensures
            r == low_mask(w),
    {
        if w == 32 {
            0xFFFF_FFFF
        } else {
            proof {
                crate::alu::lemma_shl_one(w);
            }
            (1u32 << w) - 1
        }
    }

    /// BFTST - Test Bit Field (68020+)
    pub fn exec_bftst(&mut self, inst: &Instruction, mode: &AddressingMode, offset: BitFieldParam, width: BitFieldParam) -> (r:
        Result<(), CpuError>)
        requires
            bf_access_ok(old(self)@, inst.address, *mode, offset, width),
            bf_read_width_ok(old(self)@, inst.address, *mode, offset, width),
        ensures
            crate::cpu::outcome(r, final(self)@, bftst_spec(old(self)@, inst.address, *mode, offset, width)),
            r is Err ==> crate::cpu::only_addr_regs_moved(old(self)@, final(self)@),
    {
        let (offset_val, width_val) = self.bf_params(offset, width);
        let field_value = self.read_bitfield(inst.address, mode, offset_val, width_val)?;
        self.set_bf_flags(field_value, width_val);
        Ok(())
    }

    /// BFCHG - Change Bit Field (invert) (68020+)
    pub fn exec_bfchg(&mut self, inst: &Instruction, mode: &AddressingMode, offset: BitFieldParam, width: BitFieldParam) -> (r:
        Result<(), CpuError>)
        requires
            bf_access_ok(old(self)@, inst.address, *mode, offset, width),
            bf_read_width_ok(old(self)@, inst.address, *mode, offset, width),
        ensures
            crate::cpu::outcome(r, final(self)@, bf_rewrite_spec(old(self)@, inst.address, *mode, offset, width, |f: u32, w: u32| bf_complement(f, w))),
    {
        let (offset_val, width_val) = self.bf_params(offset, width);
        let field_value = self.read_bitfield(inst.address, mode, offset_val, width_val)?;
        let mask = Self::field_mask(width_val);
        let new_value = (!field_value) & mask;
        self.write_bitfield(inst.address, mode, offset_val, width_val, new_value)?;
        self.set_bf_flags(field_value, width_val);
        Ok(())
    }

    /// BFCLR - Clear Bit Field (68020+)
    pub fn exec_bfclr(&mut self, inst: &Instruction, mode: &AddressingMode, offset: BitFieldParam, width: BitFieldParam) -> (r:
        Result<(), CpuError>)
        requires
            bf_access_ok(old(self)@, inst.address, *mode, offset, width),
            bf_read_width_ok(old(self)@, inst.address, *mode, offset, width),
        ensures
            crate::cpu::outcome(r, final(self)@, bf_rewrite_spec(old(self)@, inst.address, *mode, offset, width, |f: u32, w: u32| bf_zeros(f, w))),
    {
        let (offset_val, width_val) = self.bf_params(offset, width);
        let field_value = self.read_bitfield(inst.address, mode, offset_val, width_val)?;
        self.write_bitfield(inst.address, mode, offset_val, width_val, 0)?;
        self.set_bf_flags(field_value, width_val);
        Ok(())
    }

    /// BFSET - Set Bit Field (68020+)
    pub fn exec_bfset(&mut self, inst: &Instruction, mode: &AddressingMode, offset: BitFieldParam, width: BitFieldParam) -> (r:
        Result<(), CpuError>)
        requires
            bf_access_ok(old(self)@, inst.address, *mode, offset, width),
            bf_read_width_ok(old(self)@, inst.address, *mode, offset, width),
        ensures
            crate::cpu::outcome(r, final(self)@, bf_rewrite_spec(old(self)@, inst.address, *mode, offset, width, |f: u32, w: u32| bf_ones(f, w))),
    {
        let (offset_val, width_val) = self.bf_params(offset, width);
        let field_value = self.read_bitfield(inst.address, mode, offset_val, width_val)?;
        let new_value = Self::field_mask(width_val);
        self.write_bitfield(inst.address, mode, offset_val, width_val, new_value)?;
        self.set_bf_flags(field_value, width_val);
        Ok(())
    }

    /// BFEXTU - Extract Bit Field Unsigned (68020+)
    pub fn exec_bfextu(
        &mut self,
        inst: &Instruction,
        src: &AddressingMode,
        dst: DataReg,
        offset: BitFieldParam,
        width: BitFieldParam,
    ) -> (r: Result<(), CpuError>)
        requires
            bf_access_ok(old(self)@, inst.address, *src, offset, width),
            bf_read_width_ok(old(self)@, inst.address, *src, offset, width),
        ensures
            crate::cpu::outcome(r, final(self)@, bfext_spec(old(self)@, inst.address, *src, dst, offset, width, false)),
            r is Err ==> crate::cpu::only_addr_regs_moved(old(self)@, final(self)@),
    {
        let (offset_val, width_val) = self.bf_params(offset, width);
        let field_value = self.read_bitfield(inst.address, src, offset_val, width_val)?;
        self.data_regs[data_reg_index(dst)] = field_value;
        self.set_bf_flags(field_value, width_val);
        Ok(())
    }

    /// BFEXTS - Extract Bit Field Signed (68020+)
    pub fn exec_bfexts(
        &mut self,
        inst: &Instruction,
        src: &AddressingMode,
        dst: DataReg,
        offset: BitFieldParam,
        width: BitFieldParam,
    ) -> (r: Result<(), CpuError>)
        requires
            bf_access_ok(old(self)@, inst.address, *src, offset, width),
            bf_read_width_ok(old(self)@, inst.address, *src, offset, width),
        ensures
            crate::cpu::outcome(r, final(self)@, bfext_spec(old(self)@, inst.address, *src, dst, offset, width, true)),
            r is Err ==> crate::cpu::only_addr_regs_moved(old(self)@, final(self)@),
    {
        let (offset_val, width_val) = self.bf_params(offset, width);
        let field_value = self.read_bitfield(inst.address, src, offset_val, width_val)?;
        // A full 32-bit field is its own sign extension.
        let sign_extended_value = if width_val >= 32 {
            field_value
        } else if (field_value & (1u32 << (width_val - 1))) != 0 {
            proof {
                assert(field_value & (1u32 << 31u32) == field_value & 0x8000_0000) by (bit_vector);
                crate::alu::lemma_shl_one(width_val);
            }
            let extension_mask = !((1u32 << width_val) - 1);
            field_value | extension_mask
        } else {
            field_value
        };
        self.data_regs[data_reg_index(dst)] = sign_extended_value;
        self.set_bf_flags(field_value, width_val);
        Ok(())
    }

    /// BFFFO - Find First One in Bit Field (68020+)
    pub fn exec_bfffo(
        &mut self,
        inst: &Instruction,
        src: &AddressingMode,
        dst: DataReg,
        offset: BitFieldParam,
        width: BitFieldParam,
    ) -> (r: Result<(), CpuError>)
        requires
            bf_access_ok(old(self)@, inst.address, *src, offset, width),
            bf_read_width_ok(old(self)@, inst.address, *src, offset, width),
        ensures
            crate::cpu::outcome(r, final(self)@, bfffo_spec(old(self)@, inst.address, *src, dst, offset, width)),
            r is Err ==> crate::cpu::only_addr_regs_moved(old(self)@, final(self)@),
    {
        let (offset_val, width_val) = self.bf_params(offset, width);
        let field_value = self.read_bitfield(inst.address, src, offset_val, width_val)?;
        let mut position = width_val;
        let mut i: u32 = 0;
        while i < width_val
            invariant_except_break
                position == width_val,
            invariant
                1 <= width_val <= 32,
                i <= width_val,
                first_one(field_value, width_val, 0) == first_one(field_value, width_val, i),
            ensures
                position == first_one(field_value, width_val, 0),
            decreases width_val - i,
        {
            let bit = field_value & (1u32 << (width_val - 1 - i));
            if bit != 0 {
                position = i;
                break;
            }
            i = i + 1;
        }
        let result_offset = if matches!(src.ea, EffectiveAddress::Dr(_)) {
            ((offset_val as u32) % 32).wrapping_add(position)
        } else {
            (offset_val as u32).wrapping_add(position)
        };
        proof {
            crate::alu::lemma_masks(result_offset);
        }
        self.data_regs[data_reg_index(dst)] = result_offset;
        self.set_flag(FLAG_N, (result_offset & 0x8000_0000) != 0);
        self.set_flag(FLAG_Z, position == width_val);
        self.set_flag(FLAG_V, false);
        self.set_flag(FLAG_C, false);
        Ok(())
    }

    /// BFINS - Insert Bit Field (68020+)
    pub fn exec_bfins(
        &mut self,
        inst: &Instruction,
        src: DataReg,
        dst: &AddressingMode,
        offset: BitFieldParam,
        width: BitFieldParam,
    ) -> (r: Result<(), CpuError>)
        requires
            bf_access_ok(old(self)@, inst.address, *dst, offset, width),
            bfins_width_ok(old(self)@, inst.address, src, *dst, offset, width),
        ensures
            crate::cpu::outcome(r, final(self)@, bfins_spec(old(self)@, inst.address, src, *dst, offset, width)),
    {
        let (offset_val, width_val) = self.bf_params(offset, width);
        let src_value = self.data_regs[data_reg_index(src)];
        self.write_bitfield(inst.address, dst, offset_val, width_val, src_value)?;
        let field_mask = Self::field_mask(width_val);
        let inserted_value = src_value & field_mask;
        self.set_bf_flags(inserted_value, width_val);
        Ok(())
    }
}

} // verus!
