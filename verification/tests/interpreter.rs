use behistun::alu::{
    add_bcd, arithmetic_shift, extract_bitfield_from_u32, insert_bitfield_into_u32, logical_shift, rotate,
    rotate_extended, sign_extend_word, sub_bcd,
};
use behistun::cpu::bitfield::{extract_bitfield_from_memory, insert_bitfield_into_memory};
use behistun::cpu::control::Event;
use behistun::cpu::guest_structs::Statx;
use behistun::cpu::ipc::IpcCall;
use behistun::cpu::syscall::{syscall_class, SyscallAction, SyscallClass};
use behistun::cpu::{align_up, Cpu, ElfInfo, FLAG_C, FLAG_N, FLAG_V, FLAG_X, FLAG_Z};
use behistun::decoder::{
    AddrReg, AddressingMode, BitFieldParam, Condition, DataDir, DataReg, EaToDn, EffectiveAddress, ExtensionData,
    Immediate, Instruction, InstructionKind, Movem, Register, RightOrLeft, Shift, ShiftCount, ShiftReg, Size,
};
use behistun::elf::{elf_image, load_elf, ElfHeaders, ProgramHeader, STACK_SIZE, STACK_TOP};
use behistun::host_syscalls::host_syscall_number;
use behistun::error::CpuError;
use behistun::memory::{MemoryImage, MemorySegment};

const STACK_BASE: usize = 0x80000;
const STACK_LEN: usize = 0x10000;

fn image() -> MemoryImage {
    let mut mem = MemoryImage::new();
    mem.add_segment(MemorySegment { vaddr: 0x1000, data: vec![0u8; 0x2000], flags: 6, align: 0x1000 });
    mem.add_segment(MemorySegment { vaddr: STACK_BASE, data: vec![0u8; STACK_LEN], flags: 6, align: 0x1000 });
    mem
}

fn elf() -> ElfInfo {
    ElfInfo { entry_point: 0x1000, phdr_addr: 0x1034, phent_size: 32, phnum: 2, tls_vaddr: None, tls_memsz: 0 }
}

fn cpu() -> Cpu {
    let args = vec!["prog".to_string(), "x".to_string()];
    Cpu::new(image(), &elf(), &args).unwrap()
}

fn dreg(r: DataReg) -> AddressingMode {
    AddressingMode { ea: EffectiveAddress::Dr(r), data: None }
}

fn imm(i: Immediate) -> AddressingMode {
    AddressingMode { ea: EffectiveAddress::Immediate, data: Some(ExtensionData::Imm(i)) }
}

fn at(address: usize, kind: InstructionKind, length: usize) -> Instruction {
    Instruction { address, kind, length }
}

#[test]
fn new_picks_stack_and_heap() {
    let c = cpu();
    assert_eq!(c.stack_base, STACK_BASE);
    assert_eq!(c.heap_segment_base, 0x1000);
    assert_eq!(c.brk, 0x3000);
    assert_eq!(c.brk_base, 0x3000);
    assert_eq!(c.pc, 0x1000);
    assert_eq!(c.exe_path, "prog");
    assert_eq!(c.tls_base, 0);
}

#[test]
fn new_lays_out_initial_stack() {
    let c = cpu();
    let sp = c.addr_regs[7] as usize;
    assert_eq!(sp, 0x8FF24);
    let m = &c.memory;
    assert_eq!(m.read_long(sp).unwrap(), 2);
    assert_eq!(m.read_long(sp + 4).unwrap(), 0x8FFB9);
    assert_eq!(m.read_long(sp + 8).unwrap(), 0x8FFBE);
    assert_eq!(m.read_long(sp + 12).unwrap(), 0);
    assert_eq!(m.read_long(sp + 16).unwrap(), 0);
    assert_eq!(m.read_long(sp + 20).unwrap(), 3);
    assert_eq!(m.read_long(sp + 24).unwrap(), 0x1034);
    assert_eq!(m.read_data(0x8FFB9, 5).unwrap(), b"prog\0".to_vec());
    assert_eq!(m.read_data(0x8FFBE, 2).unwrap(), b"x\0".to_vec());
    assert_eq!(m.read_long(0x8FFA8).unwrap(), 0x12345678);
}

#[test]
fn new_without_segments_fails() {
    let args: Vec<String> = Vec::new();
    assert!(matches!(Cpu::new(MemoryImage::new(), &elf(), &args), Err(CpuError::NoSegments)));
}

#[test]
fn new_without_writable_heap_fails() {
    let mut mem = MemoryImage::new();
    mem.add_segment(MemorySegment { vaddr: 0x1000, data: vec![0u8; 0x100], flags: 5, align: 0x1000 });
    mem.add_segment(MemorySegment { vaddr: STACK_BASE, data: vec![0u8; STACK_LEN], flags: 6, align: 0x1000 });
    let args: Vec<String> = Vec::new();
    assert!(matches!(Cpu::new(mem, &elf(), &args), Err(CpuError::NoWritableSegment)));
}

#[test]
fn new_with_tls_moves_break_past_thread_pointer() {
    let mut e = elf();
    e.tls_vaddr = Some(0x2000);
    e.tls_memsz = 0x10;
    let args = vec!["p".to_string()];
    let c = Cpu::new(image(), &e, &args).unwrap();
    assert_eq!(c.tls_base, 0x9000);
    assert_eq!(c.brk_base, 0x9000);
    assert_eq!(c.memory.segments()[0].len(), 0x9000);
}

#[test]
fn moveq_and_add_run() {
    let mut c = cpu();
    let r = c.execute(&at(0x1000, InstructionKind::Moveq { data: -3, dst: DataReg::D0 }, 2)).unwrap();
    assert_eq!(r, Event::Continue);
    assert_eq!(c.data_regs[0], 0xFFFF_FFFD);
    assert_eq!(c.pc, 0x1002);
    assert!(c.get_flag(FLAG_N));
    c.data_regs[1] = 5;
    let add = behistun::decoder::Add::EaToDn(EaToDn { size: Size::Long, src: dreg(DataReg::D0), dst: DataReg::D1 });
    c.execute(&at(0x1002, InstructionKind::Add(add), 2)).unwrap();
    assert_eq!(c.data_regs[1], 2);
    assert!(c.get_flag(FLAG_C));
    assert!(c.get_flag(FLAG_X));
    assert!(!c.get_flag(FLAG_Z));
}

#[test]
fn divs_rounds_toward_zero() {
    let mut c = cpu();
    c.data_regs[0] = (-7i32) as u32;
    let kind = InstructionKind::Divs { src: imm(Immediate::Word(2)), dst: DataReg::D0 };
    c.execute(&at(0x1000, kind, 4)).unwrap();
    assert_eq!(c.data_regs[0], 0xFFFF_FFFD);
    assert!(c.get_flag(FLAG_N));
    assert!(!c.get_flag(FLAG_V));
}

#[test]
fn divu_by_zero_is_an_error() {
    let mut c = cpu();
    let kind = InstructionKind::Divu { src: imm(Immediate::Word(0)), dst: DataReg::D0 };
    assert_eq!(c.execute(&at(0x1000, kind, 4)), Err(CpuError::DivisionByZero));
}

#[test]
fn branch_taken_and_not_taken() {
    let mut c = cpu();
    c.sr = FLAG_Z;
    c.execute(&at(0x1000, InstructionKind::Bcc { condition: Condition::Equal, displacement: 0x10 }, 2)).unwrap();
    assert_eq!(c.pc, 0x1012);
    c.execute(&at(0x1012, InstructionKind::Bcc { condition: Condition::NotEqual, displacement: 0x10 }, 2)).unwrap();
    assert_eq!(c.pc, 0x1014);
}

#[test]
fn dbcc_counts_down() {
    let mut c = cpu();
    c.data_regs[2] = 0x1234_0001;
    let kind = InstructionKind::DBcc { condition: Condition::False, data_reg: DataReg::D2, displacement: -4 };
    c.execute(&at(0x1010, kind, 4)).unwrap();
    assert_eq!(c.data_regs[2], 0x1234_0000);
    assert_eq!(c.pc, 0x100E);
    c.execute(&at(0x100E, kind, 4)).unwrap();
    assert_eq!(c.data_regs[2], 0x1234_FFFF);
    assert_eq!(c.pc, 0x1012);
}

#[test]
fn jsr_then_rts_returns() {
    let mut c = cpu();
    let sp = c.addr_regs[7];
    let target = AddressingMode { ea: EffectiveAddress::AbsLong, data: Some(ExtensionData::Long(0x1800)) };
    c.execute(&at(0x1000, InstructionKind::Jsr { mode: target }, 6)).unwrap();
    assert_eq!(c.pc, 0x1800);
    assert_eq!(c.addr_regs[7], sp - 4);
    c.execute(&at(0x1800, InstructionKind::Rts, 2)).unwrap();
    assert_eq!(c.pc, 0x1006);
    assert_eq!(c.addr_regs[7], sp);
}

#[test]
fn link_and_unlk_restore_frame() {
    let mut c = cpu();
    let sp = c.addr_regs[7];
    c.addr_regs[6] = 0xAABB_CCDD;
    c.execute(&at(0x1000, InstructionKind::Link { addr_reg: AddrReg::A6, displacement: -8 }, 4)).unwrap();
    assert_eq!(c.addr_regs[6], sp - 4);
    assert_eq!(c.addr_regs[7], sp - 12);
    c.execute(&at(0x1004, InstructionKind::Unlk { addr_reg: AddrReg::A6 }, 2)).unwrap();
    assert_eq!(c.addr_regs[6], 0xAABB_CCDD);
    assert_eq!(c.addr_regs[7], sp);
}

#[test]
fn trap_zero_asks_for_syscall() {
    let mut c = cpu();
    assert_eq!(c.execute(&at(0x1000, InstructionKind::Trap { vector: 0 }, 2)), Ok(Event::Syscall));
    assert_eq!(c.pc, 0x1002);
    assert_eq!(
        c.execute(&at(0x1002, InstructionKind::Trap { vector: 3 }, 2)),
        Err(CpuError::TrapNotImplemented { vector: 3 })
    );
}

#[test]
fn unknown_opcode_is_an_error() {
    let mut c = cpu();
    assert_eq!(
        c.execute(&at(0x1000, InstructionKind::Other { opcode: 0xF200 }, 2)),
        Err(CpuError::Unimplemented { opcode: 0xF200 })
    );
}

#[test]
fn bitfield_extract_and_insert_in_register() {
    let mut c = cpu();
    c.data_regs[3] = 0xF0F0_0000;
    let kind = InstructionKind::Bfextu {
        src: dreg(DataReg::D3),
        dst: DataReg::D4,
        offset: BitFieldParam::Immediate(4),
        width: BitFieldParam::Immediate(8),
    };
    c.execute(&at(0x1000, kind, 4)).unwrap();
    assert_eq!(c.data_regs[4], 0x0F);
    c.data_regs[5] = 0xAB;
    let ins = InstructionKind::Bfins {
        src: DataReg::D5,
        dst: dreg(DataReg::D3),
        offset: BitFieldParam::Immediate(0),
        width: BitFieldParam::Immediate(8),
    };
    c.execute(&at(0x1004, ins, 4)).unwrap();
    assert_eq!(c.data_regs[3], 0xABF0_0000);
    assert!(c.get_flag(FLAG_N));
}

#[test]
fn bitfield_in_memory_spans_bytes() {
    let mut mem = image();
    mem.write_data(0x1100, &[0x0F, 0xF0]).unwrap();
    assert_eq!(extract_bitfield_from_memory(&mem, 0x1100, 4, 8).unwrap(), 0xFF);
    insert_bitfield_into_memory(&mut mem, 0x1100, 4, 8, 0x5A).unwrap();
    assert_eq!(mem.read_data(0x1100, 2).unwrap(), vec![0x05, 0xA0]);
    assert_eq!(extract_bitfield_from_memory(&mem, 0x1100, 4, 8).unwrap(), 0x5A);
    assert_eq!(extract_bitfield_from_memory(&mem, 0x1, -16, 8), Err(CpuError::BitFieldUnderflow));
}

#[test]
fn syscall_classes() {
    assert_eq!(syscall_class(1), SyscallClass::Exit);
    assert_eq!(syscall_class(4), SyscallClass::Host);
    assert_eq!(syscall_class(17), SyscallClass::Constant(-1));
    assert_eq!(syscall_class(123), SyscallClass::Constant(0));
    assert_eq!(syscall_class(20), SyscallClass::Passthrough(0));
    assert_eq!(syscall_class(301), SyscallClass::Passthrough(6));
    assert_eq!(syscall_class(45), SyscallClass::Internal);
    assert_eq!(syscall_class(21), SyscallClass::NotImplemented);
    assert_eq!(syscall_class(0), SyscallClass::Unsupported);
    assert_eq!(syscall_class(500), SyscallClass::Unsupported);
}

#[test]
fn syscall_brk_grows_heap() {
    let mut c = cpu();
    c.data_regs[0] = 45;
    c.data_regs[1] = 0;
    assert_eq!(c.handle_syscall(), Ok(SyscallAction::Done));
    assert_eq!(c.data_regs[0], 0x3000);
    c.data_regs[0] = 45;
    c.data_regs[1] = 0x5123;
    assert_eq!(c.handle_syscall(), Ok(SyscallAction::Done));
    assert_eq!(c.data_regs[0], 0x5123);
    assert_eq!(c.brk, 0x5123);
    assert_eq!(c.memory.segments()[0].len(), 0x5000);
    c.data_regs[0] = 45;
    c.data_regs[1] = 0x7F001;
    assert_eq!(c.handle_syscall(), Ok(SyscallAction::Done));
    assert_eq!(c.data_regs[0], 0x5123);
}

#[test]
fn syscall_mmap2_anonymous_mapping() {
    let mut c = cpu();
    c.data_regs[0] = 192;
    c.data_regs[1] = 0;
    c.data_regs[2] = 0x100;
    c.data_regs[3] = 3;
    c.data_regs[4] = 0x22;
    assert_eq!(c.handle_syscall(), Ok(SyscallAction::Done));
    assert_eq!(c.data_regs[0], 0x4000_0000);
    let seg = &c.memory.segments()[2];
    assert_eq!(seg.vaddr, 0x4000_0000);
    assert_eq!(seg.len(), 4096);
    assert_eq!(seg.flags, 6);
    c.data_regs[0] = 192;
    c.data_regs[4] = 0x02;
    assert_eq!(c.handle_syscall(), Err(CpuError::FileBackedMapping));
}

#[test]
fn syscall_exit_passthrough_and_errors() {
    let mut c = cpu();
    c.data_regs[0] = 1;
    c.data_regs[1] = 3;
    assert_eq!(c.handle_syscall(), Ok(SyscallAction::Exit(3)));
    c.data_regs[0] = 20;
    assert_eq!(c.handle_syscall(), Ok(SyscallAction::Passthrough(0)));
    c.data_regs[0] = 4;
    assert_eq!(c.handle_syscall(), Ok(SyscallAction::Host));
    c.finish_syscall(-9);
    assert_eq!(c.data_regs[0], 0xFFFF_FFF7);
    c.data_regs[0] = 21;
    assert_eq!(c.handle_syscall(), Err(CpuError::SyscallNotImplemented { number: 21 }));
    c.data_regs[0] = 999;
    assert_eq!(c.handle_syscall(), Err(CpuError::UnsupportedSyscall { number: 999 }));
    c.data_regs[0] = 17;
    assert_eq!(c.handle_syscall(), Ok(SyscallAction::Done));
    assert_eq!(c.data_regs[0], 0xFFFF_FFFF);
}

#[test]
fn syscall_read_tp_and_set_thread_area() {
    let mut c = cpu();
    c.data_regs[0] = 333;
    assert_eq!(c.handle_syscall(), Ok(SyscallAction::Done));
    assert_eq!(c.data_regs[0], 0x4000_7000);
    assert_eq!(c.tls_base, 0x4000_7000);
    c.data_regs[0] = 334;
    c.data_regs[1] = 0x7800;
    assert_eq!(c.handle_syscall(), Ok(SyscallAction::Done));
    assert_eq!(c.data_regs[0], 0);
    assert_eq!(c.tls_base, 0x7800);
    assert_eq!(c.memory.segments()[0].len(), 0x7800);
    assert!(c.tls_initialized);
}

#[test]
fn syscall_atomic_cmpxchg() {
    let mut c = cpu();
    c.memory.write_data(0x1200, &[0, 0, 0, 7]).unwrap();
    c.data_regs[0] = 335;
    c.data_regs[1] = 0x1200;
    c.data_regs[2] = 7;
    c.data_regs[3] = 9;
    assert_eq!(c.handle_syscall(), Ok(SyscallAction::Done));
    assert_eq!(c.data_regs[0], 7);
    assert_eq!(c.memory.read_long(0x1200).unwrap(), 9);
    c.data_regs[0] = 335;
    c.data_regs[2] = 7;
    c.data_regs[3] = 11;
    c.handle_syscall().unwrap();
    assert_eq!(c.data_regs[0], 9);
    assert_eq!(c.memory.read_long(0x1200).unwrap(), 9);
}

#[test]
fn syscall_mprotect_checks_range() {
    let mut c = cpu();
    c.data_regs[0] = 125;
    c.data_regs[1] = 0x1000;
    c.data_regs[2] = 0x2000;
    assert_eq!(c.handle_syscall(), Ok(SyscallAction::Done));
    assert_eq!(c.data_regs[0], 0);
    c.data_regs[0] = 125;
    c.data_regs[1] = 0x1000;
    c.data_regs[2] = 0x3000;
    assert_eq!(c.handle_syscall(), Err(CpuError::MemoryFault { addr: 0x3FFF, len: 1 }));
}

#[test]
fn c_strings_and_string_arrays() {
    let mut c = cpu();
    c.memory.write_data(0x1100, b"hi\0").unwrap();
    c.memory.write_data(0x1104, b"yo\0").unwrap();
    c.memory.write_data(0x1200, &[0, 0, 0x11, 0x00, 0, 0, 0x11, 0x04, 0, 0, 0, 0]).unwrap();
    assert_eq!(c.read_c_string(0x1100).unwrap(), b"hi".to_vec());
    assert_eq!(c.read_string_array(0x1200).unwrap(), vec!["hi".to_string(), "yo".to_string()]);
    c.memory.write_data(0x1108, &[0xFF, 0]).unwrap();
    c.memory.write_data(0x1210, &[0, 0, 0x11, 0x08, 0, 0, 0, 0]).unwrap();
    assert_eq!(c.read_string_array(0x1210), Err(CpuError::InvalidUtf8));
}

#[test]
fn u64_and_xattr_blocks() {
    let mut c = cpu();
    c.write_u64_be(0x1300, 0x0102_0304_0506_0708).unwrap();
    assert_eq!(c.memory.read_long(0x1300).unwrap(), 0x0102_0304);
    assert_eq!(c.read_u64_be(0x1300).unwrap(), 0x0102_0304_0506_0708);
    c.memory.write_data(0x1310, &[0, 0, 0x20, 0, 0, 0, 0, 8, 0, 0, 0, 1]).unwrap();
    assert_eq!(c.read_xattr_args(0x1310).unwrap(), (0x2000, 8, 1));
}

#[test]
fn fd_set_bits() {
    let mut c = cpu();
    c.memory.write_data(0x1400, &[0, 0, 0, 0x04, 0x80, 0, 0, 0]).unwrap();
    assert!(c.guest_fd_isset(2, 0x1400).unwrap());
    assert!(!c.guest_fd_isset(3, 0x1400).unwrap());
    assert!(c.guest_fd_isset(63, 0x1400).unwrap());
}

#[test]
fn open_flags_are_translated() {
    assert_eq!(Cpu::translate_open_flags(0o040000 | 0o2), 0o200000 | 0o2);
    assert_eq!(Cpu::translate_open_flags(0o400000 | 0o100), 0o100000 | 0o100);
    assert_eq!(Cpu::translate_open_flags(0o2000000), 0o2000000);
}

#[test]
fn host_results_follow_kernel_convention() {
    assert_eq!(Cpu::libc_to_kernel(5), 5);
    assert_eq!(behistun::cpu::guest_data::kernel_result_of(-1, Some(2)), -2);
    assert_eq!(behistun::cpu::guest_data::kernel_result_of(-1, None), -1);
}

#[test]
fn align_up_rounds_to_pages() {
    assert_eq!(align_up(0x3001, 0x1000), 0x4000);
    assert_eq!(align_up(0x3000, 0x1000), 0x3000);
    assert_eq!(align_up(5, 4), 8);
}

#[test]
fn bcd_arithmetic() {
    assert_eq!(add_bcd(0x45, 0x37, 0), (0x82, false));
    assert_eq!(add_bcd(0x99, 0x01, 0), (0x00, true));
    assert_eq!(sub_bcd(0x45, 0x37, 0), (0x08, false));
    assert_eq!(sub_bcd(0x00, 0x01, 0), (0x99, true));
}

#[test]
fn shifts_and_rotates() {
    assert_eq!(arithmetic_shift(0x80, 1, RightOrLeft::Right, Size::Byte), (0xC0, false));
    assert_eq!(logical_shift(0x81, 1, RightOrLeft::Right, Size::Byte), (0x40, true));
    assert_eq!(logical_shift(0x81, 1, RightOrLeft::Left, Size::Byte), (0x02, true));
    assert_eq!(rotate(0x81, 1, RightOrLeft::Left, Size::Byte), (0x03, true));
    assert_eq!(rotate_extended(0x01, 1, RightOrLeft::Right, Size::Byte, true), (0x80, true));
    assert_eq!(sign_extend_word(0x8000), 0xFFFF_8000);
}

#[test]
fn bitfield_values_roundtrip() {
    let v = insert_bitfield_into_u32(0x1234_5678, 0xF, 28, 8);
    assert_eq!(extract_bitfield_from_u32(v, 28, 8), 0xF);
    assert_eq!(extract_bitfield_from_u32(0x8000_0001, 31, 2), 0x3);
}

#[test]
fn memory_read_after_write_and_faults() {
    let mut mem = image();
    mem.write_data(0x2FFE, &[1, 2]).unwrap();
    assert_eq!(mem.read_word(0x2FFE).unwrap(), 0x0102);
    assert_eq!(mem.read_long(0x2FFE), Err(CpuError::MemoryFault { addr: 0x2FFE, len: 4 }));
    assert_eq!(mem.write_data(0x5000, &[1]), Err(CpuError::MemoryFault { addr: 0x5000, len: 1 }));
    assert_eq!(mem.find_free_range(0x1000), Some(0x4000_0000));
}

#[test]
fn push_then_pop_roundtrip() {
    let mut c = cpu();
    let sp = c.addr_regs[7];
    c.push_long(0xDEAD_BEEF).unwrap();
    assert_eq!(c.pop_long().unwrap(), 0xDEAD_BEEF);
    assert_eq!(c.addr_regs[7], sp);
}

#[test]
fn cmp_sets_flags_like_sub_without_x() {
    let mut c = cpu();
    c.sr = 0;
    behistun::cpu::flags::cmp_with_flags(1, 2, Size::Long, &mut c);
    let cmp_sr = c.sr;
    c.sr = 0;
    behistun::cpu::flags::sub_with_flags(1, 2, Size::Long, &mut c);
    assert_eq!(c.sr & !FLAG_X, cmp_sr);
    assert!(c.sr & FLAG_X != 0);
}

#[test]
fn swap_twice_restores_register() {
    let mut c = cpu();
    c.data_regs[1] = 0x1234_5678;
    c.execute(&at(0x1000, InstructionKind::Swap { data_reg: DataReg::D1 }, 2)).unwrap();
    assert_eq!(c.data_regs[1], 0x5678_1234);
    c.execute(&at(0x1002, InstructionKind::Swap { data_reg: DataReg::D1 }, 2)).unwrap();
    assert_eq!(c.data_regs[1], 0x1234_5678);
    assert!(!c.get_flag(FLAG_V));
}

#[test]
fn ipc_requests_are_decoded() {
    let mut c = cpu();
    c.data_regs = [117, 11, 5, 6, 7, 8, 9, 0];
    let (call, regs) = c.ipc_registers().unwrap();
    assert_eq!(call, IpcCall::MsgSnd);
    assert_eq!(regs, [117, 5, 8, 6, 7, 8, 9, 0]);
    c.data_regs[1] = 12;
    let (call, regs) = c.ipc_registers().unwrap();
    assert_eq!(call, IpcCall::MsgRcv);
    assert_eq!(regs, [117, 5, 8, 6, 9, 7, 9, 0]);
    c.data_regs[1] = 22;
    assert_eq!(c.ipc_registers().unwrap().1[1], 8);
    c.data_regs[1] = 1;
    assert_eq!(c.ipc_registers(), Err(CpuError::IpcNotImplemented { call: 1 }));
    c.data_regs[1] = 99;
    assert_eq!(c.ipc_registers(), Err(CpuError::UnknownIpcCall { call: 99 }));
}

#[test]
fn fd_sets_cross_between_guest_and_host() {
    let mut c = cpu();
    c.memory.write_data(0x1400, &[0, 0, 0, 0x05]).unwrap();
    assert_eq!(c.guest_to_host_fdset(0x1400, 4).unwrap(), vec![true, false, true, false]);
    assert_eq!(c.guest_to_host_fdset(0x1400, 0).unwrap(), Vec::<bool>::new());
    c.memory.write_data(0x1404, &[0xFF, 0xFF, 0xFF, 0xFF]).unwrap();
    c.host_to_guest_fdset(&vec![false, true, false, true], 0x1400, 4).unwrap();
    assert_eq!(c.memory.read_long(0x1400).unwrap(), 0x0A);
    assert_eq!(c.memory.read_long(0x1404).unwrap(), 0);
}

#[test]
fn statx_is_written_in_guest_layout() {
    let mut c = cpu();
    let sx = Statx {
        mask: 0x7FF,
        blksize: 4096,
        attributes: 0,
        nlink: 1,
        uid: 1000,
        gid: 100,
        mode: 0o100644,
        ino: 0x1_0000_0002,
        size: 1234,
        blocks: 8,
        attributes_mask: 0,
        atime_sec: -1,
        atime_nsec: 5,
        btime_sec: 0,
        btime_nsec: 0,
        ctime_sec: 0,
        ctime_nsec: 0,
        mtime_sec: 0x1_0000_0000,
        mtime_nsec: 7,
        rdev_major: 0,
        rdev_minor: 0,
        dev_major: 8,
        dev_minor: 1,
        mnt_id: 42,
    };
    c.write_statx(0x1800, &sx).unwrap();
    let m = &c.memory;
    assert_eq!(m.read_long(0x1800).unwrap(), 0x7FF);
    assert_eq!(m.read_long(0x1804).unwrap(), 4096);
    assert_eq!(m.read_long(0x1814).unwrap(), 1000);
    assert_eq!(m.read_word(0x181C).unwrap(), 0o100644);
    assert_eq!(m.read_long(0x1820).unwrap(), 1);
    assert_eq!(m.read_long(0x1824).unwrap(), 2);
    assert_eq!(m.read_long(0x1840).unwrap(), 0xFFFF_FFFF);
    assert_eq!(m.read_long(0x1848).unwrap(), 5);
    assert_eq!(m.read_long(0x1870).unwrap(), 1);
    assert_eq!(m.read_long(0x187C).unwrap(), 0);
    assert_eq!(m.read_long(0x1888).unwrap(), 8);
    assert_eq!(m.read_long(0x1894).unwrap(), 42);
    assert_eq!(c.write_statx(0x2FF0, &sx), Err(CpuError::MemoryFault { addr: 0x3000, len: 4 }));
}

#[test]
fn exec_image_restarts_the_program() {
    let mut c = cpu();
    c.data_regs[3] = 77;
    let mut mem = MemoryImage::new();
    mem.add_segment(MemorySegment { vaddr: 0x2000, data: vec![0u8; 0x1000], flags: 6, align: 0x1000 });
    mem.add_segment(MemorySegment { vaddr: 0x70000, data: vec![0u8; 0x1000], flags: 6, align: 0x1000 });
    let mut e = elf();
    e.entry_point = 0x2000;
    let argv: Vec<String> = Vec::new();
    c.exec_image(mem, &e, &argv, &"/bin/true".to_string()).unwrap();
    assert_eq!(c.pc, 0x2000);
    assert_eq!(c.data_regs[3], 0);
    assert_eq!(c.stack_base, 0x70000);
    assert_eq!(c.exe_path, "/bin/true");
    assert_eq!(c.brk, 0x3000);
    assert_eq!(c.memory.read_long(c.addr_regs[7] as usize).unwrap(), 0);
}

#[test]
fn movem_saves_and_restores_registers() {
    let mut c = cpu();
    let sp = c.addr_regs[7];
    c.data_regs[0] = 0x1111_1111;
    c.data_regs[2] = 0x2222_2222;
    c.addr_regs[1] = 0x3333_3333;
    // Predecrement mask: bit 15 is D0, bit 13 is D2, bit 6 is A1.
    let save = Movem {
        size: Size::Long,
        direction: DataDir::RegToMem,
        mode: AddressingMode { ea: EffectiveAddress::AddrPreDecr(AddrReg::A7), data: None },
        register_mask: (1 << 15) | (1 << 13) | (1 << 6),
    };
    c.execute(&at(0x1000, InstructionKind::Movem(save), 4)).unwrap();
    assert_eq!(c.addr_regs[7], sp - 12);
    assert_eq!(c.memory.read_long(sp as usize - 12).unwrap(), 0x1111_1111);
    assert_eq!(c.memory.read_long(sp as usize - 8).unwrap(), 0x2222_2222);
    assert_eq!(c.memory.read_long(sp as usize - 4).unwrap(), 0x3333_3333);
    c.data_regs[0] = 0;
    c.data_regs[2] = 0;
    c.addr_regs[1] = 0;
    // The mirrored mask: bit 0 is D0, bit 2 is D2, bit 9 is A1.
    let restore = Movem {
        size: Size::Long,
        direction: DataDir::MemToReg,
        mode: AddressingMode { ea: EffectiveAddress::AddrPostIncr(AddrReg::A7), data: None },
        register_mask: 1 | (1 << 2) | (1 << 9),
    };
    c.execute(&at(0x1004, InstructionKind::Movem(restore), 4)).unwrap();
    assert_eq!((c.data_regs[0], c.data_regs[2], c.addr_regs[1]), (0x1111_1111, 0x2222_2222, 0x3333_3333));
    assert_eq!(c.addr_regs[7], sp);
}

#[test]
fn instructions_keep_memory_layout() {
    let mut c = cpu();
    let layout = |c: &Cpu| -> Vec<(usize, usize, u32, usize)> {
        c.memory.segments.iter().map(|s| (s.vaddr, s.data.len(), s.flags, s.align)).collect()
    };
    let before = layout(&c);
    c.data_regs[0] = 0xCAFE_BABE;
    c.addr_regs[0] = 0x1800;
    let store = InstructionKind::Move {
        size: Size::Long,
        src: dreg(DataReg::D0),
        dst: AddressingMode { ea: EffectiveAddress::AddrPostIncr(AddrReg::A0), data: None },
    };
    c.execute(&at(0x1000, store, 2)).unwrap();
    assert_eq!(c.memory.read_long(0x1800).unwrap(), 0xCAFE_BABE);
    assert_eq!(c.addr_regs[0], 0x1804);
    assert_eq!(layout(&c), before);
}

fn at_reg(r: AddrReg) -> AddressingMode {
    AddressingMode { ea: EffectiveAddress::Addr(r), data: None }
}

#[test]
fn rotate_by_whole_turns_carries_last_bit() {
    assert_eq!(rotate(0x01, 8, RightOrLeft::Left, Size::Byte), (0x01, true));
    assert_eq!(rotate(0x80, 8, RightOrLeft::Right, Size::Byte), (0x80, true));
    assert_eq!(rotate(0x02, 16, RightOrLeft::Left, Size::Word), (0x02, false));
    assert_eq!(rotate(0x8000_0000, 32, RightOrLeft::Right, Size::Long), (0x8000_0000, true));
}

#[test]
fn long_shifts_by_32_or_more() {
    assert_eq!(logical_shift(0x8000_0001, 32, RightOrLeft::Left, Size::Long), (0, true));
    assert_eq!(logical_shift(0x8000_0001, 32, RightOrLeft::Right, Size::Long), (0, true));
    assert_eq!(logical_shift(0x0000_0001, 40, RightOrLeft::Right, Size::Long), (0, false));
    assert_eq!(arithmetic_shift(0x8000_0000, 33, RightOrLeft::Right, Size::Long), (0xFFFF_FFFF, true));
    assert_eq!(arithmetic_shift(1, 32, RightOrLeft::Left, Size::Long), (0, true));
    assert_eq!(logical_shift(0x8000_0001, 33, RightOrLeft::Left, Size::Long), (0, false));
    assert_eq!(logical_shift(0x8000_0001, 63, RightOrLeft::Right, Size::Long), (0, false));
    assert_eq!(logical_shift(0x81, 9, RightOrLeft::Left, Size::Byte), (0, false));
    assert_eq!(logical_shift(0x81, 8, RightOrLeft::Left, Size::Byte), (0, true));
    assert_eq!(logical_shift(0x8001, 17, RightOrLeft::Right, Size::Word), (0, false));
    assert_eq!(arithmetic_shift(0xFF, 12, RightOrLeft::Left, Size::Byte), (0, false));
    let mut c = cpu();
    c.data_regs[0] = 0x8000_0001;
    c.data_regs[1] = 32;
    let shift = Shift::Reg(ShiftReg {
        count: ShiftCount::Register(DataReg::D1),
        dst: DataReg::D0,
        size: Size::Long,
        direction: RightOrLeft::Left,
    });
    assert!(c.step_allowed(&at(0x1000, InstructionKind::Lsd(shift), 2)));
    c.execute(&at(0x1000, InstructionKind::Lsd(shift), 2)).unwrap();
    assert_eq!(c.data_regs[0], 0);
    assert!(c.get_flag(FLAG_C));
    assert!(c.get_flag(FLAG_X));
    assert!(c.get_flag(FLAG_Z));
}

#[test]
fn cas_sets_signed_overflow() {
    let mut c = cpu();
    c.memory.write_data(0x1100, &[0x80]).unwrap();
    c.addr_regs[0] = 0x1100;
    c.data_regs[0] = 0x01;
    c.data_regs[1] = 0x55;
    let kind = InstructionKind::Cas { size: Size::Byte, dc: DataReg::D0, du: DataReg::D1, mode: at_reg(AddrReg::A0) };
    c.execute(&at(0x1000, kind, 4)).unwrap();
    assert!(c.get_flag(FLAG_V));
    assert!(!c.get_flag(FLAG_C));
    assert!(!c.get_flag(FLAG_N));
    assert!(!c.get_flag(FLAG_Z));
    assert_eq!(c.data_regs[0], 0x80);
    assert_eq!(c.memory.read_byte(0x1100).unwrap(), 0x80);
}

#[test]
fn abs_short_sign_extends_to_32_bits() {
    let c = cpu();
    let high = AddressingMode { ea: EffectiveAddress::AbsShort, data: Some(ExtensionData::Short(0x8000)) };
    assert_eq!(c.compute_effective_address(&high, 0x1000), Ok(0xFFFF_8000));
    let low = AddressingMode { ea: EffectiveAddress::AbsShort, data: Some(ExtensionData::Short(0x1234)) };
    assert_eq!(c.compute_effective_address(&low, 0x1000), Ok(0x1234));
}

#[test]
fn signed_division_overflow_sets_v() {
    let mut c = cpu();
    c.data_regs[0] = 0x8000_0000;
    let kind = InstructionKind::Divs { src: imm(Immediate::Word(0xFFFF)), dst: DataReg::D0 };
    c.execute(&at(0x1000, kind, 4)).unwrap();
    assert_eq!(c.data_regs[0], 0x8000_0000);
    assert!(c.get_flag(FLAG_V));
    assert!(!c.get_flag(FLAG_C));
    let mut c = cpu();
    c.data_regs[0] = 0x8000_0000;
    c.data_regs[1] = 7;
    let kind = InstructionKind::DivsL { src: imm(Immediate::Long(0xFFFF_FFFF)), dq: DataReg::D0, dr: DataReg::D1, is_64bit: false };
    c.execute(&at(0x1000, kind, 6)).unwrap();
    assert_eq!((c.data_regs[0], c.data_regs[1]), (0x8000_0000, 7));
    assert!(c.get_flag(FLAG_V));
    let mut c = cpu();
    c.data_regs[0] = 0;
    c.data_regs[1] = 0x8000_0000;
    let kind = InstructionKind::DivsL { src: imm(Immediate::Long(0xFFFF_FFFF)), dq: DataReg::D0, dr: DataReg::D1, is_64bit: true };
    c.execute(&at(0x1000, kind, 6)).unwrap();
    assert_eq!((c.data_regs[0], c.data_regs[1]), (0, 0x8000_0000));
    assert!(c.get_flag(FLAG_V));
    assert!(!c.get_flag(FLAG_C));
}

#[test]
fn failed_instruction_keeps_pc_and_registers() {
    let mut c = cpu();
    c.data_regs[0] = 100;
    let before = (c.data_regs, c.addr_regs, c.sr, c.pc);
    let kind = InstructionKind::Divu { src: imm(Immediate::Word(0)), dst: DataReg::D0 };
    assert_eq!(c.execute(&at(0x1000, kind, 4)), Err(CpuError::DivisionByZero));
    assert_eq!((c.data_regs, c.addr_regs, c.sr, c.pc), before);
}

#[test]
fn writing_an_immediate_changes_nothing() {
    let mut c = cpu();
    let before = (c.data_regs, c.addr_regs, c.sr, c.pc);
    assert_eq!(c.write_operand(&imm(Immediate::Word(1)), Size::Word, 0x1000, 5), Err(CpuError::UnsupportedMode));
    assert_eq!((c.data_regs, c.addr_regs, c.sr, c.pc), before);
}

#[test]
fn chk2_out_of_bounds_sets_carry() {
    let mut c = cpu();
    c.memory.write_data(0x1100, &[0, 0, 0, 10, 0, 0, 0, 20]).unwrap();
    c.addr_regs[0] = 0x1100;
    c.data_regs[0] = 30;
    let kind = InstructionKind::Chk2 { size: Size::Long, mode: at_reg(AddrReg::A0), reg: Register::Data(DataReg::D0) };
    assert_eq!(c.execute(&at(0x1000, kind, 4)), Err(CpuError::BoundsCheck));
    assert!(c.get_flag(FLAG_C));
    assert!(!c.get_flag(FLAG_Z));
    assert_eq!(c.data_regs[0], 30);
    assert_eq!(c.pc, 0x1000);
    c.data_regs[0] = 20;
    c.execute(&at(0x1000, kind, 4)).unwrap();
    assert!(!c.get_flag(FLAG_C));
    assert!(c.get_flag(FLAG_Z));
}

#[test]
fn unknown_syscall_changes_nothing() {
    let mut c = cpu();
    c.data_regs[0] = 9999;
    let before = (c.data_regs, c.addr_regs, c.sr, c.pc);
    assert!(c.syscall_allowed());
    assert_eq!(c.handle_syscall(), Err(CpuError::UnsupportedSyscall { number: 9999 }));
    assert_eq!((c.data_regs, c.addr_regs, c.sr, c.pc), before);
}

#[test]
fn bfexts_full_width_negative_field() {
    let mut c = cpu();
    c.data_regs[1] = 0x8000_0001;
    let kind = InstructionKind::Bfexts {
        src: dreg(DataReg::D1),
        dst: DataReg::D2,
        offset: BitFieldParam::Immediate(0),
        width: BitFieldParam::Immediate(0),
    };
    assert!(c.step_allowed(&at(0x1000, kind, 4)));
    c.execute(&at(0x1000, kind, 4)).unwrap();
    assert_eq!(c.data_regs[2], 0x8000_0001);
    assert!(c.get_flag(FLAG_N));
}

#[test]
fn field_below_address_zero_is_an_underflow() {
    let mut c = cpu();
    c.addr_regs[0] = 0;
    c.data_regs[1] = (-3i32) as u32;
    let kind = InstructionKind::Bftst {
        mode: at_reg(AddrReg::A0),
        offset: BitFieldParam::Register(DataReg::D1),
        width: BitFieldParam::Immediate(2),
    };
    assert!(c.step_allowed(&at(0x1000, kind, 4)));
    assert_eq!(c.execute(&at(0x1000, kind, 4)), Err(CpuError::BitFieldUnderflow));
    assert_eq!(c.pc, 0x1000);
}

#[test]
fn step_allowed_refuses_branch_out_of_range() {
    let c = cpu();
    let bra = InstructionKind::Bra { displacement: 0x10 };
    assert!(c.step_allowed(&at(0x1000, bra, 2)));
    assert!(!c.step_allowed(&at(0x7FFF_FFFF_FFFF_FFFF, bra, 2)));
    let jsr = InstructionKind::Jsr { mode: at_reg(AddrReg::A0) };
    assert!(!c.step_allowed(&at(usize::MAX, jsr, 2)));
}

#[test]
fn syscall_allowed_for_ordinary_calls() {
    let mut c = cpu();
    c.data_regs[0] = 45;
    c.data_regs[1] = 0x5000;
    assert!(c.syscall_allowed());
    c.data_regs[0] = 125;
    c.data_regs[1] = 0x1000;
    c.data_regs[2] = 0x1000;
    assert!(c.syscall_allowed());
}

fn headers(segments: Vec<ProgramHeader>) -> ElfHeaders {
    let phnum = segments.len() as u16;
    ElfHeaders { entry: 0x8000_1000, phoff: 52, phentsize: 32, phnum, program_headers: segments }
}

fn load_header(offset: u64, filesz: u64, memsz: u64) -> ProgramHeader {
    ProgramHeader { p_type: 1, flags: 5, offset, vaddr: 0x8000_0000, filesz, memsz, align: 0x2000 }
}

#[test]
fn elf_image_zero_fills_segments_and_adds_stack() {
    let data: Vec<u8> = (1..=16).collect();
    let phdr = ProgramHeader { p_type: 6, flags: 4, offset: 52, vaddr: 0x8000_0034, filesz: 96, memsz: 96, align: 4 };
    let tls = ProgramHeader { p_type: 7, flags: 4, offset: 0, vaddr: 0x8000_1000, filesz: 0, memsz: 0x20, align: 4 };
    let h = headers(vec![phdr, load_header(4, 4, 8), tls]);
    let (memory, info) = elf_image(&data, &h).unwrap();
    let segs = memory.segments();
    assert_eq!(segs.len(), 2);
    assert_eq!(segs[0].vaddr, 0x8000_0000);
    assert_eq!(segs[0].data, vec![5, 6, 7, 8, 0, 0, 0, 0]);
    assert_eq!((segs[0].flags, segs[0].align), (5, 0x2000));
    assert_eq!(segs[1].vaddr, STACK_TOP - STACK_SIZE);
    assert_eq!(segs[1].data.len(), 8 * 1024 * 1024);
    assert_eq!(segs[1].flags, 6);
    assert_eq!(info.entry_point, 0x8000_1000);
    assert_eq!(info.phdr_addr, 0x8000_0034);
    assert_eq!((info.phent_size, info.phnum), (32, 3));
    assert_eq!(info.tls_vaddr, Some(0x8000_1000));
    assert_eq!(info.tls_memsz, 0x20);
}

#[test]
fn elf_image_rejects_bad_segments() {
    let data: Vec<u8> = vec![0; 16];
    let outside = headers(vec![load_header(8, 16, 16)]);
    assert_eq!(elf_image(&data, &outside).unwrap_err(), CpuError::SegmentOutsideFile { vaddr: 0x8000_0000 });
    let small = headers(vec![load_header(0, 8, 4)]);
    assert_eq!(elf_image(&data, &small).unwrap_err(), CpuError::SegmentTooSmall { vaddr: 0x8000_0000 });
    let none = headers(vec![]);
    let (memory, info) = elf_image(&data, &none).unwrap();
    assert_eq!(memory.segments().len(), 1);
    assert_eq!(info.phdr_addr, 0x8000_0034);
    assert_eq!((info.tls_vaddr, info.tls_memsz), (None, 0));
}

#[test]
fn load_elf_refuses_non_elf_bytes() {
    assert_eq!(load_elf(&vec![0u8; 64]).unwrap_err(), CpuError::InvalidElf);
}

#[test]
fn host_numbers_are_libc_numbers() {
    assert_eq!(host_syscall_number(2), Some(libc::SYS_fork));
    assert_eq!(host_syscall_number(6), Some(libc::SYS_close));
    assert_eq!(host_syscall_number(221), Some(libc::SYS_fcntl));
    assert_eq!(host_syscall_number(239), Some(libc::SYS_fcntl));
    assert_eq!(host_syscall_number(247), Some(libc::SYS_exit_group));
    assert_eq!(host_syscall_number(436), Some(libc::SYS_close_range));
    assert_eq!(host_syscall_number(4), None);
    assert_eq!(host_syscall_number(9999), None);
}

#[test]
fn roxr_undoes_roxl() {
    for count in [1u32, 3, 8, 9, 17] {
        let (l, xl) = rotate_extended(0xA5, count, RightOrLeft::Left, Size::Byte, true);
        assert_eq!(rotate_extended(l, count, RightOrLeft::Right, Size::Byte, xl), (0xA5, true));
    }
    let (l, xl) = rotate_extended(0x8001, 5, RightOrLeft::Left, Size::Word, false);
    assert_eq!(rotate_extended(l, 5, RightOrLeft::Right, Size::Word, xl), (0x8001, false));
}

#[test]
fn bfextu_reads_back_bfins() {
    let mut c = cpu();
    c.data_regs[0] = 0x1234_5678;
    c.data_regs[1] = 0xFFFF_FFAB;
    let ins = InstructionKind::Bfins {
        src: DataReg::D1,
        dst: dreg(DataReg::D0),
        offset: BitFieldParam::Immediate(4),
        width: BitFieldParam::Immediate(8),
    };
    c.execute(&at(0x1000, ins, 4)).unwrap();
    let ext = InstructionKind::Bfextu {
        src: dreg(DataReg::D0),
        dst: DataReg::D2,
        offset: BitFieldParam::Immediate(4),
        width: BitFieldParam::Immediate(8),
    };
    c.execute(&at(0x1004, ext, 4)).unwrap();
    assert_eq!(c.data_regs[2], 0xAB);
}

#[test]
fn bfchg_twice_restores_field() {
    let mut c = cpu();
    c.memory.write_data(0x1100, &[0x5A, 0xC3]).unwrap();
    c.addr_regs[0] = 0x1100;
    let chg = InstructionKind::Bfchg {
        mode: at_reg(AddrReg::A0),
        offset: BitFieldParam::Immediate(3),
        width: BitFieldParam::Immediate(7),
    };
    c.execute(&at(0x1000, chg, 4)).unwrap();
    assert_ne!(c.memory.read_data(0x1100, 2).unwrap(), vec![0x5A, 0xC3]);
    c.execute(&at(0x1004, chg, 4)).unwrap();
    assert_eq!(c.memory.read_data(0x1100, 2).unwrap(), vec![0x5A, 0xC3]);
}

#[test]
fn movem_save_and_restore_through_the_stack() {
    let mut c = cpu();
    for i in 0..8 {
        c.data_regs[i] = 0x1000 + i as u32;
    }
    c.addr_regs[3] = 0xAAAA;
    let sp = c.addr_regs[7];
    let save = InstructionKind::Movem(Movem {
        size: Size::Long,
        direction: DataDir::RegToMem,
        mode: AddressingMode { ea: EffectiveAddress::AddrPreDecr(AddrReg::A7), data: None },
        register_mask: 0b1100_0000_0001_0000,
    });
    c.execute(&at(0x1000, save, 4)).unwrap();
    assert_eq!(c.addr_regs[7], sp - 12);
    c.data_regs[0] = 0;
    c.data_regs[1] = 0;
    c.addr_regs[3] = 0;
    let restore = InstructionKind::Movem(Movem {
        size: Size::Long,
        direction: DataDir::MemToReg,
        mode: AddressingMode { ea: EffectiveAddress::AddrPostIncr(AddrReg::A7), data: None },
        register_mask: 0b0000_1000_0000_0011,
    });
    c.execute(&at(0x1004, restore, 4)).unwrap();
    assert_eq!((c.data_regs[0], c.data_regs[1], c.addr_regs[3]), (0x1000, 0x1001, 0xAAAA));
    assert_eq!(c.addr_regs[7], sp);
}

#[test]
fn bfchg_twice_restores_register() {
    let mut c = cpu();
    c.data_regs[3] = 0x1234_5678;
    let chg = InstructionKind::Bfchg {
        mode: dreg(DataReg::D3),
        offset: BitFieldParam::Immediate(28),
        width: BitFieldParam::Immediate(8),
    };
    c.execute(&at(0x1000, chg, 4)).unwrap();
    assert_eq!(c.data_regs[3], 0xE234_5677);
    c.execute(&at(0x1004, chg, 4)).unwrap();
    assert_eq!(c.data_regs[3], 0x1234_5678);
    assert!(!c.get_flag(FLAG_N));
    assert!(!c.get_flag(FLAG_Z));
    assert!(!c.get_flag(FLAG_V));
    assert!(!c.get_flag(FLAG_C));
}
