use behistun::cpu::host_args::{IoVec, LandlockRule, MountAttrArg, PollFd};
use behistun::cpu::ipc_data::SemctlArg;
use behistun::cpu::kernel_structs::{ChildInfo, Itimerval, Rusage, Stat, Statfs, Sysinfo, Tms};
use behistun::cpu::{Cpu, ElfInfo};
use behistun::error::CpuError;
use behistun::memory::{MemoryImage, MemorySegment};

const DATA: usize = 0x1000;
const STACK_BASE: usize = 0x80000;

fn cpu() -> Cpu {
    let mut mem = MemoryImage::new();
    mem.add_segment(MemorySegment { vaddr: DATA, data: vec![0u8; 0x2000], flags: 6, align: 0x1000 });
    mem.add_segment(MemorySegment { vaddr: STACK_BASE, data: vec![0u8; 0x10000], flags: 6, align: 0x1000 });
    let elf = ElfInfo { entry_point: 0x1000, phdr_addr: 0x1034, phent_size: 32, phnum: 2, tls_vaddr: None, tls_memsz: 0 };
    Cpu::new(mem, &elf, &vec!["prog".to_string()]).unwrap()
}

fn longs(c: &Cpu, addr: usize, n: usize) -> Vec<u32> {
    (0..n).map(|i| c.memory.read_long(addr + 4 * i).unwrap()).collect()
}

/// A host `linux_dirent64` record with a name, padded to `reclen` bytes.
fn host_record(ino: u64, off: i64, reclen: u16, kind: u8, name: &[u8]) -> Vec<u8> {
    let mut r = Vec::new();
    r.extend_from_slice(&ino.to_le_bytes());
    r.extend_from_slice(&off.to_le_bytes());
    r.extend_from_slice(&reclen.to_le_bytes());
    r.push(kind);
    r.extend_from_slice(name);
    r.resize(reclen as usize, 0);
    r
}

#[test]
fn dirents64_are_laid_out_big_endian_and_padded() {
    let mut c = cpu();
    let mut host = host_record(0x0102030405060708, 0x10, 24, 4, b"ab");
    host.extend(host_record(7, 0x20, 32, 8, b"file.txt"));
    let len = host.len();
    host.resize(256, 0);
    let n = c.copy_dirents(&host, len, true, DATA, 256).unwrap().unwrap();
    // "ab": 19 + 2 + 1 = 22, rounded to 24; "file.txt": 19 + 8 + 1 = 28, rounded to 32.
    assert_eq!(n, 56);
    let b = c.memory.read_data(DATA, 56).unwrap();
    assert_eq!(&b[0..8], &[1, 2, 3, 4, 5, 6, 7, 8]);
    assert_eq!(&b[8..16], &[0, 0, 0, 0, 0, 0, 0, 0x10]);
    assert_eq!(&b[16..18], &[0, 24]);
    assert_eq!(b[18], 4);
    assert_eq!(&b[19..22], b"ab\0");
    assert_eq!(&b[22..24], &[0, 0]);
    assert_eq!(&b[24..32], &[0, 0, 0, 0, 0, 0, 0, 7]);
    assert_eq!(&b[40..42], &[0, 32]);
    assert_eq!(b[42], 8);
    assert_eq!(&b[43..52], b"file.txt\0");
}

#[test]
fn old_dirents_put_type_in_last_byte() {
    let mut c = cpu();
    let mut host = host_record(0x1122334455667788, -1, 24, 4, b"abc");
    let len = host.len();
    host.resize(64, 0);
    let n = c.copy_dirents(&host, len, false, DATA, 64).unwrap().unwrap();
    // 10 + 3 + 1 + 1 = 15, rounded to 16.
    assert_eq!(n, 16);
    let b = c.memory.read_data(DATA, 16).unwrap();
    assert_eq!(&b[0..4], &[0x55, 0x66, 0x77, 0x88]);
    assert_eq!(&b[4..8], &[0xff, 0xff, 0xff, 0xff]);
    assert_eq!(&b[8..10], &[0, 16]);
    assert_eq!(&b[10..14], b"abc\0");
    assert_eq!(b[14], 0);
    assert_eq!(b[15], 4);
}

#[test]
fn dirents_stop_where_guest_buffer_is_full() {
    let mut c = cpu();
    let mut host = host_record(1, 1, 24, 4, b"ab");
    host.extend(host_record(2, 2, 24, 4, b"cd"));
    let len = host.len();
    assert_eq!(c.copy_dirents(&host, len, true, DATA, 40).unwrap().unwrap(), 24);
}

#[test]
fn dirents_refuse_record_shorter_than_header() {
    let mut c = cpu();
    let mut host = host_record(1, 1, 24, 4, b"ab");
    host[16] = 5;
    host[17] = 0;
    assert!(c.copy_dirents(&host, 24, true, DATA, 64).is_none());
}

#[test]
fn dirents_report_fault_outside_memory() {
    let mut c = cpu();
    let host = host_record(1, 1, 24, 4, b"ab");
    assert_eq!(c.copy_dirents(&host, 24, true, 0x5000, 64), Some(Err(CpuError::MemoryFault { addr: 0x5000, len: 8 })));
}

#[test]
fn stat_is_thirteen_truncated_longs() {
    let mut c = cpu();
    let s = Stat {
        dev: 0x1_0000_0002,
        ino: 3,
        mode: 0o100644,
        nlink: 1,
        uid: 1000,
        gid: 100,
        rdev: 0,
        size: 0x1_0000_0010,
        blksize: 4096,
        blocks: 8,
        atime: 11,
        mtime: 12,
        ctime: 13,
    };
    c.write_stat(DATA, &s).unwrap();
    assert_eq!(longs(&c, DATA, 13), vec![2, 3, 0o100644, 1, 1000, 100, 0, 0x10, 4096, 8, 11, 12, 13]);
}

#[test]
fn statfs_is_seven_longs() {
    let mut c = cpu();
    let s = Statfs { fs_type: 0xEF53, bsize: 4096, blocks: 100, bfree: 50, bavail: 40, files: 9, ffree: 8 };
    c.write_statfs(DATA, &s).unwrap();
    assert_eq!(longs(&c, DATA, 7), vec![0xEF53, 4096, 100, 50, 40, 9, 8]);
}

#[test]
fn sysinfo_ends_with_process_count_word() {
    let mut c = cpu();
    let s = Sysinfo {
        uptime: 99,
        load1: 1,
        load5: 2,
        load15: 3,
        totalram: 4,
        freeram: 5,
        sharedram: 6,
        bufferram: 7,
        totalswap: 8,
        freeswap: 9,
        procs: 0x1234,
    };
    c.write_sysinfo(DATA, &s).unwrap();
    assert_eq!(longs(&c, DATA, 10), vec![99, 1, 2, 3, 4, 5, 6, 7, 8, 9]);
    assert_eq!(c.memory.read_word(DATA + 40).unwrap(), 0x1234);
}

#[test]
fn utsname_fields_are_65_bytes_apart() {
    let mut c = cpu();
    let field = |s: &str| {
        let mut v = s.as_bytes().to_vec();
        v.resize(65, 0);
        v
    };
    let fields = vec![field("Linux"), field("host"), field("6.1"), field("#1"), field("m68k")];
    c.write_utsname(DATA, &fields).unwrap();
    assert_eq!(c.memory.read_data(DATA, 6).unwrap(), b"Linux\0".to_vec());
    assert_eq!(c.memory.read_data(DATA + 65, 5).unwrap(), b"host\0".to_vec());
    assert_eq!(c.memory.read_data(DATA + 260, 5).unwrap(), b"m68k\0".to_vec());
}

#[test]
fn time_pair_round_trips() {
    let mut c = cpu();
    c.write_time_pair(DATA, -5, 999_999_999).unwrap();
    assert_eq!(c.read_time_pair(DATA).unwrap(), (-5, 999_999_999));
    assert_eq!(c.memory.read_data(DATA, 8).unwrap(), vec![0xff, 0xff, 0xff, 0xff, 0xff, 0xff, 0xff, 0xfb]);
    assert_eq!(c.read_i64_be(DATA).unwrap(), -5);
}

#[test]
fn itimerval_round_trips() {
    let mut c = cpu();
    let v = Itimerval { interval_sec: 1, interval_usec: 500, value_sec: 0x1_0000_0000, value_usec: 7 };
    c.write_itimerval(DATA, &v).unwrap();
    assert_eq!(c.read_itimerval(DATA).unwrap(), v);
    assert_eq!(longs(&c, DATA, 6), vec![0, 1, 500, 1, 0, 7]);
}

#[test]
fn rusage_layouts_differ_for_getrusage_and_wait4() {
    let mut c = cpu();
    let u = Rusage { utime_sec: 2, utime_usec: 3, stime_sec: 4, stime_usec: 5 };
    c.write_rusage(DATA, &u).unwrap();
    assert_eq!(longs(&c, DATA, 6), vec![0, 2, 3, 0, 4, 5]);
    assert_eq!(c.finish_wait4(42, 0x100, DATA + 0x100, &u, DATA + 0x200).unwrap(), 42);
    assert_eq!(longs(&c, DATA + 0x100, 1), vec![0x100]);
    assert_eq!(longs(&c, DATA + 0x200, 4), vec![2, 3, 4, 5]);
}

#[test]
fn wait4_without_child_stores_nothing() {
    let mut c = cpu();
    let u = Rusage { utime_sec: 2, utime_usec: 3, stime_sec: 4, stime_usec: 5 };
    assert_eq!(c.finish_wait4(0, 0x100, DATA, &u, DATA + 8).unwrap(), 0);
    assert_eq!(longs(&c, DATA, 6), vec![0; 6]);
}

#[test]
fn waitid_stores_child_info_on_success() {
    let mut c = cpu();
    let info = ChildInfo { signo: 17, errno: 0, code: 1, pid: 1234, uid: 1000, status: 3 };
    assert_eq!(c.finish_waitid(0, &info, DATA).unwrap(), 0);
    assert_eq!(longs(&c, DATA, 6), vec![17, 0, 1, 1234, 1000, 3]);
    let mut d = cpu();
    assert_eq!(d.finish_waitid(-1, &info, DATA).unwrap(), -1);
    assert_eq!(longs(&d, DATA, 6), vec![0; 6]);
}

#[test]
fn tms_and_rlimit_are_cut_to_longs() {
    let mut c = cpu();
    c.write_tms(DATA, &Tms { utime: 1, stime: 2, cutime: 3, cstime: 0x1_0000_0004 }).unwrap();
    assert_eq!(longs(&c, DATA, 4), vec![1, 2, 3, 4]);
    c.write_rlimit(DATA + 16, u64::MAX, 8192).unwrap();
    assert_eq!(longs(&c, DATA + 16, 2), vec![0xffff_ffff, 8192]);
}

#[test]
fn rlimit64_round_trips_as_high_low_longs() {
    let mut c = cpu();
    c.write_rlimit64(DATA, 0x1_0000_0002, u64::MAX).unwrap();
    assert_eq!(longs(&c, DATA, 4), vec![1, 2, 0xffff_ffff, 0xffff_ffff]);
    assert_eq!(c.read_rlimit64(DATA).unwrap(), (0x1_0000_0002, u64::MAX));
}

#[test]
fn llseek_combines_halves_and_stores_result() {
    assert_eq!(Cpu::llseek_offset(1, 2), 0x1_0000_0002);
    assert_eq!(Cpu::llseek_offset(0xffff_ffff, 0xffff_ffff), -1);
    let mut c = cpu();
    assert_eq!(c.finish_llseek(0x2_0000_0003, DATA).unwrap(), 0);
    assert_eq!(longs(&c, DATA, 2), vec![2, 3]);
    assert_eq!(c.finish_llseek(-22, DATA + 8).unwrap(), -22);
    assert_eq!(longs(&c, DATA + 8, 2), vec![0, 0]);
}

#[test]
fn clock_adjustment_is_refused() {
    let c = cpu();
    assert_eq!(c.refuse_clock_adjust(DATA).unwrap(), -1);
    assert_eq!(c.refuse_clock_adjust(0).unwrap(), -1);
    assert_eq!(c.refuse_clock_adjust(0x5000), Err(CpuError::MemoryFault { addr: 0x5000, len: 16 }));
}

#[test]
fn longs_round_trip() {
    let mut c = cpu();
    c.write_longs(DATA, &vec![1, 0xdead_beef, 3]).unwrap();
    assert_eq!(c.read_longs(DATA, 3).unwrap(), vec![1, 0xdead_beef, 3]);
    assert_eq!(c.read_longs(0x2ffc, 2), Err(CpuError::MemoryFault { addr: 0x3000, len: 4 }));
}

#[test]
fn iovecs_are_read_and_checked() {
    let mut c = cpu();
    c.write_longs(DATA, &vec![0x1800, 16, 0, 0, 0x9000, 4]).unwrap();
    assert_eq!(
        c.build_iovecs(DATA, 2).unwrap(),
        vec![IoVec { base: 0x1800, len: 16 }, IoVec { base: 0, len: 0 }]
    );
    assert_eq!(c.build_iovecs(DATA, 3), Err(CpuError::MemoryFault { addr: 0x9000, len: 4 }));
}

#[test]
fn pollfds_read_and_revents_written() {
    let mut c = cpu();
    c.write_longs(DATA, &vec![3, 0x0001_0000, 0xffff_ffff, 0x0004_0000]).unwrap();
    assert_eq!(
        c.read_pollfds(DATA, 2).unwrap(),
        vec![PollFd { fd: 3, events: 1 }, PollFd { fd: -1, events: 4 }]
    );
    c.write_revents(DATA, &vec![1, -1]).unwrap();
    assert_eq!(longs(&c, DATA, 4), vec![3, 0x0001_0001, 0xffff_ffff, 0x0004_ffff]);
}

#[test]
fn message_header_is_read_with_its_vectors() {
    let mut c = cpu();
    c.write_longs(DATA, &vec![0x1800, 16, DATA as u32 + 0x40, 1, 0, 0]).unwrap();
    c.write_longs(DATA + 0x40, &vec![0x1900, 32]).unwrap();
    let (h, iov) = c.read_message(DATA).unwrap();
    assert_eq!((h.name, h.namelen, h.iovlen), (0x1800, 16, 1));
    assert_eq!(iov, vec![IoVec { base: 0x1900, len: 32 }]);
    c.write_longs(DATA, &vec![0x9000, 16]).unwrap();
    assert_eq!(c.read_message(DATA).map(|_| ()), Err(CpuError::MemoryFault { addr: 0x9000, len: 16 }));
}

#[test]
fn recvmsg_result_updates_header() {
    let mut c = cpu();
    assert_eq!(c.finish_recvmsg(DATA, 10, 8, 0, 0x40).unwrap(), 10);
    assert_eq!(longs(&c, DATA, 7), vec![0, 8, 0, 0, 0, 0, 0x40]);
    let mut d = cpu();
    assert_eq!(d.finish_recvmsg(DATA, -1, 8, 0, 0x40).unwrap(), -1);
    assert_eq!(longs(&d, DATA, 7), vec![0; 7]);
}

#[test]
fn futex_reads_timeout_and_stack_argument() {
    let mut c = cpu();
    c.write_time_pair(DATA + 0x10, 2, 500).unwrap();
    let sp = c.addr_regs[7] as usize;
    c.write_longs(sp, &vec![77]).unwrap();
    let a = c.check_futex(DATA, DATA + 0x10, 0).unwrap();
    assert_eq!((a.timeout, a.val3), (Some((2, 500)), 77));
    assert_eq!(c.check_futex(0x9000, 0, 0).map(|_| ()), Err(CpuError::MemoryFault { addr: 0x9000, len: 4 }));
    assert_eq!(c.check_futex(DATA, 0, 0x9000).map(|_| ()), Err(CpuError::MemoryFault { addr: 0x9000, len: 4 }));
}

#[test]
fn clone_refuses_own_stack() {
    let c = cpu();
    assert_eq!(c.check_clone(0, DATA, 0), Ok(()));
    assert_eq!(c.check_clone(0x2000, 0, 0), Err(CpuError::CloneStackUnsupported));
    assert_eq!(c.check_clone(0, 0x9000, 0), Err(CpuError::MemoryFault { addr: 0x9000, len: 4 }));
}

#[test]
fn capabilities_use_one_or_two_blocks() {
    assert_eq!(Cpu::cap_data_count(0x19980330), 1);
    assert_eq!(Cpu::cap_data_count(0x20080522), 2);
    let mut c = cpu();
    assert_eq!(c.read_cap_header(0).unwrap(), None);
    c.write_longs(DATA, &vec![0x19980330, 0]).unwrap();
    assert_eq!(c.read_cap_header(DATA).unwrap(), Some((0x19980330, 0)));
    c.write_longs(DATA + 0x20, &vec![1, 2, 3, 4, 5, 6]).unwrap();
    assert_eq!(c.read_cap_data(DATA + 0x20, 0x19980330).unwrap(), vec![1, 2, 3, 0, 0, 0]);
    assert_eq!(c.read_cap_data(DATA + 0x20, 0x20080522).unwrap(), vec![1, 2, 3, 4, 5, 6]);
    assert_eq!(c.read_cap_data(0, 0x20080522).unwrap(), vec![0; 6]);
    c.finish_capget(DATA, 0x20080522, 7, 0, DATA + 0x40, 0x19980330, &vec![9, 8, 7, 6, 5, 4]).unwrap();
    assert_eq!(longs(&c, DATA, 2), vec![0x20080522, 7]);
    assert_eq!(longs(&c, DATA + 0x40, 6), vec![9, 8, 7, 0, 0, 0]);
}

#[test]
fn readlink_of_proc_self_exe_answers_program_path() {
    let mut c = cpu();
    assert_eq!(c.readlink_self_exe(b"/proc/self/exe", b"/bin/prog", DATA, 4).unwrap(), Some(4));
    assert_eq!(c.memory.read_data(DATA, 5).unwrap(), b"/bin\0".to_vec());
    assert_eq!(c.readlink_self_exe(b"/tmp/link", b"/bin/prog", DATA, 64).unwrap(), None);
    assert_eq!(
        c.readlink_self_exe(b"/proc/self/exe", b"/bin/prog", 0x9000, 4),
        Err(CpuError::MemoryFault { addr: 0x9000, len: 4 })
    );
}

#[test]
fn open_how_needs_its_full_size() {
    let mut c = cpu();
    c.write_longs(DATA, &vec![0, 0o040000, 0, 0o644, 0, 8]).unwrap();
    assert_eq!(c.read_open_how(DATA, 16).unwrap(), None);
    let (flags, mode, resolve) = c.read_open_how(DATA, 24).unwrap().unwrap();
    assert_eq!(flags, Cpu::translate_open_flags(0o040000) as u64);
    assert_eq!((mode, resolve), (0o644, 8));
}

#[test]
fn mount_attr_cases() {
    let mut c = cpu();
    c.write_longs(DATA, &vec![0, 1, 0, 2, 0, 3, 0, 4]).unwrap();
    assert_eq!(c.read_mount_attr(0, 32).unwrap(), MountAttrArg::Absent);
    assert_eq!(c.read_mount_attr(DATA, 0).unwrap(), MountAttrArg::Absent);
    assert_eq!(c.read_mount_attr(DATA, 16).unwrap(), MountAttrArg::TooSmall);
    assert_eq!(c.read_mount_attr(DATA, 32).unwrap(), MountAttrArg::Fields(1, 2, 3, 4));
}

#[test]
fn landlock_ruleset_attr_in_host_order() {
    let mut c = cpu();
    c.write_longs(DATA, &vec![0, 0x0102, 0, 0x0304]).unwrap();
    assert_eq!(c.ruleset_attr(0, 16).unwrap(), None);
    let a = c.ruleset_attr(DATA, 24).unwrap().unwrap();
    let mut want = 0x0102u64.to_le_bytes().to_vec();
    want.extend_from_slice(&0x0304u64.to_le_bytes());
    want.resize(24, 0);
    assert_eq!(a, want);
    let short = c.ruleset_attr(DATA, 8).unwrap().unwrap();
    assert_eq!(short, 0x0102u64.to_le_bytes().to_vec());
}

#[test]
fn landlock_rules_by_type() {
    let mut c = cpu();
    c.write_longs(DATA, &vec![0, 0x10, 5, 0]).unwrap();
    match c.landlock_rule(1, DATA).unwrap() {
        LandlockRule::Bytes(b) => {
            let mut want = 0x10u64.to_le_bytes().to_vec();
            want.extend_from_slice(&5i32.to_le_bytes());
            want.extend_from_slice(&[0, 0, 0, 0]);
            assert_eq!(b, want);
        }
        other => panic!("unexpected {:?}", other),
    }
    assert!(matches!(c.landlock_rule(9, DATA).unwrap(), LandlockRule::UnknownType));
    assert!(matches!(c.landlock_rule(1, 0).unwrap(), LandlockRule::Absent));
}

#[test]
fn splice_offsets_round_trip() {
    let mut c = cpu();
    c.write_longs(DATA, &vec![1, 2]).unwrap();
    assert_eq!(c.read_loff(DATA).unwrap(), 0x1_0000_0002);
    assert_eq!(c.read_loff(0).unwrap(), 0);
    assert_eq!(c.finish_splice(5, DATA, 0x3_0000_0004, 0, 0).unwrap(), 5);
    assert_eq!(longs(&c, DATA, 2), vec![3, 4]);
}

#[test]
fn check_buffer_needs_one_segment() {
    let c = cpu();
    assert_eq!(c.check_buffer(DATA, 0x2000), Ok(()));
    assert_eq!(c.check_buffer(DATA, 0x2001), Err(CpuError::MemoryFault { addr: DATA, len: 0x2001 }));
}

#[test]
fn ctl_buffer_for_remove_is_null() {
    let c = cpu();
    assert_eq!(c.ctl_buffer(0, DATA).unwrap(), None);
    assert_eq!(c.ctl_buffer(2, 0).unwrap(), None);
    assert_eq!(c.ctl_buffer(2, DATA).unwrap(), Some(DATA));
    assert_eq!(c.ctl_buffer(2, 0x9000), Err(CpuError::MemoryFault { addr: 0x9000, len: 128 }));
}

#[test]
fn semctl_argument_by_command() {
    let c = cpu();
    assert_eq!(c.semctl_arg(0, 5).unwrap(), SemctlArg::Zero);
    assert_eq!(c.semctl_arg(16, 0xffff_ffff).unwrap(), SemctlArg::Value(-1));
    assert_eq!(c.semctl_arg(12, 5).unwrap(), SemctlArg::Zero);
    assert_eq!(c.semctl_arg(2, 0).unwrap(), SemctlArg::NullBuffer);
    assert_eq!(c.semctl_arg(1, DATA).unwrap(), SemctlArg::Buffer(DATA));
    assert_eq!(c.semctl_arg(13, 0).unwrap(), SemctlArg::MissingArray);
    assert_eq!(c.semctl_arg(17, DATA).unwrap(), SemctlArg::Array(DATA));
    assert_eq!(c.semctl_arg(19, 7).unwrap(), SemctlArg::Raw(7));
    assert_eq!(c.semctl_arg(13, 0x9000), Err(CpuError::MemoryFault { addr: 0x9000, len: 512 }));
}

#[test]
fn msgsnd_widens_type_and_msgrcv_narrows_it() {
    let mut c = cpu();
    c.write_longs(DATA, &vec![0xffff_fffe]).unwrap();
    c.memory.write_data(DATA + 4, b"hi").unwrap();
    let buf = c.msgsnd_buffer(DATA, 2).unwrap();
    let mut want = (-2i64).to_le_bytes().to_vec();
    want.extend_from_slice(b"hi");
    assert_eq!(buf, want);
    let mut host = 5i64.to_le_bytes().to_vec();
    host.extend_from_slice(b"abc");
    assert_eq!(c.finish_msgrcv(DATA + 0x100, &host, 3).unwrap(), 3);
    assert_eq!(longs(&c, DATA + 0x100, 1), vec![5]);
    assert_eq!(c.memory.read_data(DATA + 0x104, 3).unwrap(), b"abc".to_vec());
}

#[test]
fn mq_attributes_sign_extend_and_narrow() {
    let mut c = cpu();
    c.write_longs(DATA, &vec![0xffff_ffff, 10, 8192, 0]).unwrap();
    assert_eq!(c.read_mq_attr(DATA).unwrap(), vec![-1, 10, 8192, 0]);
    assert!(matches!(c.mq_open_attr(0, DATA).unwrap(), None));
    assert!(matches!(c.mq_open_attr(0x40, 0).unwrap(), Some(None)));
    assert_eq!(c.mq_open_attr(0x40, DATA).unwrap(), Some(Some(vec![-1, 10, 8192, 0])));
    c.write_mq_attr(DATA + 0x20, &vec![-2, 3, 4, 0x1_0000_0005]).unwrap();
    assert_eq!(longs(&c, DATA + 0x20, 4), vec![0xffff_fffe, 3, 4, 5]);
}

#[test]
fn shmat_places_at_hint_or_free_range() {
    let c = cpu();
    assert_eq!(c.shmat_placement(0x5000_0000, 0x1000, 0).unwrap(), (0x5000_0000, 6));
    assert_eq!(c.shmat_placement(0, 0x1000, 0o10000).unwrap(), (0x4000_0000, 4));
}
