//! The x86-64 Linux numbers of the system calls the interpreter passes to the host
//! unchanged, as libc defines them, and the table from m68k numbers to them.

use vstd::prelude::*;

verus! {

/// `libc::SYS_fork`, which libc defines as 57 for x86-64 Linux (gnu/b64/x86_64/not_x32.rs).
#[verifier::external_body]
fn sys_fork() -> (r: i64)
    ensures
        r == 57,
{
    libc::SYS_fork
}

/// `libc::SYS_close`, which libc defines as 3 for x86-64 Linux (gnu/b64/x86_64/not_x32.rs).
#[verifier::external_body]
fn sys_close() -> (r: i64)
    ensures
        r == 3,
{
    libc::SYS_close
}

/// `libc::SYS_lseek`, which libc defines as 8 for x86-64 Linux (gnu/b64/x86_64/not_x32.rs).
#[verifier::external_body]
fn sys_lseek() -> (r: i64)
    ensures
        r == 8,
{
    libc::SYS_lseek
}

/// `libc::SYS_getpid`, which libc defines as 39 for x86-64 Linux (gnu/b64/x86_64/not_x32.rs).
#[verifier::external_body]
fn sys_getpid() -> (r: i64)
    ensures
        r == 39,
{
    libc::SYS_getpid
}

/// `libc::SYS_setuid`, which libc defines as 105 for x86-64 Linux (gnu/b64/x86_64/not_x32.rs).
#[verifier::external_body]
fn sys_setuid() -> (r: i64)
    ensures
        r == 105,
{
    libc::SYS_setuid
}

/// `libc::SYS_getuid`, which libc defines as 102 for x86-64 Linux (gnu/b64/x86_64/not_x32.rs).
#[verifier::external_body]
fn sys_getuid() -> (r: i64)
    ensures
        r == 102,
{
    libc::SYS_getuid
}

/// `libc::SYS_alarm`, which libc defines as 37 for x86-64 Linux (gnu/b64/x86_64/not_x32.rs).
#[verifier::external_body]
fn sys_alarm() -> (r: i64)
    ensures
        r == 37,
{
    libc::SYS_alarm
}

/// `libc::SYS_pause`, which libc defines as 34 for x86-64 Linux (gnu/b64/x86_64/not_x32.rs).
#[verifier::external_body]
fn sys_pause() -> (r: i64)
    ensures
        r == 34,
{
    libc::SYS_pause
}

/// `libc::SYS_sync`, which libc defines as 162 for x86-64 Linux (gnu/b64/x86_64/not_x32.rs).
#[verifier::external_body]
fn sys_sync() -> (r: i64)
    ensures
        r == 162,
{
    libc::SYS_sync
}

/// `libc::SYS_kill`, which libc defines as 62 for x86-64 Linux (gnu/b64/x86_64/not_x32.rs).
#[verifier::external_body]
fn sys_kill() -> (r: i64)
    ensures
        r == 62,
{
    libc::SYS_kill
}

/// `libc::SYS_dup`, which libc defines as 32 for x86-64 Linux (gnu/b64/x86_64/not_x32.rs).
#[verifier::external_body]
fn sys_dup() -> (r: i64)
    ensures
        r == 32,
{
    libc::SYS_dup
}

/// `libc::SYS_setgid`, which libc defines as 106 for x86-64 Linux (gnu/b64/x86_64/not_x32.rs).
#[verifier::external_body]
fn sys_setgid() -> (r: i64)
    ensures
        r == 106,
{
    libc::SYS_setgid
}

/// `libc::SYS_getgid`, which libc defines as 104 for x86-64 Linux (gnu/b64/x86_64/not_x32.rs).
#[verifier::external_body]
fn sys_getgid() -> (r: i64)
    ensures
        r == 104,
{
    libc::SYS_getgid
}

/// `libc::SYS_geteuid`, which libc defines as 107 for x86-64 Linux (gnu/b64/x86_64/not_x32.rs).
#[verifier::external_body]
fn sys_geteuid() -> (r: i64)
    ensures
        r == 107,
{
    libc::SYS_geteuid
}

/// `libc::SYS_getegid`, which libc defines as 108 for x86-64 Linux (gnu/b64/x86_64/not_x32.rs).
#[verifier::external_body]
fn sys_getegid() -> (r: i64)
    ensures
        r == 108,
{
    libc::SYS_getegid
}

/// `libc::SYS_acct`, which libc defines as 163 for x86-64 Linux (gnu/b64/x86_64/not_x32.rs).
#[verifier::external_body]
fn sys_acct() -> (r: i64)
    ensures
        r == 163,
{
    libc::SYS_acct
}

/// `libc::SYS_ioctl`, which libc defines as 16 for x86-64 Linux (gnu/b64/x86_64/not_x32.rs).
#[verifier::external_body]
fn sys_ioctl() -> (r: i64)
    ensures
        r == 16,
{
    libc::SYS_ioctl
}

/// `libc::SYS_fcntl`, which libc defines as 72 for x86-64 Linux (gnu/b64/x86_64/not_x32.rs).
#[verifier::external_body]
fn sys_fcntl() -> (r: i64)
    ensures
        r == 72,
{
    libc::SYS_fcntl
}

/// `libc::SYS_setpgid`, which libc defines as 109 for x86-64 Linux (gnu/b64/x86_64/not_x32.rs).
#[verifier::external_body]
fn sys_setpgid() -> (r: i64)
    ensures
        r == 109,
{
    libc::SYS_setpgid
}

/// `libc::SYS_umask`, which libc defines as 95 for x86-64 Linux (gnu/b64/x86_64/not_x32.rs).
#[verifier::external_body]
fn sys_umask() -> (r: i64)
    ensures
        r == 95,
{
    libc::SYS_umask
}

/// `libc::SYS_dup2`, which libc defines as 33 for x86-64 Linux (gnu/b64/x86_64/not_x32.rs).
#[verifier::external_body]
fn sys_dup2() -> (r: i64)
    ensures
        r == 33,
{
    libc::SYS_dup2
}

/// `libc::SYS_getppid`, which libc defines as 110 for x86-64 Linux (gnu/b64/x86_64/not_x32.rs).
#[verifier::external_body]
fn sys_getppid() -> (r: i64)
    ensures
        r == 110,
{
    libc::SYS_getppid
}

/// `libc::SYS_getpgrp`, which libc defines as 111 for x86-64 Linux (gnu/b64/x86_64/not_x32.rs).
#[verifier::external_body]
fn sys_getpgrp() -> (r: i64)
    ensures
        r == 111,
{
    libc::SYS_getpgrp
}

/// `libc::SYS_setsid`, which libc defines as 112 for x86-64 Linux (gnu/b64/x86_64/not_x32.rs).
#[verifier::external_body]
fn sys_setsid() -> (r: i64)
    ensures
        r == 112,
{
    libc::SYS_setsid
}

/// `libc::SYS_setreuid`, which libc defines as 113 for x86-64 Linux (gnu/b64/x86_64/not_x32.rs).
#[verifier::external_body]
fn sys_setreuid() -> (r: i64)
    ensures
        r == 113,
{
    libc::SYS_setreuid
}

/// `libc::SYS_setregid`, which libc defines as 114 for x86-64 Linux (gnu/b64/x86_64/not_x32.rs).
#[verifier::external_body]
fn sys_setregid() -> (r: i64)
    ensures
        r == 114,
{
    libc::SYS_setregid
}

/// `libc::SYS_reboot`, which libc defines as 169 for x86-64 Linux (gnu/b64/x86_64/not_x32.rs).
#[verifier::external_body]
fn sys_reboot() -> (r: i64)
    ensures
        r == 169,
{
    libc::SYS_reboot
}

/// `libc::SYS_munmap`, which libc defines as 11 for x86-64 Linux (gnu/b64/x86_64/not_x32.rs).
#[verifier::external_body]
fn sys_munmap() -> (r: i64)
    ensures
        r == 11,
{
    libc::SYS_munmap
}

/// `libc::SYS_ftruncate`, which libc defines as 77 for x86-64 Linux (gnu/b64/x86_64/not_x32.rs).
#[verifier::external_body]
fn sys_ftruncate() -> (r: i64)
    ensures
        r == 77,
{
    libc::SYS_ftruncate
}

/// `libc::SYS_fchmod`, which libc defines as 91 for x86-64 Linux (gnu/b64/x86_64/not_x32.rs).
#[verifier::external_body]
fn sys_fchmod() -> (r: i64)
    ensures
        r == 91,
{
    libc::SYS_fchmod
}

/// `libc::SYS_fchown`, which libc defines as 93 for x86-64 Linux (gnu/b64/x86_64/not_x32.rs).
#[verifier::external_body]
fn sys_fchown() -> (r: i64)
    ensures
        r == 93,
{
    libc::SYS_fchown
}

/// `libc::SYS_getpriority`, which libc defines as 140 for x86-64 Linux (gnu/b64/x86_64/not_x32.rs).
#[verifier::external_body]
fn sys_getpriority() -> (r: i64)
    ensures
        r == 140,
{
    libc::SYS_getpriority
}

/// `libc::SYS_setpriority`, which libc defines as 141 for x86-64 Linux (gnu/b64/x86_64/not_x32.rs).
#[verifier::external_body]
fn sys_setpriority() -> (r: i64)
    ensures
        r == 141,
{
    libc::SYS_setpriority
}

/// `libc::SYS_ioperm`, which libc defines as 173 for x86-64 Linux (gnu/b64/x86_64/not_x32.rs).
#[verifier::external_body]
fn sys_ioperm() -> (r: i64)
    ensures
        r == 173,
{
    libc::SYS_ioperm
}

/// `libc::SYS_vhangup`, which libc defines as 153 for x86-64 Linux (gnu/b64/x86_64/not_x32.rs).
#[verifier::external_body]
fn sys_vhangup() -> (r: i64)
    ensures
        r == 153,
{
    libc::SYS_vhangup
}

/// `libc::SYS_fsync`, which libc defines as 74 for x86-64 Linux (gnu/b64/x86_64/not_x32.rs).
#[verifier::external_body]
fn sys_fsync() -> (r: i64)
    ensures
        r == 74,
{
    libc::SYS_fsync
}

/// `libc::SYS_getpgid`, which libc defines as 121 for x86-64 Linux (gnu/b64/x86_64/not_x32.rs).
#[verifier::external_body]
fn sys_getpgid() -> (r: i64)
    ensures
        r == 121,
{
    libc::SYS_getpgid
}

/// `libc::SYS_fchdir`, which libc defines as 81 for x86-64 Linux (gnu/b64/x86_64/not_x32.rs).
#[verifier::external_body]
fn sys_fchdir() -> (r: i64)
    ensures
        r == 81,
{
    libc::SYS_fchdir
}

/// `libc::SYS_personality`, which libc defines as 135 for x86-64 Linux (gnu/b64/x86_64/not_x32.rs).
#[verifier::external_body]
fn sys_personality() -> (r: i64)
    ensures
        r == 135,
{
    libc::SYS_personality
}

/// `libc::SYS_setfsuid`, which libc defines as 122 for x86-64 Linux (gnu/b64/x86_64/not_x32.rs).
#[verifier::external_body]
fn sys_setfsuid() -> (r: i64)
    ensures
        r == 122,
{
    libc::SYS_setfsuid
}

/// `libc::SYS_setfsgid`, which libc defines as 123 for x86-64 Linux (gnu/b64/x86_64/not_x32.rs).
#[verifier::external_body]
fn sys_setfsgid() -> (r: i64)
    ensures
        r == 123,
{
    libc::SYS_setfsgid
}

/// `libc::SYS_flock`, which libc defines as 73 for x86-64 Linux (gnu/b64/x86_64/not_x32.rs).
#[verifier::external_body]
fn sys_flock() -> (r: i64)
    ensures
        r == 73,
{
    libc::SYS_flock
}

/// `libc::SYS_msync`, which libc defines as 26 for x86-64 Linux (gnu/b64/x86_64/not_x32.rs).
#[verifier::external_body]
fn sys_msync() -> (r: i64)
    ensures
        r == 26,
{
    libc::SYS_msync
}

/// `libc::SYS_getsid`, which libc defines as 124 for x86-64 Linux (gnu/b64/x86_64/not_x32.rs).
#[verifier::external_body]
fn sys_getsid() -> (r: i64)
    ensures
        r == 124,
{
    libc::SYS_getsid
}

/// `libc::SYS_fdatasync`, which libc defines as 75 for x86-64 Linux (gnu/b64/x86_64/not_x32.rs).
#[verifier::external_body]
fn sys_fdatasync() -> (r: i64)
    ensures
        r == 75,
{
    libc::SYS_fdatasync
}

/// `libc::SYS_mlock`, which libc defines as 149 for x86-64 Linux (gnu/b64/x86_64/not_x32.rs).
#[verifier::external_body]
fn sys_mlock() -> (r: i64)
    ensures
        r == 149,
{
    libc::SYS_mlock
}

/// `libc::SYS_munlock`, which libc defines as 150 for x86-64 Linux (gnu/b64/x86_64/not_x32.rs).
#[verifier::external_body]
fn sys_munlock() -> (r: i64)
    ensures
        r == 150,
{
    libc::SYS_munlock
}

/// `libc::SYS_mlockall`, which libc defines as 151 for x86-64 Linux (gnu/b64/x86_64/not_x32.rs).
#[verifier::external_body]
fn sys_mlockall() -> (r: i64)
    ensures
        r == 151,
{
    libc::SYS_mlockall
}

/// `libc::SYS_munlockall`, which libc defines as 152 for x86-64 Linux (gnu/b64/x86_64/not_x32.rs).
#[verifier::external_body]
fn sys_munlockall() -> (r: i64)
    ensures
        r == 152,
{
    libc::SYS_munlockall
}

/// `libc::SYS_sched_getscheduler`, which libc defines as 145 for x86-64 Linux (gnu/b64/x86_64/not_x32.rs).
#[verifier::external_body]
fn sys_sched_getscheduler() -> (r: i64)
    ensures
        r == 145,
{
    libc::SYS_sched_getscheduler
}

/// `libc::SYS_sched_yield`, which libc defines as 24 for x86-64 Linux (gnu/b64/x86_64/not_x32.rs).
#[verifier::external_body]
fn sys_sched_yield() -> (r: i64)
    ensures
        r == 24,
{
    libc::SYS_sched_yield
}

/// `libc::SYS_sched_get_priority_max`, which libc defines as 146 for x86-64 Linux (gnu/b64/x86_64/not_x32.rs).
#[verifier::external_body]
fn sys_sched_get_priority_max() -> (r: i64)
    ensures
        r == 146,
{
    libc::SYS_sched_get_priority_max
}

/// `libc::SYS_sched_get_priority_min`, which libc defines as 147 for x86-64 Linux (gnu/b64/x86_64/not_x32.rs).
#[verifier::external_body]
fn sys_sched_get_priority_min() -> (r: i64)
    ensures
        r == 147,
{
    libc::SYS_sched_get_priority_min
}

/// `libc::SYS_mremap`, which libc defines as 25 for x86-64 Linux (gnu/b64/x86_64/not_x32.rs).
#[verifier::external_body]
fn sys_mremap() -> (r: i64)
    ensures
        r == 25,
{
    libc::SYS_mremap
}

/// `libc::SYS_setresuid`, which libc defines as 117 for x86-64 Linux (gnu/b64/x86_64/not_x32.rs).
#[verifier::external_body]
fn sys_setresuid() -> (r: i64)
    ensures
        r == 117,
{
    libc::SYS_setresuid
}

/// `libc::SYS_setresgid`, which libc defines as 119 for x86-64 Linux (gnu/b64/x86_64/not_x32.rs).
#[verifier::external_body]
fn sys_setresgid() -> (r: i64)
    ensures
        r == 119,
{
    libc::SYS_setresgid
}

/// `libc::SYS_rt_sigaction`, which libc defines as 13 for x86-64 Linux (gnu/b64/x86_64/not_x32.rs).
#[verifier::external_body]
fn sys_rt_sigaction() -> (r: i64)
    ensures
        r == 13,
{
    libc::SYS_rt_sigaction
}

/// `libc::SYS_rt_sigprocmask`, which libc defines as 14 for x86-64 Linux (gnu/b64/x86_64/not_x32.rs).
#[verifier::external_body]
fn sys_rt_sigprocmask() -> (r: i64)
    ensures
        r == 14,
{
    libc::SYS_rt_sigprocmask
}

/// `libc::SYS_rt_sigpending`, which libc defines as 127 for x86-64 Linux (gnu/b64/x86_64/not_x32.rs).
#[verifier::external_body]
fn sys_rt_sigpending() -> (r: i64)
    ensures
        r == 127,
{
    libc::SYS_rt_sigpending
}

/// `libc::SYS_fadvise64`, which libc defines as 221 for x86-64 Linux (gnu/b64/x86_64/not_x32.rs).
#[verifier::external_body]
fn sys_fadvise64() -> (r: i64)
    ensures
        r == 221,
{
    libc::SYS_fadvise64
}

/// `libc::SYS_exit_group`, which libc defines as 231 for x86-64 Linux (gnu/b64/x86_64/not_x32.rs).
#[verifier::external_body]
fn sys_exit_group() -> (r: i64)
    ensures
        r == 231,
{
    libc::SYS_exit_group
}

/// `libc::SYS_epoll_create`, which libc defines as 213 for x86-64 Linux (gnu/b64/x86_64/not_x32.rs).
#[verifier::external_body]
fn sys_epoll_create() -> (r: i64)
    ensures
        r == 213,
{
    libc::SYS_epoll_create
}

/// `libc::SYS_epoll_ctl`, which libc defines as 233 for x86-64 Linux (gnu/b64/x86_64/not_x32.rs).
#[verifier::external_body]
fn sys_epoll_ctl() -> (r: i64)
    ensures
        r == 233,
{
    libc::SYS_epoll_ctl
}

/// `libc::SYS_epoll_wait`, which libc defines as 232 for x86-64 Linux (gnu/b64/x86_64/not_x32.rs).
#[verifier::external_body]
fn sys_epoll_wait() -> (r: i64)
    ensures
        r == 232,
{
    libc::SYS_epoll_wait
}

/// `libc::SYS_set_tid_address`, which libc defines as 218 for x86-64 Linux (gnu/b64/x86_64/not_x32.rs).
#[verifier::external_body]
fn sys_set_tid_address() -> (r: i64)
    ensures
        r == 218,
{
    libc::SYS_set_tid_address
}

/// `libc::SYS_timer_create`, which libc defines as 222 for x86-64 Linux (gnu/b64/x86_64/not_x32.rs).
#[verifier::external_body]
fn sys_timer_create() -> (r: i64)
    ensures
        r == 222,
{
    libc::SYS_timer_create
}

/// `libc::SYS_timer_settime`, which libc defines as 223 for x86-64 Linux (gnu/b64/x86_64/not_x32.rs).
#[verifier::external_body]
fn sys_timer_settime() -> (r: i64)
    ensures
        r == 223,
{
    libc::SYS_timer_settime
}

/// `libc::SYS_timer_gettime`, which libc defines as 224 for x86-64 Linux (gnu/b64/x86_64/not_x32.rs).
#[verifier::external_body]
fn sys_timer_gettime() -> (r: i64)
    ensures
        r == 224,
{
    libc::SYS_timer_gettime
}

/// `libc::SYS_timer_delete`, which libc defines as 226 for x86-64 Linux (gnu/b64/x86_64/not_x32.rs).
#[verifier::external_body]
fn sys_timer_delete() -> (r: i64)
    ensures
        r == 226,
{
    libc::SYS_timer_delete
}

/// `libc::SYS_tgkill`, which libc defines as 234 for x86-64 Linux (gnu/b64/x86_64/not_x32.rs).
#[verifier::external_body]
fn sys_tgkill() -> (r: i64)
    ensures
        r == 234,
{
    libc::SYS_tgkill
}

/// `libc::SYS_inotify_init`, which libc defines as 253 for x86-64 Linux (gnu/b64/x86_64/not_x32.rs).
#[verifier::external_body]
fn sys_inotify_init() -> (r: i64)
    ensures
        r == 253,
{
    libc::SYS_inotify_init
}

/// `libc::SYS_inotify_rm_watch`, which libc defines as 255 for x86-64 Linux (gnu/b64/x86_64/not_x32.rs).
#[verifier::external_body]
fn sys_inotify_rm_watch() -> (r: i64)
    ensures
        r == 255,
{
    libc::SYS_inotify_rm_watch
}

/// `libc::SYS_pselect6`, which libc defines as 270 for x86-64 Linux (gnu/b64/x86_64/not_x32.rs).
#[verifier::external_body]
fn sys_pselect6() -> (r: i64)
    ensures
        r == 270,
{
    libc::SYS_pselect6
}

/// `libc::SYS_ppoll`, which libc defines as 271 for x86-64 Linux (gnu/b64/x86_64/not_x32.rs).
#[verifier::external_body]
fn sys_ppoll() -> (r: i64)
    ensures
        r == 271,
{
    libc::SYS_ppoll
}

/// `libc::SYS_sync_file_range`, which libc defines as 277 for x86-64 Linux (gnu/b64/x86_64/not_x32.rs).
#[verifier::external_body]
fn sys_sync_file_range() -> (r: i64)
    ensures
        r == 277,
{
    libc::SYS_sync_file_range
}

/// `libc::SYS_tee`, which libc defines as 276 for x86-64 Linux (gnu/b64/x86_64/not_x32.rs).
#[verifier::external_body]
fn sys_tee() -> (r: i64)
    ensures
        r == 276,
{
    libc::SYS_tee
}

/// `libc::SYS_sched_getaffinity`, which libc defines as 204 for x86-64 Linux (gnu/b64/x86_64/not_x32.rs).
#[verifier::external_body]
fn sys_sched_getaffinity() -> (r: i64)
    ensures
        r == 204,
{
    libc::SYS_sched_getaffinity
}

/// `libc::SYS_timerfd_create`, which libc defines as 283 for x86-64 Linux (gnu/b64/x86_64/not_x32.rs).
#[verifier::external_body]
fn sys_timerfd_create() -> (r: i64)
    ensures
        r == 283,
{
    libc::SYS_timerfd_create
}

/// `libc::SYS_eventfd`, which libc defines as 284 for x86-64 Linux (gnu/b64/x86_64/not_x32.rs).
#[verifier::external_body]
fn sys_eventfd() -> (r: i64)
    ensures
        r == 284,
{
    libc::SYS_eventfd
}

/// `libc::SYS_fallocate`, which libc defines as 285 for x86-64 Linux (gnu/b64/x86_64/not_x32.rs).
#[verifier::external_body]
fn sys_fallocate() -> (r: i64)
    ensures
        r == 285,
{
    libc::SYS_fallocate
}

/// `libc::SYS_eventfd2`, which libc defines as 290 for x86-64 Linux (gnu/b64/x86_64/not_x32.rs).
#[verifier::external_body]
fn sys_eventfd2() -> (r: i64)
    ensures
        r == 290,
{
    libc::SYS_eventfd2
}

/// `libc::SYS_epoll_create1`, which libc defines as 291 for x86-64 Linux (gnu/b64/x86_64/not_x32.rs).
#[verifier::external_body]
fn sys_epoll_create1() -> (r: i64)
    ensures
        r == 291,
{
    libc::SYS_epoll_create1
}

/// `libc::SYS_dup3`, which libc defines as 292 for x86-64 Linux (gnu/b64/x86_64/not_x32.rs).
#[verifier::external_body]
fn sys_dup3() -> (r: i64)
    ensures
        r == 292,
{
    libc::SYS_dup3
}

/// `libc::SYS_inotify_init1`, which libc defines as 294 for x86-64 Linux (gnu/b64/x86_64/not_x32.rs).
#[verifier::external_body]
fn sys_inotify_init1() -> (r: i64)
    ensures
        r == 294,
{
    libc::SYS_inotify_init1
}

/// `libc::SYS_syncfs`, which libc defines as 306 for x86-64 Linux (gnu/b64/x86_64/not_x32.rs).
#[verifier::external_body]
fn sys_syncfs() -> (r: i64)
    ensures
        r == 306,
{
    libc::SYS_syncfs
}

/// `libc::SYS_socket`, which libc defines as 41 for x86-64 Linux (gnu/b64/x86_64/not_x32.rs).
#[verifier::external_body]
fn sys_socket() -> (r: i64)
    ensures
        r == 41,
{
    libc::SYS_socket
}

/// `libc::SYS_listen`, which libc defines as 50 for x86-64 Linux (gnu/b64/x86_64/not_x32.rs).
#[verifier::external_body]
fn sys_listen() -> (r: i64)
    ensures
        r == 50,
{
    libc::SYS_listen
}

/// `libc::SYS_shutdown`, which libc defines as 48 for x86-64 Linux (gnu/b64/x86_64/not_x32.rs).
#[verifier::external_body]
fn sys_shutdown() -> (r: i64)
    ensures
        r == 48,
{
    libc::SYS_shutdown
}

/// `libc::SYS_mlock2`, which libc defines as 325 for x86-64 Linux (gnu/b64/x86_64/not_x32.rs).
#[verifier::external_body]
fn sys_mlock2() -> (r: i64)
    ensures
        r == 325,
{
    libc::SYS_mlock2
}

/// `libc::SYS_rseq`, which libc defines as 334 for x86-64 Linux (gnu/b64/x86_64/not_x32.rs).
#[verifier::external_body]
fn sys_rseq() -> (r: i64)
    ensures
        r == 334,
{
    libc::SYS_rseq
}

/// `libc::SYS_semget`, which libc defines as 64 for x86-64 Linux (gnu/b64/x86_64/not_x32.rs).
#[verifier::external_body]
fn sys_semget() -> (r: i64)
    ensures
        r == 64,
{
    libc::SYS_semget
}

/// `libc::SYS_shmget`, which libc defines as 29 for x86-64 Linux (gnu/b64/x86_64/not_x32.rs).
#[verifier::external_body]
fn sys_shmget() -> (r: i64)
    ensures
        r == 29,
{
    libc::SYS_shmget
}

/// `libc::SYS_msgget`, which libc defines as 68 for x86-64 Linux (gnu/b64/x86_64/not_x32.rs).
#[verifier::external_body]
fn sys_msgget() -> (r: i64)
    ensures
        r == 68,
{
    libc::SYS_msgget
}

/// `libc::SYS_close_range`, which libc defines as 436 for x86-64 Linux (gnu/b64/x86_64/not_x32.rs).
#[verifier::external_body]
fn sys_close_range() -> (r: i64)
    ensures
        r == 436,
{
    libc::SYS_close_range
}

/// The x86-64 number of an m68k system call that takes no pointer arguments and is
/// passed to the host as it is; `None` for every other call.
pub open spec fn host_number_of(m68k: u32) -> Option<i64> {
    match m68k {
        2 => Some(57i64),
        6 => Some(3i64),
        19 => Some(8i64),
        20 => Some(39i64),
        23 | 213 => Some(105i64),
        24 | 199 => Some(102i64),
        27 => Some(37i64),
        29 => Some(34i64),
        36 => Some(162i64),
        37 => Some(62i64),
        41 => Some(32i64),
        46 | 214 => Some(106i64),
        47 | 200 => Some(104i64),
        49 | 201 => Some(107i64),
        50 | 202 => Some(108i64),
        51 => Some(163i64),
        54 => Some(16i64),
        55 | 221 | 239 => Some(72i64),
        57 => Some(109i64),
        60 => Some(95i64),
        63 => Some(33i64),
        64 => Some(110i64),
        65 => Some(111i64),
        66 => Some(112i64),
        70 | 203 => Some(113i64),
        71 | 204 => Some(114i64),
        88 => Some(169i64),
        91 => Some(11i64),
        93 | 194 => Some(77i64),
        94 => Some(91i64),
        95 | 207 => Some(93i64),
        96 => Some(140i64),
        97 => Some(141i64),
        101 => Some(173i64),
        111 => Some(153i64),
        118 => Some(74i64),
        132 => Some(121i64),
        133 => Some(81i64),
        135 | 136 => Some(135i64),
        138 | 215 => Some(122i64),
        139 | 216 => Some(123i64),
        143 => Some(73i64),
        144 => Some(26i64),
        147 => Some(124i64),
        148 => Some(75i64),
        150 => Some(149i64),
        151 => Some(150i64),
        152 => Some(151i64),
        153 => Some(152i64),
        157 => Some(145i64),
        158 => Some(24i64),
        159 => Some(146i64),
        160 => Some(147i64),
        163 => Some(25i64),
        164 | 208 => Some(117i64),
        170 | 210 => Some(119i64),
        174 => Some(13i64),
        175 => Some(14i64),
        176 => Some(127i64),
        246 | 267 => Some(221i64),
        247 => Some(231i64),
        249 => Some(213i64),
        250 => Some(233i64),
        251 => Some(232i64),
        253 => Some(218i64),
        254 => Some(222i64),
        255 | 409 => Some(223i64),
        256 | 408 => Some(224i64),
        257 => Some(226i64),
        265 => Some(234i64),
        284 => Some(253i64),
        286 => Some(255i64),
        301 => Some(270i64),
        302 => Some(271i64),
        307 => Some(277i64),
        308 => Some(276i64),
        312 => Some(204i64),
        318 => Some(283i64),
        319 => Some(284i64),
        320 => Some(285i64),
        324 => Some(290i64),
        325 => Some(291i64),
        326 => Some(292i64),
        328 => Some(294i64),
        343 => Some(306i64),
        356 => Some(41i64),
        360 => Some(50i64),
        370 => Some(48i64),
        375 => Some(325i64),
        384 => Some(334i64),
        393 => Some(64i64),
        395 => Some(29i64),
        399 => Some(68i64),
        436 => Some(436i64),
        _ => None,
    }
}

/// The x86-64 number of an m68k system call that takes no pointer arguments.
pub fn host_syscall_number(m68k: u32) -> (r: Option<i64>)
    ensures
        r == host_number_of(m68k),
{
    match m68k {
        2 => Some(sys_fork()),
        6 => Some(sys_close()),
        19 => Some(sys_lseek()),
        20 => Some(sys_getpid()),
        23 | 213 => Some(sys_setuid()),
        24 | 199 => Some(sys_getuid()),
        27 => Some(sys_alarm()),
        29 => Some(sys_pause()),
        36 => Some(sys_sync()),
        37 => Some(sys_kill()),
        41 => Some(sys_dup()),
        46 | 214 => Some(sys_setgid()),
        47 | 200 => Some(sys_getgid()),
        49 | 201 => Some(sys_geteuid()),
        50 | 202 => Some(sys_getegid()),
        51 => Some(sys_acct()),
        54 => Some(sys_ioctl()),
        55 | 221 | 239 => Some(sys_fcntl()),
        57 => Some(sys_setpgid()),
        60 => Some(sys_umask()),
        63 => Some(sys_dup2()),
        64 => Some(sys_getppid()),
        65 => Some(sys_getpgrp()),
        66 => Some(sys_setsid()),
        70 | 203 => Some(sys_setreuid()),
        71 | 204 => Some(sys_setregid()),
        88 => Some(sys_reboot()),
        91 => Some(sys_munmap()),
        93 | 194 => Some(sys_ftruncate()),
        94 => Some(sys_fchmod()),
        95 | 207 => Some(sys_fchown()),
        96 => Some(sys_getpriority()),
        97 => Some(sys_setpriority()),
        101 => Some(sys_ioperm()),
        111 => Some(sys_vhangup()),
        118 => Some(sys_fsync()),
        132 => Some(sys_getpgid()),
        133 => Some(sys_fchdir()),
        135 | 136 => Some(sys_personality()),
        138 | 215 => Some(sys_setfsuid()),
        139 | 216 => Some(sys_setfsgid()),
        143 => Some(sys_flock()),
        144 => Some(sys_msync()),
        147 => Some(sys_getsid()),
        148 => Some(sys_fdatasync()),
        150 => Some(sys_mlock()),
        151 => Some(sys_munlock()),
        152 => Some(sys_mlockall()),
        153 => Some(sys_munlockall()),
        157 => Some(sys_sched_getscheduler()),
        158 => Some(sys_sched_yield()),
        159 => Some(sys_sched_get_priority_max()),
        160 => Some(sys_sched_get_priority_min()),
        163 => Some(sys_mremap()),
        164 | 208 => Some(sys_setresuid()),
        170 | 210 => Some(sys_setresgid()),
        174 => Some(sys_rt_sigaction()),
        175 => Some(sys_rt_sigprocmask()),
        176 => Some(sys_rt_sigpending()),
        246 | 267 => Some(sys_fadvise64()),
        247 => Some(sys_exit_group()),
        249 => Some(sys_epoll_create()),
        250 => Some(sys_epoll_ctl()),
        251 => Some(sys_epoll_wait()),
        253 => Some(sys_set_tid_address()),
        254 => Some(sys_timer_create()),
        255 | 409 => Some(sys_timer_settime()),
        256 | 408 => Some(sys_timer_gettime()),
        257 => Some(sys_timer_delete()),
        265 => Some(sys_tgkill()),
        284 => Some(sys_inotify_init()),
        286 => Some(sys_inotify_rm_watch()),
        301 => Some(sys_pselect6()),
        302 => Some(sys_ppoll()),
        307 => Some(sys_sync_file_range()),
        308 => Some(sys_tee()),
        312 => Some(sys_sched_getaffinity()),
        318 => Some(sys_timerfd_create()),
        319 => Some(sys_eventfd()),
        320 => Some(sys_fallocate()),
        324 => Some(sys_eventfd2()),
        325 => Some(sys_epoll_create1()),
        326 => Some(sys_dup3()),
        328 => Some(sys_inotify_init1()),
        343 => Some(sys_syncfs()),
        356 => Some(sys_socket()),
        360 => Some(sys_listen()),
        370 => Some(sys_shutdown()),
        375 => Some(sys_mlock2()),
        384 => Some(sys_rseq()),
        393 => Some(sys_semget()),
        395 => Some(sys_shmget()),
        399 => Some(sys_msgget()),
        436 => Some(sys_close_range()),
        _ => None,
    }
}

} // verus!
