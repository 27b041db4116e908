//! Constants of the host C library that the interpreter's rules use, as libc
//! defines them for Linux.

use vstd::prelude::*;

verus! {

/// `libc::IPC_RMID`, which libc defines as 0 for Linux (linux_l4re_shared.rs).
#[verifier::external_body]
pub(crate) fn ipc_rmid() -> (r: i32)
    ensures
        r == 0,
{
    libc::IPC_RMID
}

/// `libc::IPC_SET`, which libc defines as 1 for Linux (linux_l4re_shared.rs).
#[verifier::external_body]
pub(crate) fn ipc_set() -> (r: i32)
    ensures
        r == 1,
{
    libc::IPC_SET
}

/// `libc::IPC_STAT`, which libc defines as 2 for Linux (linux_l4re_shared.rs); the
/// other value there, 0x102, is only for musl targets with 32-bit `time_t`
/// redirected to 64 bits, which the x86-64 glibc host is not.
#[verifier::external_body]
pub(crate) fn ipc_stat() -> (r: i32)
    ensures
        r == 2,
{
    libc::IPC_STAT
}

/// `libc::EPERM`, which libc defines as 1 for Linux (linux_l4re_shared.rs).
#[verifier::external_body]
pub(crate) fn eperm() -> (r: i32)
    ensures
        r == 1,
{
    libc::EPERM
}

/// `libc::SHM_RDONLY`, which libc defines as 0o10000 for Linux
/// (linux_l4re_shared.rs).
#[verifier::external_body]
pub(crate) fn shm_rdonly() -> (r: i32)
    ensures
        r == 0o10000,
{
    libc::SHM_RDONLY
}

} // verus!
