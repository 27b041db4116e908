//! The ELF segment types and permission bits, as goblin defines them.

use vstd::prelude::*;

verus! {

/// Execute permission of a segment.
pub open spec fn flag_x() -> u32 {
    1
}

/// Write permission of a segment.
pub open spec fn flag_w() -> u32 {
    2
}

/// Read permission of a segment.
pub open spec fn flag_r() -> u32 {
    4
}

/// `goblin::elf::program_header::PF_X`, which goblin defines as bit 0 (`1 << 0`).
#[verifier::external_body]
pub(crate) fn pf_x() -> (r: u32)
    ensures
        r == flag_x(),
{
    goblin::elf::program_header::PF_X
}

/// `goblin::elf::program_header::PF_W`, which goblin defines as bit 1 (`1 << 1`).
#[verifier::external_body]
pub(crate) fn pf_w() -> (r: u32)
    ensures
        r == flag_w(),
{
    goblin::elf::program_header::PF_W
}

/// `goblin::elf::program_header::PF_R`, which goblin defines as bit 2 (`1 << 2`).
#[verifier::external_body]
pub(crate) fn pf_r() -> (r: u32)
    ensures
        r == flag_r(),
{
    goblin::elf::program_header::PF_R
}

/// Type of a loadable segment.
pub open spec fn type_load() -> u32 {
    1
}

/// Type of the thread-local storage template.
pub open spec fn type_tls() -> u32 {
    7
}

/// `goblin::elf::program_header::PT_LOAD`, which goblin defines as 1.
#[verifier::external_body]
pub(crate) fn pt_load() -> (r: u32)
    ensures
        r == type_load(),
{
    goblin::elf::program_header::PT_LOAD
}

/// `goblin::elf::program_header::PT_TLS`, which goblin defines as 7.
#[verifier::external_body]
pub(crate) fn pt_tls() -> (r: u32)
    ensures
        r == type_tls(),
{
    goblin::elf::program_header::PT_TLS
}

} // verus!
