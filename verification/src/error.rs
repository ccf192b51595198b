//! Error taxonomy of the execution core.

use vstd::prelude::*;

verus! {

/// Failures surfaced while building a user process.
///
/// `Allocation` reports exhaustion of physical backing or page-table storage;
/// `Mapping` reports a requested virtual range that is invalid or already
/// occupied; `MappingConflict` reports a kernel range that collides with an
/// existing entry while kernel mappings are imported. All three are fatal to
/// process construction: the fixed layout is misconfigured, so nothing
/// retries them. An unimplemented syscall is not an error of this kind — it
/// is reported to the user process through its return-value register.
#[derive(Clone, Copy, Debug, PartialEq, Eq, Structural)]
pub enum KernelError {
    Allocation,
    Mapping,
    MappingConflict,
}

} // verus!
