//! Execution core of a minimal monolithic guest kernel.
//!
//! The crate models the machinery that runs a single user process: physical
//! page allocation, a user address space made of page-aligned mappings, a
//! loader that copies a program image into freshly allocated backing, the
//! saved user-mode context, and the syscall dispatch loop that decides, trap
//! by trap, how the user task proceeds until it exits.
//!
//! The privileged operations themselves — installing page tables in hardware,
//! entering user mode, scheduling — belong to the surrounding runtime; this
//! crate holds the layout rules, the mapping bookkeeping and the dispatch
//! decisions, each with a proved contract.

#![verifier::loop_isolation(false)]

use vstd::prelude::*;

pub mod aspace;
pub mod dispatch;
pub mod error;
pub mod loader;
pub mod phys;
pub mod process;
pub mod uctx;

verus! {

/// Size in bytes of one page of physical or virtual memory.
pub const PAGE_SIZE: usize = 0x1000;

/// Size in bytes of the user stack region.
pub const USER_STACK_SIZE: usize = 0x10000;

/// Size in bytes of the kernel-side execution stack of the dispatcher task.
pub const KERNEL_STACK_SIZE: usize = 0x40000;

/// Virtual address at which the user program image is loaded.
pub const APP_ENTRY: usize = 0x1000;

/// Lowest virtual address of the user address space.
pub const USER_ASPACE_BASE: usize = 0x0;

/// Size in bytes of the user address space (a flat 1 GiB region).
pub const USER_ASPACE_SIZE: usize = 0x4000_0000;

/// Syscall number of the sole implemented syscall, process exit.
pub const SYS_EXIT: usize = 93;

/// Value placed in the return-value register for an unimplemented syscall:
/// the two's-complement encoding of the negated "function not implemented"
/// error code, -38.
pub const ENOSYS_RETVAL: usize = usize::MAX - 37;

/// Holds when `addr` lies on a page boundary.
pub open spec fn page_aligned(addr: int) -> bool {
    addr % (PAGE_SIZE as int) == 0
}

/// Number of bytes occupied by `len` bytes rounded up to whole pages.
pub open spec fn rounded_up(len: int) -> int {
    ((len + PAGE_SIZE - 1) / (PAGE_SIZE as int)) * (PAGE_SIZE as int)
}

/// Rounding up to whole pages yields a page-aligned size that is at least
/// `len` and adds less than one page of padding.
pub proof fn lemma_rounded_up(len: int)
    requires
        0 <= len,
    ensures
        page_aligned(rounded_up(len)),
        len <= rounded_up(len) < len + PAGE_SIZE,
        len > 0 ==> rounded_up(len) > 0,
{
    let p = PAGE_SIZE as int;
    let q = (len + p - 1) / p;
    vstd::arithmetic::div_mod::lemma_fundamental_div_mod(len + p - 1, p);
    assert(q * p == rounded_up(len));
    vstd::arithmetic::div_mod::lemma_mod_multiples_basic(q, p);
}

/// The sum of two page-aligned addresses is page-aligned.
pub proof fn lemma_aligned_add(a: int, b: int)
    requires
        page_aligned(a),
        page_aligned(b),
    ensures
        page_aligned(a + b),
{
    vstd::arithmetic::div_mod::lemma_add_mod_noop(a, b, PAGE_SIZE as int);
}

/// The difference of two page-aligned addresses is page-aligned.
pub proof fn lemma_aligned_sub(a: int, b: int)
    requires
        page_aligned(a),
        page_aligned(b),
    ensures
        page_aligned(a - b),
{
    vstd::arithmetic::div_mod::lemma_sub_mod_noop(a, b, PAGE_SIZE as int);
}

} // verus!
