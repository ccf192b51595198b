//! Program loader: places the user binary and the user stack into a user
//! address space.
//!
//! The code region is rounded up to whole pages and mapped readable,
//! writable (so the image can be copied into its backing), executable and
//! user-accessible; the copy is bounds-checked against the mapping. The
//! stack is a fixed-size region flush against the top of the address space,
//! mapped without execute permission, and its top — the initial user stack
//! pointer — is returned.

use vstd::prelude::*;

use crate::PAGE_SIZE;
use crate::USER_STACK_SIZE;
use crate::aspace::AddrSpace;
use crate::aspace::MapEntry;
use crate::aspace::MappingFlags;
use crate::aspace::covers;
use crate::aspace::lemma_cover_unique;
use crate::error::KernelError;
use crate::lemma_aligned_sub;
use crate::lemma_rounded_up;
use crate::page_aligned;
use crate::phys::PhysMemory;
use crate::rounded_up;

verus! {

/// Maps enough pages for `image` at `load_addr` with code permissions and
/// copies the image byte for byte into the fresh physical backing; the tail
/// of the last page stays zeroed.
///
/// Fails with `KernelError::Mapping` when the rounded range is not a valid
/// page-aligned range inside the space or overlaps an existing mapping, and
/// with `KernelError::Allocation` when physical memory is exhausted; on
/// failure nothing changes. These failures are fatal to the caller: they
/// mean the fixed layout is misconfigured, not a transient condition.
pub fn load_program(
    space: &mut AddrSpace,
    mem: &mut PhysMemory,
    image: &Vec<u8>,
    load_addr: usize,
) -> (r: Result<(), KernelError>)
    requires
        old(space).wf(),
        old(mem).wf(),
        image@.len() > 0,
        image@.len() + PAGE_SIZE <= usize::MAX,
    ensures
        final(space).wf(),
        final(mem).wf(),
        final(space).base() == old(space).base(),
        final(space).size() == old(space).size(),
        final(space).root() == old(space).root(),
        final(mem).capacity() == old(mem).capacity(),
        r is Ok <==> {
            &&& old(space).valid_user_range(load_addr as int, rounded_up(image@.len() as int))
            &&& !old(space).overlaps_existing(
                load_addr as int,
                rounded_up(image@.len() as int),
            )
            &&& old(mem).mem().len() + rounded_up(image@.len() as int) <= old(mem).capacity()
        },
        r == Err::<(), KernelError>(KernelError::Mapping) <==> {
            ||| !old(space).valid_user_range(load_addr as int, rounded_up(image@.len() as int))
            ||| old(space).overlaps_existing(load_addr as int, rounded_up(image@.len() as int))
        },
        r == Err::<(), KernelError>(KernelError::Allocation) <==> {
            &&& old(space).valid_user_range(load_addr as int, rounded_up(image@.len() as int))
            &&& !old(space).overlaps_existing(load_addr as int, rounded_up(image@.len() as int))
            &&& old(mem).mem().len() + rounded_up(image@.len() as int) > old(mem).capacity()
        },
        r is Err ==> *final(space) == *old(space) && *final(mem) == *old(mem),
        r is Ok ==> {
            &&& final(space).mappings() == old(space).mappings().push(
                MapEntry {
                    start: load_addr,
                    size: rounded_up(image@.len() as int) as usize,
                    paddr: old(mem).mem().len() as usize,
                    flags: MappingFlags { read: true, write: true, execute: true, user: true },
                },
            )
            &&& forall|va: int|
                load_addr <= va < load_addr + image@.len() ==> #[trigger] final(space).mapped_at(
                    va,
                )
            &&& forall|va: int|
                load_addr <= va < load_addr + image@.len() ==> #[trigger] final(space).flags_at(va)
                    == (MappingFlags { read: true, write: true, execute: true, user: true })
            &&& forall|va: int|
                load_addr <= va < load_addr + image@.len() ==> #[trigger] final(space).translate(
                    va,
                ) == old(mem).mem().len() + (va - load_addr)
            &&& forall|va: int|
                load_addr <= va < load_addr + image@.len() ==> final(mem).byte_at(
                    #[trigger] final(space).translate(va),
                ) == image@[va - load_addr]
            &&& final(mem).mem().len() == old(mem).mem().len() + rounded_up(image@.len() as int)
            &&& forall|a: int|
                0 <= a < old(mem).mem().len() ==> final(mem).byte_at(a) == old(mem).byte_at(a)
        },
{
    let n = image.len();
    proof {
        lemma_rounded_up(n as int);
    }
    let pages = (n + (PAGE_SIZE - 1)) / PAGE_SIZE;
    let rsize = pages * PAGE_SIZE;
    match space.map_region(load_addr, rsize, MappingFlags::code(), mem) {
        Ok(()) => {},
        Err(e) => {
            return Err(e);
        },
    }
    // Resolve the physical backing of the mapping just installed.
    let looked_up = space.query(load_addr);
    proof {
        let s = *space;
        let last = s.mappings().len() - 1;
        assert(covers(s.mappings()[last], load_addr as int));
        assert(s.mapped_at(load_addr as int));
        let j = s.covering_index(load_addr as int);
        assert(0 <= j < s.mappings().len() && covers(s.mappings()[j], load_addr as int));
        lemma_cover_unique(s, j, last, load_addr as int);
    }
    let paddr = match looked_up {
        Some((p, _)) => p,
        None => {
            proof {
                assert(false);
            }
            return Err(KernelError::Mapping);
        },
    };
    // Copy the image into the backing just allocated.
    mem.write_bytes(paddr, image);
    proof {
        let s = *space;
        let m = s.mappings();
        let last = m.len() - 1;
        assert forall|va: int| load_addr <= va < load_addr + image@.len() implies #[trigger] s.mapped_at(
            va,
        ) by {
            assert(covers(m[last], va));
        }
        assert forall|va: int| load_addr <= va < load_addr + image@.len() implies #[trigger] s.flags_at(
            va,
        ) == (MappingFlags { read: true, write: true, execute: true, user: true })
            && #[trigger] s.translate(va) == old(mem).mem().len() + (va - load_addr) by {
            assert(covers(m[last], va));
            assert(s.mapped_at(va));
            let j = s.covering_index(va);
            assert(0 <= j < m.len() && covers(m[j], va));
            lemma_cover_unique(s, j, last, va);
        }
        assert forall|va: int| load_addr <= va < load_addr + image@.len() implies final(
            mem
        ).byte_at(#[trigger] s.translate(va)) == image@[va - load_addr] by {
            assert(s.translate(va) == paddr + (va - load_addr));
            assert(final(mem).byte_at(paddr + (va - load_addr)) == image@[va - load_addr]);
        }
    }
    Ok(())
}

/// Maps the fixed-size user stack flush against the top of the address
/// space — readable, writable, user-accessible and never executable — and
/// returns the page-aligned address one past its highest byte, the initial
/// user stack pointer.
///
/// Fails with `KernelError::Mapping` when the stack range overlaps an
/// existing mapping and with `KernelError::Allocation` when physical memory
/// is exhausted; on failure nothing changes.
pub fn init_stack(space: &mut AddrSpace, mem: &mut PhysMemory) -> (r: Result<usize, KernelError>)
    requires
        old(space).wf(),
        old(mem).wf(),
        old(space).size() >= USER_STACK_SIZE,
    ensures
        final(space).wf(),
        final(mem).wf(),
        final(space).base() == old(space).base(),
        final(space).size() == old(space).size(),
        final(space).root() == old(space).root(),
        final(mem).capacity() == old(mem).capacity(),
        r is Ok <==> {
            &&& !old(space).overlaps_existing(
                old(space).end_spec() - USER_STACK_SIZE,
                USER_STACK_SIZE as int,
            )
            &&& old(mem).mem().len() + USER_STACK_SIZE <= old(mem).capacity()
        },
        r == Err::<usize, KernelError>(KernelError::Mapping) <==> old(space).overlaps_existing(
            old(space).end_spec() - USER_STACK_SIZE,
            USER_STACK_SIZE as int,
        ),
        r == Err::<usize, KernelError>(KernelError::Allocation) <==> {
            &&& !old(space).overlaps_existing(
                old(space).end_spec() - USER_STACK_SIZE,
                USER_STACK_SIZE as int,
            )
            &&& old(mem).mem().len() + USER_STACK_SIZE > old(mem).capacity()
        },
        r is Err ==> *final(space) == *old(space) && *final(mem) == *old(mem),
        r matches Ok(top) ==> {
            &&& top as int == old(space).end_spec()
            &&& page_aligned(top as int)
            &&& final(space).mappings() == old(space).mappings().push(
                MapEntry {
                    start: (old(space).end_spec() - USER_STACK_SIZE) as usize,
                    size: USER_STACK_SIZE,
                    paddr: old(mem).mem().len() as usize,
                    flags: MappingFlags { read: true, write: true, execute: false, user: true },
                },
            )
            &&& forall|va: int|
                top - USER_STACK_SIZE <= va < top ==> #[trigger] final(space).mapped_at(va)
            &&& forall|va: int|
                top - USER_STACK_SIZE <= va < top ==> #[trigger] final(space).flags_at(va)
                    == (MappingFlags { read: true, write: true, execute: false, user: true })
            &&& final(mem).mem().len() == old(mem).mem().len() + USER_STACK_SIZE
            &&& forall|a: int|
                0 <= a < old(mem).mem().len() ==> final(mem).byte_at(a) == old(mem).byte_at(a)
        },
{
    let top = space.end();
    let stack_base = top - USER_STACK_SIZE;
    proof {
        lemma_aligned_sub(top as int, USER_STACK_SIZE as int);
    }
    match space.map_region(stack_base, USER_STACK_SIZE, MappingFlags::stack(), mem) {
        Ok(()) => {},
        Err(e) => {
            return Err(e);
        },
    }
    proof {
        let s = *space;
        let m = s.mappings();
        let last = m.len() - 1;
        assert forall|va: int| top - USER_STACK_SIZE <= va < top implies #[trigger] s.mapped_at(
            va,
        ) by {
            assert(covers(m[last], va));
        }
        assert forall|va: int| top - USER_STACK_SIZE <= va < top implies #[trigger] s.flags_at(va)
            == (MappingFlags { read: true, write: true, execute: false, user: true }) by {
            assert(covers(m[last], va));
            assert(s.mapped_at(va));
            let j = s.covering_index(va);
            assert(0 <= j < m.len() && covers(m[j], va));
            lemma_cover_unique(s, j, last, va);
        }
    }
    Ok(top)
}

} // verus!
