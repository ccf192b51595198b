//! Process supervisor: builds the whole user process — address space with
//! kernel mappings, loaded program, stack, user context, page-table-root
//! binding — and observes its termination.

use vstd::prelude::*;

use crate::PAGE_SIZE;
use crate::USER_ASPACE_BASE;
use crate::USER_ASPACE_SIZE;
use crate::USER_STACK_SIZE;
use crate::aspace::AddrSpace;
use crate::aspace::MapEntry;
use crate::aspace::MappingFlags;
use crate::aspace::backed_within;
use crate::aspace::covers;
use crate::aspace::lemma_cover_unique;
use crate::aspace::lemma_overlaps_push;
use crate::aspace::lemma_overlaps_same_mappings;
use crate::aspace::ranges_overlap;
use crate::dispatch::RunOutcome;
use crate::dispatch::outcome_of;
use crate::dispatch::run_user_task;
use crate::error::KernelError;
use crate::loader::init_stack;
use crate::loader::load_program;
use crate::page_aligned;
use crate::phys::PhysMemory;
use crate::rounded_up;
use crate::uctx::TrapEvent;
use crate::uctx::UserContext;

verus! {

/// A fully built user process: its address space, its initial user
/// context, and the page-table root bound to the task.
pub struct UserProcess {
    pub space: AddrSpace,
    pub uctx: UserContext,
    pub pt_root: usize,
}

impl UserProcess {
    /// Task invariant: the bound page-table root is the address space's
    /// root — so the scheduler installs the right page table on every
    /// switch — and the context's stack pointer sits at the top of the
    /// space.
    pub open spec fn wf(self) -> bool {
        &&& self.space.wf()
        &&& self.pt_root as int == self.space.root()
        &&& self.uctx.sp as int == self.space.end_spec()
    }
}

/// Owner's handle to a spawned user task. It is not copyable: joining
/// consumes it, so the exit status is reported exactly once.
pub struct ProcessHandle {
    pub proc: UserProcess,
}

/// The code mapping a successful spawn installs: the image rounded up to
/// whole pages at `entry`, backed just above the page-table root frame.
pub open spec fn spawn_code_entry(image_len: int, entry: usize, mem: PhysMemory) -> MapEntry {
    MapEntry {
        start: entry,
        size: rounded_up(image_len) as usize,
        paddr: (mem.mem().len() + PAGE_SIZE) as usize,
        flags: MappingFlags { read: true, write: true, execute: true, user: true },
    }
}

/// The stack mapping a successful spawn installs: `USER_STACK_SIZE` bytes
/// flush against the top of the user region, never executable, backed just
/// above the code pages.
pub open spec fn spawn_stack_entry(image_len: int, mem: PhysMemory) -> MapEntry {
    MapEntry {
        start: (USER_ASPACE_BASE + USER_ASPACE_SIZE - USER_STACK_SIZE) as usize,
        size: USER_STACK_SIZE,
        paddr: (mem.mem().len() + PAGE_SIZE + rounded_up(image_len)) as usize,
        flags: MappingFlags { read: true, write: true, execute: false, user: true },
    }
}

/// Holds when the fixed layout accepts the program: the rounded code range
/// is page-aligned and inside the user region, and neither it nor the
/// stack range collides with a kernel mapping or with the other.
pub open spec fn spawn_layout_ok(kernel: AddrSpace, image_len: int, entry: int) -> bool {
    let rs = rounded_up(image_len);
    let sb = USER_ASPACE_BASE + USER_ASPACE_SIZE - USER_STACK_SIZE;
    &&& page_aligned(entry)
    &&& USER_ASPACE_BASE <= entry
    &&& entry + rs <= USER_ASPACE_BASE + USER_ASPACE_SIZE
    &&& !kernel.overlaps_existing(entry, rs)
    &&& !kernel.overlaps_existing(sb, USER_STACK_SIZE as int)
    &&& !ranges_overlap(sb, USER_STACK_SIZE as int, entry, rs)
}

/// Holds when the code range itself is acceptable, before the stack is
/// considered — the condition under which loading proceeds far enough to
/// need backing.
pub open spec fn spawn_code_ok(kernel: AddrSpace, image_len: int, entry: int) -> bool {
    let rs = rounded_up(image_len);
    &&& page_aligned(entry)
    &&& USER_ASPACE_BASE <= entry
    &&& entry + rs <= USER_ASPACE_BASE + USER_ASPACE_SIZE
    &&& !kernel.overlaps_existing(entry, rs)
}

/// Holds when `mem` can back the whole process: one page-table root frame,
/// the rounded code pages and the stack.
pub open spec fn spawn_ok(kernel: AddrSpace, image_len: int, entry: int, mem: PhysMemory) -> bool {
    &&& spawn_layout_ok(kernel, image_len, entry)
    &&& mem.mem().len() + PAGE_SIZE + rounded_up(image_len) + USER_STACK_SIZE <= mem.capacity()
}

/// Builds a user process around `image`: creates the 1 GiB user address
/// space, imports the kernel's mappings into it, loads the program at
/// `entry`, maps the stack, binds the page-table root, and returns the
/// handle a supervisor joins on.
///
/// Succeeds exactly when the fixed layout accepts the program and physical
/// memory suffices (`spawn_ok`); `KernelError::Mapping` reports a layout
/// collision, `KernelError::Allocation` exhausted memory, and on any
/// failure the bytes already allocated in `mem` keep their values.
pub fn spawn_user_process(
    mem: &mut PhysMemory,
    kernel: &AddrSpace,
    image: &Vec<u8>,
    entry: usize,
) -> (r: Result<ProcessHandle, KernelError>)
    requires
        old(mem).wf(),
        kernel.wf(),
        image@.len() > 0,
        image@.len() + PAGE_SIZE <= usize::MAX,
    ensures
        final(mem).wf(),
        final(mem).capacity() == old(mem).capacity(),
        forall|a: int|
            0 <= a < old(mem).mem().len() ==> final(mem).byte_at(a) == old(mem).byte_at(a),
        r is Ok <==> spawn_ok(*kernel, image@.len() as int, entry as int, *old(mem)),
        r == Err::<ProcessHandle, KernelError>(KernelError::Mapping) <==> {
            &&& old(mem).mem().len() + PAGE_SIZE <= old(mem).capacity()
            &&& {
                ||| !spawn_code_ok(*kernel, image@.len() as int, entry as int)
                ||| {
                    &&& spawn_code_ok(*kernel, image@.len() as int, entry as int)
                    &&& old(mem).mem().len() + PAGE_SIZE + rounded_up(image@.len() as int) <= old(
                        mem,
                    ).capacity()
                    &&& !spawn_layout_ok(*kernel, image@.len() as int, entry as int)
                }
            }
        },
        r matches Err(e) ==> e != KernelError::MappingConflict,
        r matches Ok(h) ==> {
            let p = h.proc;
            let code_e = spawn_code_entry(image@.len() as int, entry, *old(mem));
            let stack_e = spawn_stack_entry(image@.len() as int, *old(mem));
            &&& p.wf()
            &&& p.space.base() == USER_ASPACE_BASE
            &&& p.space.size() == USER_ASPACE_SIZE
            &&& p.space.root() == old(mem).mem().len()
            &&& p.uctx == (UserContext {
                pc: entry,
                sp: (USER_ASPACE_BASE + USER_ASPACE_SIZE) as usize,
                arg0: 0,
                retval: 0,
            })
            &&& p.space.mappings() == kernel.mappings().push(code_e).push(stack_e)
            &&& backed_within(
                code_e,
                old(mem).mem().len() as int,
                final(mem).mem().len() as int,
            )
            &&& backed_within(
                stack_e,
                old(mem).mem().len() as int,
                final(mem).mem().len() as int,
            )
            &&& forall|va: int|
                entry <= va < entry + image@.len() ==> #[trigger] p.space.mapped_at(va)
            &&& forall|va: int|
                entry <= va < entry + image@.len() ==> #[trigger] p.space.translate(va)
                    == code_e.paddr + (va - entry)
            &&& forall|va: int|
                entry <= va < entry + image@.len() ==> final(mem).byte_at(
                    #[trigger] p.space.translate(va),
                ) == image@[va - entry]
            &&& forall|va: int|
                USER_ASPACE_BASE + USER_ASPACE_SIZE - USER_STACK_SIZE <= va < USER_ASPACE_BASE
                    + USER_ASPACE_SIZE ==> #[trigger] p.space.mapped_at(va) && #[trigger] p.space.flags_at(
                    va,
                ) == (MappingFlags { read: true, write: true, execute: false, user: true })
            &&& final(mem).mem().len() == old(mem).mem().len() + PAGE_SIZE + rounded_up(
                image@.len() as int,
            ) + USER_STACK_SIZE
        },
{
    let ghost l0 = old(mem).mem().len() as int;
    let ghost rs = rounded_up(image@.len() as int);
    let ghost stz = USER_STACK_SIZE as int;
    let ghost sb = USER_ASPACE_BASE + USER_ASPACE_SIZE - USER_STACK_SIZE;
    proof {
        crate::lemma_rounded_up(image@.len() as int);
    }
    // Address space with the kernel's mappings imported.
    let mut space = match AddrSpace::new_empty(USER_ASPACE_BASE, USER_ASPACE_SIZE, mem) {
        Ok(s) => s,
        Err(e) => {
            return Err(e);
        },
    };
    match space.copy_mappings_from(kernel) {
        Ok(()) => {},
        Err(e) => {
            proof {
                assert(false);
            }
            return Err(e);
        },
    }
    proof {
        lemma_overlaps_same_mappings(space, *kernel, entry as int, rs);
        lemma_overlaps_same_mappings(space, *kernel, sb, stz);
    }
    let ghost space1 = space;
    // Program code.
    match load_program(&mut space, mem, image, entry) {
        Ok(()) => {},
        Err(e) => {
            return Err(e);
        },
    }
    let ghost code_e = spawn_code_entry(image@.len() as int, entry, *old(mem));
    proof {
        assert(space.mappings() == kernel.mappings().push(code_e));
        lemma_overlaps_push(space1, space, code_e, sb, stz);
    }
    let ghost space2 = space;
    // User stack.
    let top = match init_stack(&mut space, mem) {
        Ok(t) => t,
        Err(e) => {
            return Err(e);
        },
    };
    let ghost stack_e = spawn_stack_entry(image@.len() as int, *old(mem));
    proof {
        assert(space.mappings() == kernel.mappings().push(code_e).push(stack_e));
    }
    // User context and page-table-root binding.
    let uctx = UserContext::new(entry, top, 0);
    let pt_root = space.page_table_root();
    proof {
        let s = space;
        let m = s.mappings();
        let ci = m.len() - 2;
        assert(m[ci] == code_e);
        assert forall|va: int| entry <= va < entry + image@.len() implies #[trigger] s.mapped_at(
            va,
        ) by {
            assert(covers(m[ci], va));
        }
        assert forall|va: int| entry <= va < entry + image@.len() implies #[trigger] s.translate(
            va,
        ) == code_e.paddr + (va - entry) by {
            assert(covers(m[ci], va));
            assert(s.mapped_at(va));
            let j = s.covering_index(va);
            assert(0 <= j < m.len() && covers(m[j], va));
            lemma_cover_unique(s, j, ci, va);
        }
        assert forall|va: int| entry <= va < entry + image@.len() implies final(mem).byte_at(
            #[trigger] s.translate(va),
        ) == image@[va - entry] by {
            assert(s.translate(va) == code_e.paddr + (va - entry));
            assert(space2.translate(va) == code_e.paddr + (va - entry));
        }
    }
    Ok(ProcessHandle { proc: UserProcess { space, uctx, pt_root } })
}

/// Blocks until the user task has run through `events` and returns how it
/// ended. Consuming the handle, it reports the status exactly once; the
/// wait is unbounded by design — the system's lifetime is the process's
/// lifetime.
pub fn join(handle: ProcessHandle, events: &Vec<TrapEvent>) -> (r: RunOutcome)
    ensures
        r == outcome_of(events@),
{
    let mut ctx = handle.proc.uctx;
    run_user_task(&mut ctx, events)
}

/// The whole guest run: builds the user process and drives it through its
/// trap sequence, returning the outcome the supervisor observes.
pub fn run_guest(
    mem: &mut PhysMemory,
    kernel: &AddrSpace,
    image: &Vec<u8>,
    entry: usize,
    events: &Vec<TrapEvent>,
) -> (r: Result<RunOutcome, KernelError>)
    requires
        old(mem).wf(),
        kernel.wf(),
        image@.len() > 0,
        image@.len() + PAGE_SIZE <= usize::MAX,
    ensures
        final(mem).wf(),
        final(mem).capacity() == old(mem).capacity(),
        forall|a: int|
            0 <= a < old(mem).mem().len() ==> final(mem).byte_at(a) == old(mem).byte_at(a),
        r is Ok <==> spawn_ok(*kernel, image@.len() as int, entry as int, *old(mem)),
        r matches Ok(o) ==> o == outcome_of(events@),
        r == Err::<RunOutcome, KernelError>(KernelError::Mapping) <==> {
            &&& old(mem).mem().len() + PAGE_SIZE <= old(mem).capacity()
            &&& {
                ||| !spawn_code_ok(*kernel, image@.len() as int, entry as int)
                ||| {
                    &&& spawn_code_ok(*kernel, image@.len() as int, entry as int)
                    &&& old(mem).mem().len() + PAGE_SIZE + rounded_up(image@.len() as int) <= old(
                        mem,
                    ).capacity()
                    &&& !spawn_layout_ok(*kernel, image@.len() as int, entry as int)
                }
            }
        },
        r matches Err(e) ==> e != KernelError::MappingConflict,
{
    let handle = match spawn_user_process(mem, kernel, image, entry) {
        Ok(h) => h,
        Err(e) => {
            return Err(e);
        },
    };
    Ok(join(handle, events))
}

} // verus!
