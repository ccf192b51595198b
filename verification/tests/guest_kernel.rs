use gkernel::aspace::AddrSpace;
use gkernel::aspace::MappingFlags;
use gkernel::dispatch::Action;
use gkernel::dispatch::RunOutcome;
use gkernel::dispatch::dispatch_trap;
use gkernel::dispatch::run_user_task;
use gkernel::error::KernelError;
use gkernel::phys::PhysMemory;
use gkernel::process::join;
use gkernel::process::run_guest;
use gkernel::process::spawn_user_process;
use gkernel::uctx::TrapEvent;
use gkernel::uctx::TrapReason;
use gkernel::uctx::UserContext;
use gkernel::ENOSYS_RETVAL;
use gkernel::PAGE_SIZE;
use gkernel::SYS_EXIT;
use gkernel::USER_ASPACE_BASE;
use gkernel::USER_ASPACE_SIZE;
use gkernel::USER_STACK_SIZE;
use gkernel::loader::init_stack;
use gkernel::loader::load_program;

// The riscv64 image of the original user program: li a7, 93; li a0, 0; ecall.
fn exit_zero_image() -> Vec<u8> {
    vec![
        0x93, 0x08, 0xd0, 0x05, // li a7, 93
        0x13, 0x05, 0x00, 0x00, // li a0, 0
        0x73, 0x00, 0x00, 0x00, // ecall
    ]
}

fn syscall(sysno: usize, arg0: usize) -> TrapEvent {
    TrapEvent { reason: TrapReason::Syscall, sysno, arg0 }
}

fn fresh_user_space(mem: &mut PhysMemory) -> AddrSpace {
    AddrSpace::new_empty(USER_ASPACE_BASE, USER_ASPACE_SIZE, mem).unwrap()
}

#[test]
fn load_copies_image_into_backing() {
    let mut mem = PhysMemory::new(0x200000);
    let mut space = fresh_user_space(&mut mem);
    let image = exit_zero_image();
    load_program(&mut space, &mut mem, &image, 0x1000).unwrap();
    let (paddr, flags) = space.query(0x1000).unwrap();
    assert_eq!(mem.read_bytes(paddr, image.len()), image);
    assert!(flags.read && flags.write && flags.execute && flags.user);
    // The tail of the page stays zeroed.
    assert_eq!(mem.read_byte(paddr + image.len()), 0);
    // Byte-level round trip through per-address translation.
    for i in 0..image.len() {
        let (p, _) = space.query(0x1000 + i).unwrap();
        assert_eq!(mem.read_byte(p), image[i]);
    }
}

#[test]
fn load_rounds_up_to_whole_pages() {
    let mut mem = PhysMemory::new(0x200000);
    let mut space = fresh_user_space(&mut mem);
    let image = vec![0xaau8; PAGE_SIZE + 1];
    load_program(&mut space, &mut mem, &image, 0x1000).unwrap();
    // Two pages are mapped, and nothing beyond them.
    assert!(space.query(0x1000 + PAGE_SIZE).is_some());
    assert!(space.query(0x1000 + 2 * PAGE_SIZE - 1).is_some());
    assert!(space.query(0x1000 + 2 * PAGE_SIZE).is_none());
    let (p, _) = space.query(0x1000 + PAGE_SIZE).unwrap();
    assert_eq!(mem.read_byte(p), 0xaa);
    assert_eq!(mem.read_byte(p + 1), 0);
}

#[test]
fn load_rejects_unaligned_address() {
    let mut mem = PhysMemory::new(0x200000);
    let mut space = fresh_user_space(&mut mem);
    let image = exit_zero_image();
    assert_eq!(load_program(&mut space, &mut mem, &image, 0x1001), Err(KernelError::Mapping));
}

#[test]
fn load_rejects_occupied_range() {
    let mut mem = PhysMemory::new(0x200000);
    let mut space = fresh_user_space(&mut mem);
    let image = exit_zero_image();
    load_program(&mut space, &mut mem, &image, 0x1000).unwrap();
    assert_eq!(load_program(&mut space, &mut mem, &image, 0x1000), Err(KernelError::Mapping));
}

#[test]
fn load_reports_exhausted_memory() {
    // Room for the page-table root only.
    let mut mem = PhysMemory::new(PAGE_SIZE);
    let mut space = fresh_user_space(&mut mem);
    let image = exit_zero_image();
    assert_eq!(load_program(&mut space, &mut mem, &image, 0x1000), Err(KernelError::Allocation));
}

#[test]
fn space_creation_reports_exhausted_memory() {
    let mut mem = PhysMemory::new(0);
    assert!(matches!(
        AddrSpace::new_empty(USER_ASPACE_BASE, USER_ASPACE_SIZE, &mut mem),
        Err(KernelError::Allocation)
    ));
}

#[test]
fn stack_sits_below_the_top_of_the_space() {
    let mut mem = PhysMemory::new(0x200000);
    let mut space = fresh_user_space(&mut mem);
    let top = init_stack(&mut space, &mut mem).unwrap();
    assert_eq!(top, USER_ASPACE_BASE + USER_ASPACE_SIZE);
    assert_eq!(top % PAGE_SIZE, 0);
    // Exactly USER_STACK_SIZE bytes are mapped immediately below the top.
    assert!(space.query(top - 1).is_some());
    assert!(space.query(top - USER_STACK_SIZE).is_some());
    assert!(space.query(top - USER_STACK_SIZE - 1).is_none());
    // The stack is never executable.
    let (_, flags) = space.query(top - 1).unwrap();
    assert_eq!(flags, MappingFlags { read: true, write: true, execute: false, user: true });
}

#[test]
fn kernel_mappings_are_imported_exactly() {
    let mut mem = PhysMemory::new(0x200000);
    let mut kernel = AddrSpace::new_empty(0x4000_0000, 0x1000_0000, &mut mem).unwrap();
    kernel
        .map_region(0x4000_0000, PAGE_SIZE, MappingFlags::code(), &mut mem)
        .unwrap();
    kernel
        .map_region(0x4800_0000, 2 * PAGE_SIZE, MappingFlags::stack(), &mut mem)
        .unwrap();
    let mut user = fresh_user_space(&mut mem);
    user.copy_mappings_from(&kernel).unwrap();
    // Present, with the kernel's own backing and permissions.
    for va in [0x4000_0000usize, 0x4800_0000, 0x4800_0000 + PAGE_SIZE] {
        assert_eq!(user.query(va), kernel.query(va));
        assert!(user.query(va).is_some());
    }
    // And nothing else.
    assert!(user.query(0x4000_0000 + PAGE_SIZE).is_none());
    assert!(user.query(0x1000).is_none());
}

#[test]
fn import_reports_collisions() {
    let mut mem = PhysMemory::new(0x200000);
    let mut kernel = fresh_user_space(&mut mem);
    kernel.map_region(0x2000, PAGE_SIZE, MappingFlags::code(), &mut mem).unwrap();
    let mut user = fresh_user_space(&mut mem);
    user.map_region(0x2000, PAGE_SIZE, MappingFlags::code(), &mut mem).unwrap();
    assert_eq!(user.copy_mappings_from(&kernel), Err(KernelError::MappingConflict));
    // The failed import changed nothing: a second, conflict-free one works.
    let empty = fresh_user_space(&mut mem);
    user.copy_mappings_from(&empty).unwrap();
}

#[test]
fn exit_syscall_terminates_the_task() {
    let ev = syscall(SYS_EXIT, 0);
    assert_eq!(dispatch_trap(ev), Action::Exit(0));
    let ev = syscall(SYS_EXIT, 7);
    assert_eq!(dispatch_trap(ev), Action::Exit(7));
}

#[test]
fn unknown_syscall_reports_not_implemented() {
    let ev = syscall(999, 0);
    assert_eq!(dispatch_trap(ev), Action::SetReturn(ENOSYS_RETVAL));
    assert_eq!(ENOSYS_RETVAL, (-38isize) as usize);
}

#[test]
fn exit_codes_truncate_to_32_signed_bits() {
    // The exit status keeps the low 32 bits of the argument, two's
    // complement.
    assert_eq!(dispatch_trap(syscall(SYS_EXIT, 0x1_0000_0007)), Action::Exit(7));
    assert_eq!(
        dispatch_trap(syscall(SYS_EXIT, 0xffff_ffff)),
        Action::Exit(-1)
    );
}

#[test]
fn fatal_path_names_the_unexpected_reason() {
    assert_eq!(
        gkernel::dispatch::panic(TrapReason::Other),
        "unexpected return from user space"
    );
}

#[test]
fn interrupts_resume_and_unknown_traps_are_fatal() {
    let ev = TrapEvent { reason: TrapReason::Interrupt, sysno: 0, arg0: 0 };
    assert_eq!(dispatch_trap(ev), Action::Resume);
    let ev = TrapEvent { reason: TrapReason::Other, sysno: 0, arg0: 0 };
    assert_eq!(dispatch_trap(ev), Action::Fatal(TrapReason::Other));
}

#[test]
fn unknown_syscall_keeps_the_task_alive() {
    let mut ctx = UserContext::new(0x1000, USER_ASPACE_SIZE, 0);
    // One unimplemented syscall: the loop continues, the user sees -ENOSYS.
    let first = vec![syscall(999, 5)];
    assert_eq!(run_user_task(&mut ctx, &first), RunOutcome::Pending);
    assert_eq!(ctx.retval(), ENOSYS_RETVAL);
    // A subsequent exit still terminates cleanly.
    let rest = vec![syscall(SYS_EXIT, 0)];
    assert_eq!(run_user_task(&mut ctx, &rest), RunOutcome::Exited(0));
}

#[test]
fn unexpected_trap_is_fatal_at_once() {
    let mut ctx = UserContext::new(0x1000, USER_ASPACE_SIZE, 0);
    let events = vec![
        TrapEvent { reason: TrapReason::Other, sysno: 0, arg0: 0 },
        syscall(SYS_EXIT, 0),
    ];
    assert_eq!(run_user_task(&mut ctx, &events), RunOutcome::Fatal(TrapReason::Other));
}

#[test]
fn interrupts_alone_leave_the_task_running() {
    let mut ctx = UserContext::new(0x1000, USER_ASPACE_SIZE, 3);
    let events = vec![
        TrapEvent { reason: TrapReason::Interrupt, sysno: 0, arg0: 0 },
        TrapEvent { reason: TrapReason::Interrupt, sysno: 0, arg0: 0 },
    ];
    assert_eq!(run_user_task(&mut ctx, &events), RunOutcome::Pending);
    assert_eq!(ctx.retval(), 0);
}

#[test]
fn spawned_process_is_wired_to_its_address_space() {
    let mut mem = PhysMemory::new(0x200000);
    let kernel = AddrSpace::new_empty(0x4000_0000, 0x1000_0000, &mut mem).unwrap();
    let image = exit_zero_image();
    let handle = spawn_user_process(&mut mem, &kernel, &image, 0x1000).unwrap();
    let proc = &handle.proc;
    assert_eq!(proc.uctx.pc, 0x1000);
    assert_eq!(proc.uctx.sp, USER_ASPACE_BASE + USER_ASPACE_SIZE);
    assert_eq!(proc.uctx.arg0, 0);
    assert_eq!(proc.pt_root, proc.space.page_table_root());
    let (paddr, _) = proc.space.query(0x1000).unwrap();
    assert_eq!(mem.read_bytes(paddr, image.len()), image);
}

#[test]
fn exit_zero_scenario_returns_status_zero() {
    // entry = 0x1000, stack size = 0x10000, image encodes exit(0).
    let mut mem = PhysMemory::new(0x200000);
    let kernel = AddrSpace::new_empty(0x4000_0000, 0x1000_0000, &mut mem).unwrap();
    let image = exit_zero_image();
    assert_eq!(USER_STACK_SIZE, 0x10000);
    let events = vec![syscall(SYS_EXIT, 0)];
    let outcome = run_guest(&mut mem, &kernel, &image, 0x1000, &events).unwrap();
    assert_eq!(outcome, RunOutcome::Exited(0));
}

#[test]
fn undefined_syscall_then_exit_seven_scenario() {
    // Same setup; the program first issues syscall 999, then exit(7).
    let mut mem = PhysMemory::new(0x200000);
    let kernel = AddrSpace::new_empty(0x4000_0000, 0x1000_0000, &mut mem).unwrap();
    let image = exit_zero_image();
    let handle = spawn_user_process(&mut mem, &kernel, &image, 0x1000).unwrap();
    // The return-value register observes -ENOSYS after the first trap.
    let mut ctx = handle.proc.uctx;
    let first = vec![syscall(999, 0)];
    assert_eq!(run_user_task(&mut ctx, &first), RunOutcome::Pending);
    assert_eq!(ctx.retval(), ENOSYS_RETVAL);
    // And the full trap sequence still joins cleanly with status 7.
    let events = vec![syscall(999, 0), syscall(SYS_EXIT, 7)];
    assert_eq!(join(handle, &events), RunOutcome::Exited(7));
}

#[test]
fn sequential_spawns_share_no_backing() {
    let mut mem = PhysMemory::new(0x200000);
    let kernel = AddrSpace::new_empty(0x4000_0000, 0x1000_0000, &mut mem).unwrap();
    let image = exit_zero_image();
    let h1 = spawn_user_process(&mut mem, &kernel, &image, 0x1000).unwrap();
    let h2 = spawn_user_process(&mut mem, &kernel, &image, 0x1000).unwrap();
    let (p1, _) = h1.proc.space.query(0x1000).unwrap();
    let (p2, _) = h2.proc.space.query(0x1000).unwrap();
    assert_ne!(h1.proc.space.page_table_root(), h2.proc.space.page_table_root());
    // Disjoint code backing.
    assert!(p1 + PAGE_SIZE <= p2 || p2 + PAGE_SIZE <= p1);
    // Writing through the second mapping is invisible through the first.
    let patch = vec![0xffu8; 4];
    mem.write_bytes(p2, &patch);
    assert_eq!(mem.read_bytes(p1, image.len()), image);
    assert_eq!(mem.read_bytes(p2, 4), patch);
}

#[test]
fn spawn_rejects_a_colliding_layout() {
    let mut mem = PhysMemory::new(0x200000);
    // A "kernel" mapping placed exactly where the program would go.
    let mut kernel = fresh_user_space(&mut mem);
    kernel.map_region(0x1000, PAGE_SIZE, MappingFlags::code(), &mut mem).unwrap();
    let image = exit_zero_image();
    assert!(matches!(
        spawn_user_process(&mut mem, &kernel, &image, 0x1000),
        Err(KernelError::Mapping)
    ));
}

#[test]
fn spawn_reports_exhausted_memory() {
    // Root and code fit; the stack does not.
    let mut mem = PhysMemory::new(3 * PAGE_SIZE);
    let kernel = AddrSpace::new_empty(0x4000_0000, 0x1000_0000, &mut mem).unwrap();
    let image = exit_zero_image();
    assert!(matches!(
        spawn_user_process(&mut mem, &kernel, &image, 0x1000),
        Err(KernelError::Allocation)
    ));
}
