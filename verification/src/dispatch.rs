//! Syscall dispatch: the decision taken on every trap, and the loop that
//! drives a user task through a sequence of traps until it terminates.
//!
//! Exit codes are fixed at 32 signed bits: the exit syscall's argument is
//! truncated to its low 32 bits and read as a two's-complement `i32`.

use vstd::prelude::*;

use crate::ENOSYS_RETVAL;
use crate::SYS_EXIT;
use crate::uctx::TrapEvent;
use crate::uctx::TrapReason;
use crate::uctx::UserContext;

verus! {

/// What the dispatcher does after one trap.
///
/// `Exit` terminates the task with the given status; `SetReturn` stores a
/// value in the user's return-value register and resumes it; `Resume`
/// re-enters user mode with nothing changed (interrupts are fully handled
/// beneath this core); `Fatal` carries a trap reason this core has no
/// policy for — the owning task must be aborted.
#[derive(Clone, Copy, Debug, PartialEq, Eq, Structural)]
pub enum Action {
    Exit(i32),
    SetReturn(usize),
    Resume,
    Fatal(TrapReason),
}

/// How a user task's trap sequence ends: with an exit status, with a fatal
/// trap, or still running when the sequence is exhausted.
#[derive(Clone, Copy, Debug, PartialEq, Eq, Structural)]
pub enum RunOutcome {
    Exited(i32),
    Fatal(TrapReason),
    Pending,
}

/// The dispatch decision for one trap: exit syscalls terminate with the
/// truncated argument, every other syscall is answered with the negated
/// not-implemented code, interrupts resume, anything else is fatal.
pub open spec fn dispatch_spec(ev: TrapEvent) -> Action {
    match ev.reason {
        TrapReason::Syscall => if ev.sysno == SYS_EXIT {
            Action::Exit(ev.arg0 as i32)
        } else {
            Action::SetReturn(ENOSYS_RETVAL)
        },
        TrapReason::Interrupt => Action::Resume,
        TrapReason::Other => Action::Fatal(ev.reason),
    }
}

/// How a whole trap sequence ends: the first exit or fatal trap decides;
/// interrupts and unimplemented syscalls only continue the loop.
pub open spec fn outcome_of(events: Seq<TrapEvent>) -> RunOutcome
    decreases events.len(),
{
    if events.len() == 0 {
        RunOutcome::Pending
    } else {
        match dispatch_spec(events[0]) {
            Action::Exit(code) => RunOutcome::Exited(code),
            Action::Fatal(reason) => RunOutcome::Fatal(reason),
            _ => outcome_of(events.drop_first()),
        }
    }
}

/// Value of the return-value register after the trap sequence has been
/// dispatched, starting from `r0`: the last `SetReturn` before the loop
/// stops wins.
pub open spec fn retval_after(events: Seq<TrapEvent>, r0: usize) -> usize
    decreases events.len(),
{
    if events.len() == 0 {
        r0
    } else {
        match dispatch_spec(events[0]) {
            Action::Exit(code) => r0,
            Action::Fatal(reason) => r0,
            Action::SetReturn(v) => retval_after(events.drop_first(), v),
            Action::Resume => retval_after(events.drop_first(), r0),
        }
    }
}

/// Decides what to do about one trap. The decision is a pure function of
/// the trap state: see `dispatch_spec`.
pub fn dispatch_trap(ev: TrapEvent) -> (a: Action)
    ensures
        a == dispatch_spec(ev),
{
    match ev.reason {
        TrapReason::Syscall => {
            if ev.sysno == SYS_EXIT {
                Action::Exit(#[verifier::truncate] (ev.arg0 as i32))
            } else {
                Action::SetReturn(ENOSYS_RETVAL)
            }
        },
        TrapReason::Interrupt => Action::Resume,
        TrapReason::Other => Action::Fatal(ev.reason),
    }
}

/// Drives one user task through `events`, strictly in order: each trap is
/// dispatched only after the previous decision has been applied to the
/// context. Returns how the sequence ended; the context keeps its entry
/// state except for the return-value register, which holds the last value
/// stored for the user.
pub fn run_user_task(ctx: &mut UserContext, events: &Vec<TrapEvent>) -> (r: RunOutcome)
    ensures
        r == outcome_of(events@),
        final(ctx).retval == retval_after(events@, old(ctx).retval),
        final(ctx).pc == old(ctx).pc,
        final(ctx).sp == old(ctx).sp,
        final(ctx).arg0 == old(ctx).arg0,
{
    let n = events.len();
    let mut i: usize = 0;
    proof {
        assert(events@.skip(0) =~= events@);
    }
    while i < n
        invariant
            i <= n,
            outcome_of(events@) == outcome_of(events@.skip(i as int)),
            retval_after(events@, old(ctx).retval) == retval_after(
                events@.skip(i as int),
                ctx.retval,
            ),
            ctx.pc == old(ctx).pc,
            ctx.sp == old(ctx).sp,
            ctx.arg0 == old(ctx).arg0,
        decreases n - i,
    {
        let ev = events[i];
        proof {
            assert(events@.skip(i as int)[0] == events@[i as int]);
            assert(events@.skip(i as int).drop_first() =~= events@.skip(i + 1));
        }
        match dispatch_trap(ev) {
            Action::Exit(code) => {
                return RunOutcome::Exited(code);
            },
            Action::Fatal(reason) => {
                return RunOutcome::Fatal(reason);
            },
            Action::SetReturn(v) => {
                ctx.set_retval(v);
            },
            Action::Resume => {},
        }
        i = i + 1;
    }
    proof {
        assert(events@.skip(n as int) =~= Seq::<TrapEvent>::empty());
    }
    RunOutcome::Pending
}

/// The diagnostic the kernel halts with for each condition it treats as
/// unrecoverable by design.
pub open spec fn panic_message(reason: TrapReason) -> Seq<char> {
    match reason {
        TrapReason::Other => "unexpected return from user space"@,
        TrapReason::Syscall => "syscall trap reached the fatal path"@,
        TrapReason::Interrupt => "interrupt trap reached the fatal path"@,
    }
}

/// Fatal path of the trap loop: the diagnostic that accompanies aborting
/// the owning task when a trap reason has no recovery policy. The caller
/// halts with this message; nothing in this core recovers from it.
pub fn panic(reason: TrapReason) -> (msg: &'static str)
    ensures
        msg@ == panic_message(reason),
{
    match reason {
        TrapReason::Other => "unexpected return from user space",
        TrapReason::Syscall => "syscall trap reached the fatal path",
        TrapReason::Interrupt => "interrupt trap reached the fatal path",
    }
}

/// Law: a user program whose first trap is the exit syscall with argument 0
/// ends the task with exit status 0, whatever follows.
pub proof fn lemma_exit_zero_terminates(events: Seq<TrapEvent>)
    requires
        events.len() > 0,
        events[0] == (TrapEvent { reason: TrapReason::Syscall, sysno: SYS_EXIT, arg0: 0 }),
    ensures
        outcome_of(events) == RunOutcome::Exited(0),
{
}

/// Law: a syscall whose number is not the exit number never ends the task.
/// The dispatcher answers it with the negated not-implemented code in the
/// return-value register and the outcome is decided by the traps that
/// follow — in particular, a later exit syscall still terminates cleanly.
pub proof fn lemma_unknown_syscall_continues(events: Seq<TrapEvent>, r0: usize)
    requires
        events.len() > 0,
        events[0].reason == TrapReason::Syscall,
        events[0].sysno != SYS_EXIT,
    ensures
        outcome_of(events) == outcome_of(events.drop_first()),
        retval_after(events, r0) == retval_after(events.drop_first(), ENOSYS_RETVAL),
{
}

/// Law: an interrupt trap takes no action at all — the loop just resumes
/// the user, leaving the return-value register alone.
pub proof fn lemma_interrupt_resumes(events: Seq<TrapEvent>, r0: usize)
    requires
        events.len() > 0,
        events[0].reason == TrapReason::Interrupt,
    ensures
        outcome_of(events) == outcome_of(events.drop_first()),
        retval_after(events, r0) == retval_after(events.drop_first(), r0),
{
}

/// Law: a trap this core has no policy for is fatal at once: the outcome
/// reports the unexpected reason and no later trap is dispatched.
pub proof fn lemma_unexpected_trap_fatal(events: Seq<TrapEvent>)
    requires
        events.len() > 0,
        events[0].reason == TrapReason::Other,
    ensures
        outcome_of(events) == RunOutcome::Fatal(events[0].reason),
{
}

} // verus!
