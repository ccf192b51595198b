//! Saved user-mode context and the trap state handed back by a mode
//! transition.
//!
//! Entering user mode and returning on a trap is a privileged operation of
//! the surrounding runtime; here a completed transition is a `TrapEvent`:
//! the reason the processor came back, plus the syscall number and argument
//! the user left in its registers. The dispatcher consumes such events and
//! updates the context's return-value register.

use vstd::prelude::*;

verus! {

/// Why a mode transition returned to the kernel.
///
/// `Other` is the residual catch-all — page faults, illegal instructions
/// and every condition this core has no recovery policy for. It stays a
/// distinct variant so that a future fault-handling policy can be added
/// without silently changing today's behaviour.
#[derive(Clone, Copy, Debug, PartialEq, Eq, Structural)]
pub enum TrapReason {
    Syscall,
    Interrupt,
    Other,
}

/// One completed mode transition: the trap reason together with the syscall
/// number and first argument saved from the user's registers. For reasons
/// other than `Syscall` the two numbers carry no meaning.
#[derive(Clone, Copy, Debug, PartialEq, Eq, Structural)]
pub struct TrapEvent {
    pub reason: TrapReason,
    pub sysno: usize,
    pub arg0: usize,
}

/// The saved user-mode register state: entry program counter, stack
/// pointer, the initial argument register, and the return-value register
/// that syscall handling writes back for the user to observe.
#[derive(Clone, Copy, Debug, PartialEq, Eq, Structural)]
pub struct UserContext {
    pub pc: usize,
    pub sp: usize,
    pub arg0: usize,
    pub retval: usize,
}

impl UserContext {
    /// Builds the context a fresh user task starts from: program counter at
    /// `entry`, stack pointer at `stack_top`, argument register `arg0`, and
    /// a cleared return-value register.
    pub fn new(entry: usize, stack_top: usize, arg0: usize) -> (c: UserContext)
        ensures
            c == (UserContext { pc: entry, sp: stack_top, arg0, retval: 0 }),
    {
        UserContext { pc: entry, sp: stack_top, arg0, retval: 0 }
    }

    /// Writes the return-value register, the value the user process reads
    /// after its syscall resumes.
    pub fn set_retval(&mut self, v: usize)
        ensures
            *final(self) == (UserContext { retval: v, ..*old(self) }),
    {
        self.retval = v;
    }

    /// Reads the return-value register.
    pub fn retval(&self) -> (v: usize)
        ensures
            v == self.retval,
    {
        self.retval
    }
}

} // verus!
