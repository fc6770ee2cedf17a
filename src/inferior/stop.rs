//! Stop events: what the kernel's wait call reported, and what it means to
//! the debugger.

use vstd::prelude::*;
use crate::debug::breakpoint::Breakpoint;

verus! {

/// Trace/breakpoint trap signal.
pub const SIGTRAP: i32 = 5;

/// Stop signal, delivered to a process when a tracer attaches.
pub const SIGSTOP: i32 = 19;

/// Error number of "no child process": the tracee is gone.
pub const ECHILD: i32 = 10;

/// A wait result as the kernel reports it, in plain values.
#[derive(Clone, Copy, Debug, PartialEq, Eq, Structural)]
pub enum WaitResult {
    /// Exited normally with this code.
    Exited(i32),
    /// Terminated by a signal; the flag says whether it dumped core.
    Signaled(i32, bool),
    /// Stopped by a signal.
    Stopped(i32),
    /// Stopped at a tracing event (signal, event number).
    PtraceEvent(i32, i32),
    /// Stopped at a system call.
    PtraceSyscall,
    /// Resumed by a continue signal.
    Continued,
    /// No state change to report.
    StillAlive,
}

/// Why the tracee stopped, as the debugger classifies it.
#[derive(Clone, Copy, Debug, PartialEq, Eq, Structural)]
pub enum StopReason {
    Exited(i32),
    BreakpointHit(u64),
    SingleStepTrap,
    /// A signal; the flag says whether a core was dumped.
    Signaled(i32, bool),
    /// A trap whose cause is not yet known.
    GenericTrap(i32),
    Unhandled(WaitResult),
}

/// The kernel-level classification of a wait result.
pub open spec fn classify_spec(w: WaitResult) -> StopReason {
    match w {
        WaitResult::Exited(code) => StopReason::Exited(code),
        WaitResult::Signaled(sig, core) => StopReason::Signaled(sig, core),
        WaitResult::Stopped(sig) => if sig == SIGTRAP {
            StopReason::GenericTrap(sig)
        } else {
            StopReason::Signaled(sig, false)
        },
        WaitResult::PtraceEvent(sig, event) => if sig == SIGTRAP && event == 0 {
            StopReason::GenericTrap(sig)
        } else {
            StopReason::Unhandled(w)
        },
        _ => StopReason::Unhandled(w),
    }
}

/// Classifies a wait result without looking at the tracee: a trap stop
/// with no trace event (event number 0) stays `GenericTrap` until
/// `resolve_trap` has seen the instruction pointer.
pub fn classify(w: WaitResult) -> (r: StopReason)
    ensures
        r == classify_spec(w),
{
    match w {
        WaitResult::Exited(code) => StopReason::Exited(code),
        WaitResult::Signaled(sig, core) => StopReason::Signaled(sig, core),
        WaitResult::Stopped(sig) => {
            if sig == SIGTRAP {
                StopReason::GenericTrap(sig)
            } else {
                StopReason::Signaled(sig, false)
            }
        },
        WaitResult::PtraceEvent(sig, event) => {
            if sig == SIGTRAP && event == 0 {
                StopReason::GenericTrap(sig)
            } else {
                StopReason::Unhandled(w)
            }
        },
        _ => StopReason::Unhandled(w),
    }
}

/// Whether an armed breakpoint of `table` traps at `addr`.
pub open spec fn armed_at(table: Seq<Breakpoint>, addr: u64) -> bool {
    exists|i: int| 0 <= i < table.len() && table[i].target_address == addr && table[i].enabled
}

/// The meaning of a trap with the instruction pointer at `pc`.
pub open spec fn resolve_trap_spec(table: Seq<Breakpoint>, pending_step: bool, pc: u64) -> StopReason {
    if pc >= 1 && armed_at(table, (pc - 1) as u64) {
        StopReason::BreakpointHit((pc - 1) as u64)
    } else if pending_step {
        StopReason::SingleStepTrap
    } else {
        StopReason::Signaled(SIGTRAP, false)
    }
}

/// Index of the breakpoint whose target is `addr`, if any.
pub fn find_target(table: &Vec<Breakpoint>, addr: u64) -> (r: Option<usize>)
    ensures
        match r {
            Some(i) => i < table@.len() && table@[i as int].target_address == addr,
            None => forall|i: int| 0 <= i < table@.len() ==> table@[i].target_address != addr,
        },
{
    let mut i: usize = 0;
    while i < table.len()
        invariant
            i <= table@.len(),
            forall|j: int| 0 <= j < i ==> table@[j].target_address != addr,
        decreases table@.len() - i,
    {
        if table[i].target_address == addr {
            return Some(i);
        }
        i = i + 1;
    }
    None
}

/// Tells a breakpoint trap from a finished single step and from a trap that
/// nobody planted. After a breakpoint trap the instruction pointer is one
/// past the trap byte.
pub fn resolve_trap(table: &Vec<Breakpoint>, pending_step: bool, pc: u64) -> (r: StopReason)
    requires
        forall|i: int, j: int|
            0 <= i < j < table@.len() ==> table@[i].target_address != table@[j].target_address,
    ensures
        r == resolve_trap_spec(table@, pending_step, pc),
{
    if pc >= 1 {
        match find_target(table, pc - 1) {
            Some(i) => {
                if table[i].enabled {
                    return StopReason::BreakpointHit(pc - 1);
                }
                assert(!armed_at(table@, (pc - 1) as u64));
            },
            None => {},
        }
    }
    if pending_step {
        StopReason::SingleStepTrap
    } else {
        StopReason::Signaled(SIGTRAP, false)
    }
}

} // verus!
