//! The traced process: its lifecycle, breakpoint table and the decisions
//! taken on each stop event. The kernel calls themselves are made by the
//! caller, which hands each result back and performs the writes returned.

pub mod laws;
pub mod memory;
pub mod modules;
pub mod stop;

use vstd::prelude::*;
use crate::debug::breakpoint::{restore_write_of, trap_write_of, Breakpoint, BreakpointType};
use crate::debug::word::{aligned_address, align_down, WordWrite};
use crate::inferior::stop::{
    armed_at, classify, classify_spec, find_target, resolve_trap, resolve_trap_spec, StopReason, WaitResult,
    ECHILD, SIGSTOP, SIGTRAP,
};

verus! {

/// Lifecycle state of the traced process.
#[derive(Clone, Copy, Debug, PartialEq, Eq, Structural)]
pub enum InferiorState {
    /// Requested, not yet observed.
    Startup,
    /// Resumed, not currently stopped.
    Running,
    /// Halted at a trap or signal: memory and registers may be used.
    Stopped,
    Sleeping,
    Zombie,
    /// Terminated or lost.
    Dead,
    /// Halted by an internal trap such as a single step.
    Raised,
    /// No process yet.
    Unset,
}

/// An operation that a caller may ask of the debugger.
#[derive(Clone, Copy, Debug, PartialEq, Eq, Structural)]
pub enum Operation {
    Start,
    Attach,
    Resume,
    Step,
    InstallBreakpoint,
    RemoveBreakpoint,
    ReadRegisters,
    ReadMemory,
}

/// Errors of the debugger.
#[derive(Clone, Copy, Debug, PartialEq, Eq, Structural)]
pub enum DebugError {
    /// No process is traced yet.
    NoProcess,
    /// A process is already traced by this handle.
    AlreadyTracing,
    /// The tracee is not stopped.
    NotStopped,
    /// The tracee has terminated or was lost.
    ProcessDead,
    /// A breakpoint already traps at this address.
    DuplicateBreakpoint(u64),
    /// Another breakpoint already patches the word holding this address.
    Overlap(u64),
    /// No breakpoint traps at this address.
    NotFound(u64),
    /// No module is loaded at this base address.
    UnknownModule(u64),
    /// The range does not fit in the address space.
    BadRange(u64, u64),
    /// A kernel call failed with this error number.
    Kernel(i32),
    /// The tracee was stopped or terminated by an unexpected signal.
    Signal(i32, bool),
    /// A wait result that the debugger does not handle.
    Unhandled(WaitResult),
}

impl DebugError {
    /// The caller broke a precondition of the operation; nothing changed.
    pub open spec fn is_usage(self) -> bool {
        match self {
            DebugError::Kernel(_) | DebugError::Signal(_, _) | DebugError::Unhandled(_) => false,
            _ => true,
        }
    }
}

/// Whether `op` may run in state `s`, and the usage error if not.
pub open spec fn admits(op: Operation, s: InferiorState) -> Result<(), DebugError> {
    match op {
        Operation::Start | Operation::Attach => match s {
            InferiorState::Unset => Ok(()),
            _ => Err(DebugError::AlreadyTracing),
        },
        _ => match s {
            InferiorState::Stopped | InferiorState::Raised => Ok(()),
            InferiorState::Dead => Err(DebugError::ProcessDead),
            InferiorState::Unset | InferiorState::Startup => Err(DebugError::NoProcess),
            _ => Err(DebugError::NotStopped),
        },
    }
}

/// Whether a breakpoint of `s` traps at `addr`.
pub open spec fn has_target(s: Seq<Breakpoint>, addr: u64) -> bool {
    exists|i: int| 0 <= i < s.len() && s[i].target_address == addr
}

/// Where in `s` the breakpoint at `addr` stands.
pub open spec fn target_index(s: Seq<Breakpoint>, addr: u64) -> int {
    choose|i: int| 0 <= i < s.len() && s[i].target_address == addr
}

/// Whether a breakpoint of `s` patches the word at `aligned`.
pub open spec fn has_word(s: Seq<Breakpoint>, aligned: u64) -> bool {
    exists|i: int| 0 <= i < s.len() && s[i].aligned_address == aligned
}

/// A hit count after one more hit; it stops at the largest value.
pub open spec fn bumped(n: u64) -> u64 {
    if n < u64::MAX {
        (n + 1) as u64
    } else {
        n
    }
}

/// What the caller does after a wait result was handed over.
#[derive(Clone, Copy, Debug, PartialEq, Eq, Structural)]
pub enum WaitStep {
    /// The wait is over: control returns to the caller.
    Finished,
    /// A trap: read the instruction pointer and hand it to `on_trap`.
    ReadPc,
}

/// What the caller does after a trap was resolved.
#[derive(Clone, Copy, Debug, PartialEq, Eq, Structural)]
pub enum TrapAction {
    /// A breakpoint was hit: write `restore` if any (a one-shot breakpoint
    /// is removed; a persistent one stays armed in memory), set the
    /// instruction pointer to `pc`; the wait is over.
    Hit { restore: Option<WordWrite>, pc: u64 },
    /// A single step finished: write `rearm` if any; then continue and wait
    /// again if `resume`, else the wait is over.
    Stepped { rearm: Option<WordWrite>, resume: bool },
}

/// How the caller resumes the tracee.
#[derive(Clone, Copy, Debug, PartialEq, Eq, Structural)]
pub enum ResumePlan {
    /// Continue with no signal, then wait.
    Continue,
    /// The tracee is stopped on an armed breakpoint: write the given word
    /// (the unpatched one), single-step, then wait; the step's trap re-arms
    /// the breakpoint and continues.
    StepOver(WordWrite),
}

/// The session handle: one per traced process.
pub struct Inferior {
    pub pid: i32,
    /// Thread ids and the process ids that they map to.
    pub tids: Vec<(u32, i32)>,
    pub attached: bool,
    /// Path of the executable.
    pub location: String,
    pub args: Vec<String>,
    pub env: Vec<(String, String)>,
    pub cwd: String,
    pub state: InferiorState,
    /// Whether address-space layout randomization is left on.
    pub aslr: bool,
    /// Installed breakpoints, at most one per word.
    pub breakpoints: Vec<Breakpoint>,
    /// Breakpoints registered by module and offset, applied on load.
    pub target_breakpoints: Vec<Breakpoint>,
    /// Per module: lowest and highest registered offset.
    pub breakpoint_bounds: Vec<(String, u64, u64)>,
    /// Loaded modules: name and base address.
    pub modules: Vec<(String, u64)>,
    pub always_freq: bool,
    pub verbose: bool,
    pub kill_requested: bool,
    /// When tracing began, in seconds since the Unix epoch (0 if unknown).
    pub start_time: u64,
    /// Why the tracee last stopped, while it is stopped.
    pub stop_reason: Option<StopReason>,
    /// Exit code, once the tracee exited.
    pub exit_code: Option<i32>,
    /// A single step was issued and its trap is awaited.
    pub pending_step: bool,
    /// The breakpoint the tracee is stopped on, to step over before it runs
    /// on; while that step is pending, the breakpoint to re-arm after it.
    pub rearm: Option<u64>,
    /// Whether to continue once the pending step is done.
    pub resume_after_step: bool,
}

/// The handle as a mathematical value: each field, with tables as sequences.
pub struct InferiorView {
    pub pid: i32,
    pub tids: Seq<(u32, i32)>,
    pub attached: bool,
    pub location: String,
    pub args: Seq<String>,
    pub env: Seq<(String, String)>,
    pub cwd: String,
    pub state: InferiorState,
    pub aslr: bool,
    pub breakpoints: Seq<Breakpoint>,
    pub target_breakpoints: Seq<Breakpoint>,
    pub breakpoint_bounds: Seq<(String, u64, u64)>,
    pub modules: Seq<(String, u64)>,
    pub always_freq: bool,
    pub verbose: bool,
    pub kill_requested: bool,
    pub start_time: u64,
    pub stop_reason: Option<StopReason>,
    pub exit_code: Option<i32>,
    pub pending_step: bool,
    pub rearm: Option<u64>,
    pub resume_after_step: bool,
}

impl View for Inferior {
    type V = InferiorView;

    open spec fn view(&self) -> InferiorView {
        InferiorView {
            pid: self.pid,
            tids: self.tids@,
            attached: self.attached,
            location: self.location,
            args: self.args@,
            env: self.env@,
            cwd: self.cwd,
            state: self.state,
            aslr: self.aslr,
            breakpoints: self.breakpoints@,
            target_breakpoints: self.target_breakpoints@,
            breakpoint_bounds: self.breakpoint_bounds@,
            modules: self.modules@,
            always_freq: self.always_freq,
            verbose: self.verbose,
            kill_requested: self.kill_requested,
            start_time: self.start_time,
            stop_reason: self.stop_reason,
            exit_code: self.exit_code,
            pending_step: self.pending_step,
            rearm: self.rearm,
            resume_after_step: self.resume_after_step,
        }
    }
}

impl InferiorView {
    /// Every breakpoint's address fields agree, and no two patch one word.
    pub open spec fn wf(self) -> bool {
        &&& forall|i: int| 0 <= i < self.breakpoints.len() ==> (#[trigger] self.breakpoints[i]).wf()
        &&& forall|i: int, j: int|
            0 <= i < j < self.breakpoints.len() ==> self.breakpoints[i].aligned_address
                != self.breakpoints[j].aligned_address
        &&& self.rearm matches Some(t) ==> has_target(self.breakpoints, t)
    }

    /// The handle after the tracee is gone.
    pub open spec fn died(self, code: Option<i32>) -> InferiorView {
        InferiorView {
            state: InferiorState::Dead,
            exit_code: code,
            stop_reason: None,
            pending_step: false,
            rearm: None,
            resume_after_step: false,
            ..self
        }
    }

    /// The handle after the tracee stopped for `reason`.
    pub open spec fn halted(self, state: InferiorState, reason: StopReason) -> InferiorView {
        InferiorView {
            state,
            stop_reason: Some(reason),
            pending_step: false,
            resume_after_step: false,
            ..self
        }
    }

    /// The outcome of a wait: the next handle, and what the caller does.
    pub open spec fn wait_spec(self, ev: Result<WaitResult, i32>) -> (
        InferiorView,
        Result<WaitStep, DebugError>,
    ) {
        match ev {
            Err(errno) => if errno == ECHILD {
                (self.died(None), Ok(WaitStep::Finished))
            } else {
                (self, Err(DebugError::Kernel(errno)))
            },
            Ok(w) => match classify_spec(w) {
                StopReason::Exited(code) => (self.died(Some(code)), Ok(WaitStep::Finished)),
                StopReason::GenericTrap(sig) => if self.state == InferiorState::Startup {
                    (
                        self.halted(InferiorState::Stopped, StopReason::GenericTrap(sig)),
                        Ok(WaitStep::Finished),
                    )
                } else {
                    (self, Ok(WaitStep::ReadPc))
                },
                StopReason::Signaled(sig, core) => if w is Signaled {
                    (self.died(None), Err(DebugError::Signal(sig, core)))
                } else if self.state == InferiorState::Startup && sig == SIGSTOP {
                    (
                        self.halted(InferiorState::Stopped, StopReason::Signaled(sig, core)),
                        Ok(WaitStep::Finished),
                    )
                } else {
                    (self, Err(DebugError::Signal(sig, core)))
                },
                _ => (self, Err(DebugError::Unhandled(w))),
            },
        }
    }

    /// The outcome of a trap with the instruction pointer at `pc`.
    pub open spec fn trap_spec(self, pc: u64) -> (InferiorView, Result<TrapAction, DebugError>) {
        match resolve_trap_spec(self.breakpoints, self.pending_step, pc) {
            StopReason::BreakpointHit(addr) => self.hit_spec(addr),
            StopReason::SingleStepTrap => self.step_done_spec(),
            _ => (self, Err(DebugError::Signal(SIGTRAP, false))),
        }
    }

    /// The outcome of a hit on the breakpoint at `addr`: the tracee is
    /// rewound to it and stopped. A persistent breakpoint is counted and
    /// stays armed, its trap byte left in memory; a one-shot one is removed
    /// and its unpatched word written back.
    pub open spec fn hit_spec(self, addr: u64) -> (InferiorView, Result<TrapAction, DebugError>) {
        let bps = self.breakpoints;
        let i = target_index(bps, addr);
        let bp = bps[i];
        if bp.typ == BreakpointType::Freq {
            (
                InferiorView {
                    rearm: Some(addr),
                    breakpoints: bps.update(i, Breakpoint { freq: bumped(bp.freq), ..bp }),
                    ..self
                }.halted(InferiorState::Stopped, StopReason::BreakpointHit(addr)),
                Ok(TrapAction::Hit { restore: None, pc: addr }),
            )
        } else {
            (
                InferiorView { rearm: None, breakpoints: bps.remove(i), ..self }.halted(
                    InferiorState::Stopped,
                    StopReason::BreakpointHit(addr),
                ),
                Ok(TrapAction::Hit { restore: Some(restore_write_of(bp)), pc: addr }),
            )
        }
    }

    /// Before the tracee runs on from a breakpoint it is stopped on: that
    /// breakpoint is disarmed for one step, and the unpatched word is the
    /// write to make first.
    pub open spec fn step_over_spec(self) -> (InferiorView, Option<WordWrite>) {
        let bps = self.breakpoints;
        if self.rearm is Some && has_target(bps, self.rearm->0) {
            let i = target_index(bps, self.rearm->0);
            (
                InferiorView {
                    breakpoints: bps.update(i, Breakpoint { enabled: false, ..bps[i] }),
                    ..self
                },
                Some(restore_write_of(bps[i])),
            )
        } else {
            (self, None)
        }
    }

    /// The outcome of a finished single step: the breakpoint stepped off,
    /// if any, is armed again.
    pub open spec fn step_done_spec(self) -> (InferiorView, Result<TrapAction, DebugError>) {
        let bps = self.breakpoints;
        let rearmed = match self.rearm {
            Some(t) => has_target(bps, t),
            None => false,
        };
        let i = target_index(bps, self.rearm->0);
        let after = if rearmed {
            InferiorView {
                rearm: None,
                breakpoints: bps.update(i, Breakpoint { enabled: true, ..bps[i] }),
                ..self
            }
        } else {
            InferiorView { rearm: None, ..self }
        };
        let write = if rearmed {
            Some(trap_write_of(bps[i]))
        } else {
            None
        };
        if self.resume_after_step {
            (
                InferiorView {
                    state: InferiorState::Running,
                    stop_reason: None,
                    pending_step: false,
                    resume_after_step: false,
                    ..after
                },
                Ok(TrapAction::Stepped { rearm: write, resume: true }),
            )
        } else {
            (
                after.halted(InferiorState::Raised, StopReason::SingleStepTrap),
                Ok(TrapAction::Stepped { rearm: write, resume: false }),
            )
        }
    }

    /// Whether `install_breakpoint(addr, ..)` is admitted, and the word that
    /// the caller reads beforehand if so.
    pub open spec fn install_check(self, addr: u64) -> Result<u64, DebugError> {
        match admits(Operation::InstallBreakpoint, self.state) {
            Err(e) => Err(e),
            Ok(_) => if has_target(self.breakpoints, addr) {
                Err(DebugError::DuplicateBreakpoint(addr))
            } else if has_word(self.breakpoints, align_down(addr)) {
                Err(DebugError::Overlap(addr))
            } else {
                Ok(align_down(addr))
            },
        }
    }

    /// What `install_breakpoint(addr, typ, saved)` leaves: on refusal the
    /// handle unchanged; else one more breakpoint, last in the table, and
    /// the write that arms it.
    pub open spec fn install_post(
        self,
        addr: u64,
        typ: BreakpointType,
        saved: u64,
        next: InferiorView,
        r: Result<WordWrite, DebugError>,
    ) -> bool {
        match self.install_check(addr) {
            Err(e) => r == Err::<WordWrite, DebugError>(e) && next == self,
            Ok(_) => {
                let bp = next.breakpoints.last();
                &&& next == (InferiorView { breakpoints: self.breakpoints.push(bp), ..self })
                &&& bp.wf()
                &&& bp.target_address == addr
                &&& bp.saved == saved
                &&& bp.enabled
                &&& bp.typ == typ
                &&& bp.freq == 0
                &&& r == Ok::<WordWrite, DebugError>(trap_write_of(bp))
            },
        }
    }

    /// The outcome of removing the breakpoint at `addr`: the next handle and
    /// the write (if any) that restores the unpatched word.
    pub open spec fn remove_spec(self, addr: u64) -> (
        InferiorView,
        Result<Option<WordWrite>, DebugError>,
    ) {
        match admits(Operation::RemoveBreakpoint, self.state) {
            Err(e) => (self, Err(e)),
            Ok(_) => if !has_target(self.breakpoints, addr) {
                (self, Err(DebugError::NotFound(addr)))
            } else {
                let i = target_index(self.breakpoints, addr);
                let bp = self.breakpoints[i];
                (
                    InferiorView {
                        breakpoints: self.breakpoints.remove(i),
                        rearm: if self.rearm == Some(addr) {
                            None
                        } else {
                            self.rearm
                        },
                        ..self
                    },
                    Ok(
                        if bp.enabled {
                            Some(restore_write_of(bp))
                        } else {
                            None
                        },
                    ),
                )
            },
        }
    }

    /// The outcome of an attach request to `pid`, given what the kernel
    /// answered: a kernel error changes nothing.
    pub open spec fn attach_spec(self, pid: i32, outcome: Result<(), i32>) -> (
        InferiorView,
        Result<(), DebugError>,
    ) {
        match admits(Operation::Attach, self.state) {
            Err(e) => (self, Err(e)),
            Ok(_) => match outcome {
                Err(errno) => (self, Err(DebugError::Kernel(errno))),
                Ok(_) => (
                    InferiorView { pid, attached: true, state: InferiorState::Startup, ..self },
                    Ok(()),
                ),
            },
        }
    }

    /// The outcome of a resume request.
    pub open spec fn resume_spec(self) -> (InferiorView, Result<ResumePlan, DebugError>) {
        match admits(Operation::Resume, self.state) {
            Err(e) => (self, Err(e)),
            Ok(_) => {
                let (w, write) = self.step_over_spec();
                match write {
                    Some(restore) => (
                        InferiorView {
                            state: InferiorState::Running,
                            stop_reason: None,
                            pending_step: true,
                            resume_after_step: true,
                            ..w
                        },
                        Ok(ResumePlan::StepOver(restore)),
                    ),
                    None => (
                        InferiorView { state: InferiorState::Running, stop_reason: None, ..self },
                        Ok(ResumePlan::Continue),
                    ),
                }
            },
        }
    }

    /// The outcome of a single-step request: the write to make before the
    /// step, if the tracee is stopped on an armed breakpoint.
    pub open spec fn step_spec(self) -> (InferiorView, Result<Option<WordWrite>, DebugError>) {
        match admits(Operation::Step, self.state) {
            Err(e) => (self, Err(e)),
            Ok(_) => {
                let (w, write) = self.step_over_spec();
                (
                    InferiorView {
                        state: InferiorState::Running,
                        stop_reason: None,
                        pending_step: true,
                        resume_after_step: false,
                        ..w
                    },
                    Ok(write),
                )
            },
        }
    }
}

/// In a well-formed table no two breakpoints share a target address.
pub proof fn lemma_targets_distinct(v: InferiorView)
    requires
        v.wf(),
    ensures
        forall|i: int, j: int|
            0 <= i < v.breakpoints.len() && 0 <= j < v.breakpoints.len() && i != j
                ==> v.breakpoints[i].target_address != v.breakpoints[j].target_address,
{
    assert forall|i: int, j: int|
        0 <= i < v.breakpoints.len() && 0 <= j < v.breakpoints.len() && i != j implies v.breakpoints[i].target_address
        != v.breakpoints[j].target_address by {
        assert(v.breakpoints[i].wf());
        assert(v.breakpoints[j].wf());
    }
}

/// Index of the breakpoint that patches the word at `aligned`, if any.
fn find_word(table: &Vec<Breakpoint>, aligned: u64) -> (r: Option<usize>)
    ensures
        match r {
            Some(i) => i < table@.len() && table@[i as int].aligned_address == aligned,
            None => !has_word(table@, aligned),
        },
{
    let mut i: usize = 0;
    while i < table.len()
        invariant
            i <= table@.len(),
            forall|j: int| 0 <= j < i ==> table@[j].aligned_address != aligned,
        decreases table@.len() - i,
    {
        if table[i].aligned_address == aligned {
            return Some(i);
        }
        i = i + 1;
    }
    None
}

impl Inferior {
    pub open spec fn wf(&self) -> bool {
        self@.wf()
    }

    /// A handle with no process yet.
    pub fn new() -> (r: Inferior)
        ensures
            r.wf(),
            r@.state == InferiorState::Unset,
            r@.pid == 0,
            !r@.attached,
            r@.aslr,
            r@.tids.len() == 0,
            r@.args.len() == 0,
            r@.env.len() == 0,
            r@.location@.len() == 0,
            r@.cwd@.len() == 0,
            r@.breakpoints.len() == 0,
            r@.target_breakpoints.len() == 0,
            r@.breakpoint_bounds.len() == 0,
            r@.modules.len() == 0,
            !r@.always_freq,
            !r@.verbose,
            !r@.kill_requested,
            r@.start_time == 0,
            r@.stop_reason is None,
            r@.exit_code is None,
            !r@.pending_step,
            r@.rearm is None,
            !r@.resume_after_step,
    {
        Inferior {
            pid: 0,
            tids: Vec::new(),
            attached: false,
            location: String::new(),
            args: Vec::new(),
            env: Vec::new(),
            cwd: String::new(),
            state: InferiorState::Unset,
            aslr: true,
            breakpoints: Vec::new(),
            target_breakpoints: Vec::new(),
            breakpoint_bounds: Vec::new(),
            modules: Vec::new(),
            always_freq: false,
            verbose: false,
            kill_requested: false,
            start_time: 0,
            stop_reason: None,
            exit_code: None,
            pending_step: false,
            rearm: None,
            resume_after_step: false,
        }
    }

    /// Whether `op` may run now.
    pub fn gate(&self, op: Operation) -> (r: Result<(), DebugError>)
        ensures
            r == admits(op, self.state),
    {
        match op {
            Operation::Start | Operation::Attach => match self.state {
                InferiorState::Unset => Ok(()),
                _ => Err(DebugError::AlreadyTracing),
            },
            _ => match self.state {
                InferiorState::Stopped | InferiorState::Raised => Ok(()),
                InferiorState::Dead => Err(DebugError::ProcessDead),
                InferiorState::Unset | InferiorState::Startup => Err(DebugError::NoProcess),
                _ => Err(DebugError::NotStopped),
            },
        }
    }

    pub fn current_state(&self) -> (r: InferiorState)
        ensures
            r == self.state,
    {
        self.state
    }

    /// Why the tracee stopped; set only while it is stopped.
    pub fn current_stop_reason(&self) -> (r: Option<StopReason>)
        ensures
            r == self.stop_reason,
    {
        self.stop_reason
    }

    /// Records a request to run `file` with `args`. On success the caller
    /// creates the process and reports it with `on_spawned` or
    /// `on_spawn_failed`.
    pub fn start(&mut self, file: String, args: Vec<String>) -> (r: Result<(), DebugError>)
        ensures
            match admits(Operation::Start, old(self).state) {
                Err(e) => r == Err::<(), DebugError>(e) && final(self)@ == old(self)@,
                Ok(_) => r == Ok::<(), DebugError>(()) && final(self)@ == (InferiorView {
                    location: file,
                    args: args@,
                    state: InferiorState::Startup,
                    ..old(self)@
                }),
            },
    {
        match self.gate(Operation::Start) {
            Err(e) => Err(e),
            Ok(()) => {
                self.location = file;
                self.args = args;
                self.state = InferiorState::Startup;
                Ok(())
            },
        }
    }

    /// The process was created and traces itself; its image ran with
    /// address-space randomization off. Its first trap is still awaited.
    pub fn on_spawned(&mut self, pid: i32)
        ensures
            final(self)@ == (InferiorView { pid, attached: true, aslr: false, ..old(self)@ }),
    {
        self.pid = pid;
        self.attached = true;
        self.aslr = false;
    }

    /// The process could not be created: the kernel's error number is
    /// reported and the handle is dead.
    pub fn on_spawn_failed(&mut self, errno: i32) -> (r: Result<(), DebugError>)
        ensures
            r == Err::<(), DebugError>(DebugError::Kernel(errno)),
            final(self)@ == old(self)@.died(None),
    {
        self.mark_dead(None);
        Err(DebugError::Kernel(errno))
    }

    /// Takes the outcome of the caller's attach request to `pid`: on
    /// success the handle traces `pid` and awaits its first stop; on a
    /// kernel error nothing changes.
    pub fn attach(&mut self, pid: i32, outcome: Result<(), i32>) -> (r: Result<(), DebugError>)
        ensures
            (final(self)@, r) == old(self)@.attach_spec(pid, outcome),
    {
        match self.gate(Operation::Attach) {
            Err(e) => Err(e),
            Ok(()) => match outcome {
                Err(errno) => Err(DebugError::Kernel(errno)),
                Ok(()) => {
                    self.pid = pid;
                    self.attached = true;
                    self.state = InferiorState::Startup;
                    Ok(())
                },
            },
        }
    }

    /// Checks an install request; on success returns the aligned address
    /// whose word the caller reads and hands to `install_breakpoint`.
    pub fn check_install(&self, addr: u64) -> (r: Result<u64, DebugError>)
        ensures
            r == self@.install_check(addr),
    {
        match self.gate(Operation::InstallBreakpoint) {
            Err(e) => Err(e),
            Ok(()) => {
                if find_target(&self.breakpoints, addr).is_some() {
                    return Err(DebugError::DuplicateBreakpoint(addr));
                }
                let aligned = aligned_address(addr);
                if find_word(&self.breakpoints, aligned).is_some() {
                    return Err(DebugError::Overlap(addr));
                }
                Ok(aligned)
            },
        }
    }

    /// Installs a breakpoint at `addr`, given `saved`, the word the caller
    /// read at `align_down(addr)`. Returns the write that arms it.
    pub fn install_breakpoint(&mut self, addr: u64, typ: BreakpointType, saved: u64) -> (r: Result<
        WordWrite,
        DebugError,
    >)
        requires
            old(self).wf(),
        ensures
            final(self).wf(),
            old(self)@.install_post(addr, typ, saved, final(self)@, r),
    {
        match self.check_install(addr) {
            Err(e) => Err(e),
            Ok(_) => {
                let bp = crate::debug::breakpoint::set(addr, saved, typ);
                let w = bp.trap_write();
                let ghost old_bps = self.breakpoints@;
                self.breakpoints.push(bp);
                proof {
                    assert(self.breakpoints@.last() == bp);
                    assert(self.breakpoints@ == old_bps.push(bp));
                    assert forall|i: int, j: int|
                        0 <= i < j < self.breakpoints@.len() implies self.breakpoints@[i].aligned_address
                        != self.breakpoints@[j].aligned_address by {
                        if j == old_bps.len() {
                            assert(old_bps[i].aligned_address != align_down(addr));
                        }
                    }
                    if self.rearm is Some {
                        let t = self.rearm->0;
                        let k = choose|k: int| 0 <= k < old_bps.len() && old_bps[k].target_address == t;
                        assert(self.breakpoints@[k] == old_bps[k]);
                    }
                }
                Ok(w)
            },
        }
    }

    /// Removes the breakpoint at `addr`; returns the write that restores
    /// the unpatched word if the trap byte is in memory.
    pub fn remove_breakpoint(&mut self, addr: u64) -> (r: Result<Option<WordWrite>, DebugError>)
        requires
            old(self).wf(),
        ensures
            final(self).wf(),
            (final(self)@, r) == old(self)@.remove_spec(addr),
    {
        match self.gate(Operation::RemoveBreakpoint) {
            Err(e) => Err(e),
            Ok(()) => match find_target(&self.breakpoints, addr) {
                None => Err(DebugError::NotFound(addr)),
                Some(i) => {
                    let ghost old_bps = self.breakpoints@;
                    proof {
                        lemma_targets_distinct(self@);
                        assert(has_target(old_bps, addr));
                        assert(target_index(old_bps, addr) == i as int);
                    }
                    let bp = self.breakpoints.remove(i);
                    if self.rearm == Some(addr) {
                        self.rearm = None;
                    }
                    proof {
                        assert forall|a: int, b: int|
                            0 <= a < b < self.breakpoints@.len() implies self.breakpoints@[a].aligned_address
                            != self.breakpoints@[b].aligned_address by {
                            let oa = if a < i { a } else { a + 1 };
                            let ob = if b < i { b } else { b + 1 };
                            assert(self.breakpoints@[a] == old_bps[oa]);
                            assert(self.breakpoints@[b] == old_bps[ob]);
                        }
                        if self.rearm is Some {
                            let t = self.rearm->0;
                            let k = choose|k: int| 0 <= k < old_bps.len() && old_bps[k].target_address == t;
                            let nk = if k < i { k } else { k - 1 };
                            assert(self.breakpoints@[nk] == old_bps[k]);
                        }
                    }
                    if bp.enabled {
                        Ok(Some(bp.restore_write()))
                    } else {
                        Ok(None)
                    }
                },
            },
        }
    }
}

impl Inferior {
    /// Marks the tracee gone.
    fn mark_dead(&mut self, code: Option<i32>)
        ensures
            final(self)@ == old(self)@.died(code),
    {
        self.state = InferiorState::Dead;
        self.exit_code = code;
        self.stop_reason = None;
        self.pending_step = false;
        self.rearm = None;
        self.resume_after_step = false;
    }

    /// Marks the tracee halted in `state` for `reason`.
    fn mark_halted(&mut self, state: InferiorState, reason: StopReason)
        ensures
            final(self)@ == old(self)@.halted(state, reason),
    {
        self.state = state;
        self.stop_reason = Some(reason);
        self.pending_step = false;
        self.resume_after_step = false;
    }

    /// Takes a failed wait's error number: "no child" means the tracee is
    /// gone; any other error is passed on and changes nothing.
    pub fn handle_error(&mut self, errno: i32) -> (r: Result<(), DebugError>)
        ensures
            errno == ECHILD ==> r == Ok::<(), DebugError>(()) && final(self)@ == old(self)@.died(
                None,
            ),
            errno != ECHILD ==> r == Err::<(), DebugError>(DebugError::Kernel(errno))
                && final(self)@ == old(self)@,
    {
        if errno == ECHILD {
            self.mark_dead(None);
            Ok(())
        } else {
            Err(DebugError::Kernel(errno))
        }
    }

    /// Takes one result of the kernel's wait call (or its error number) and
    /// says what the caller does next.
    pub fn on_wait(&mut self, ev: Result<WaitResult, i32>) -> (r: Result<WaitStep, DebugError>)
        requires
            old(self).wf(),
        ensures
            final(self).wf(),
            (final(self)@, r) == old(self)@.wait_spec(ev),
    {
        match ev {
            Err(errno) => match self.handle_error(errno) {
                Ok(()) => Ok(WaitStep::Finished),
                Err(e) => Err(e),
            },
            Ok(w) => match classify(w) {
                StopReason::Exited(code) => {
                    self.mark_dead(Some(code));
                    Ok(WaitStep::Finished)
                },
                StopReason::GenericTrap(sig) => {
                    if self.state == InferiorState::Startup {
                        self.mark_halted(InferiorState::Stopped, StopReason::GenericTrap(sig));
                        Ok(WaitStep::Finished)
                    } else {
                        Ok(WaitStep::ReadPc)
                    }
                },
                StopReason::Signaled(sig, core) => {
                    if let WaitResult::Signaled(_, _) = w {
                        self.mark_dead(None);
                        Err(DebugError::Signal(sig, core))
                    } else if self.state == InferiorState::Startup && sig == SIGSTOP {
                        self.mark_halted(InferiorState::Stopped, StopReason::Signaled(sig, core));
                        Ok(WaitStep::Finished)
                    } else {
                        Err(DebugError::Signal(sig, core))
                    }
                },
                _ => Err(DebugError::Unhandled(w)),
            },
        }
    }

    /// Resolves a trap, given the instruction pointer the caller read. A
    /// breakpoint hit stops the tracee on it: a persistent one stays armed
    /// and is counted, a one-shot one is dropped and its word restored. A
    /// finished step re-arms the breakpoint stepped off.
    pub fn on_trap(&mut self, pc: u64) -> (r: Result<TrapAction, DebugError>)
        requires
            old(self).wf(),
        ensures
            final(self).wf(),
            (final(self)@, r) == old(self)@.trap_spec(pc),
    {
        proof {
            lemma_targets_distinct(self@);
        }
        match resolve_trap(&self.breakpoints, self.pending_step, pc) {
            StopReason::BreakpointHit(addr) => self.hit(addr),
            StopReason::SingleStepTrap => self.step_done(),
            _ => Err(DebugError::Signal(SIGTRAP, false)),
        }
    }

    fn hit(&mut self, addr: u64) -> (r: Result<TrapAction, DebugError>)
        requires
            old(self).wf(),
            armed_at(old(self)@.breakpoints, addr),
        ensures
            final(self).wf(),
            (final(self)@, r) == old(self)@.hit_spec(addr),
    {
        proof {
            lemma_targets_distinct(self@);
        }
        let ghost old_bps = self.breakpoints@;
        let i = match find_target(&self.breakpoints, addr) {
            Some(i) => i,
            // Not reached: an armed breakpoint traps at `addr`.
            None => {
                return Err(DebugError::NotFound(addr));
            },
        };
        proof {
            assert(has_target(old_bps, addr));
            assert(target_index(old_bps, addr) == i as int);
        }
        let mut bp = self.breakpoints.remove(i);
        let restore = bp.restore_write();
        if bp.freq < u64::MAX {
            bp.freq = bp.freq + 1;
        }
        let written = if bp.typ == BreakpointType::Freq {
            self.breakpoints.insert(i, bp);
            self.rearm = Some(addr);
            proof {
                assert(self.breakpoints@ =~= old_bps.update(
                    i as int,
                    Breakpoint { freq: bumped(old_bps[i as int].freq), ..old_bps[i as int] },
                ));
                assert(self.breakpoints@[i as int].wf());
                assert(self.breakpoints@[i as int].target_address == addr);
            }
            None
        } else {
            self.rearm = None;
            proof {
                assert forall|a: int, b: int|
                    0 <= a < b < self.breakpoints@.len() implies self.breakpoints@[a].aligned_address
                    != self.breakpoints@[b].aligned_address by {
                    let oa = if a < i {
                        a
                    } else {
                        a + 1
                    };
                    let ob = if b < i {
                        b
                    } else {
                        b + 1
                    };
                    assert(self.breakpoints@[a] == old_bps[oa]);
                    assert(self.breakpoints@[b] == old_bps[ob]);
                }
            }
            Some(restore)
        };
        self.mark_halted(InferiorState::Stopped, StopReason::BreakpointHit(addr));
        Ok(TrapAction::Hit { restore: written, pc: addr })
    }

    fn step_done(&mut self) -> (r: Result<TrapAction, DebugError>)
        requires
            old(self).wf(),
        ensures
            final(self).wf(),
            (final(self)@, r) == old(self)@.step_done_spec(),
    {
        proof {
            lemma_targets_distinct(self@);
        }
        let ghost old_bps = self.breakpoints@;
        let mut write: Option<WordWrite> = None;
        if let Some(t) = self.rearm {
            if let Some(j) = find_target(&self.breakpoints, t) {
                proof {
                    assert(has_target(old_bps, t));
                    assert(target_index(old_bps, t) == j as int);
                }
                let mut bp = self.breakpoints.remove(j);
                write = Some(bp.trap_write());
                bp.enabled = true;
                self.breakpoints.insert(j, bp);
                proof {
                    assert(self.breakpoints@ =~= old_bps.update(
                        j as int,
                        Breakpoint { enabled: true, ..old_bps[j as int] },
                    ));
                    assert(self.breakpoints@[j as int].wf());
                }
            }
        }
        self.rearm = None;
        if self.resume_after_step {
            self.state = InferiorState::Running;
            self.stop_reason = None;
            self.pending_step = false;
            self.resume_after_step = false;
            Ok(TrapAction::Stepped { rearm: write, resume: true })
        } else {
            self.mark_halted(InferiorState::Raised, StopReason::SingleStepTrap);
            Ok(TrapAction::Stepped { rearm: write, resume: false })
        }
    }

    /// Disarms, for one step, the breakpoint the tracee is stopped on, and
    /// returns the write that puts its unpatched word back.
    fn step_over(&mut self) -> (r: Option<WordWrite>)
        requires
            old(self).wf(),
        ensures
            final(self).wf(),
            (final(self)@, r) == old(self)@.step_over_spec(),
    {
        proof {
            lemma_targets_distinct(self@);
        }
        let ghost old_bps = self.breakpoints@;
        if let Some(t) = self.rearm {
            if let Some(j) = find_target(&self.breakpoints, t) {
                proof {
                    assert(has_target(old_bps, t));
                    assert(target_index(old_bps, t) == j as int);
                }
                let mut bp = self.breakpoints.remove(j);
                let w = bp.restore_write();
                bp.enabled = false;
                self.breakpoints.insert(j, bp);
                proof {
                    assert(self.breakpoints@ =~= old_bps.update(
                        j as int,
                        Breakpoint { enabled: false, ..old_bps[j as int] },
                    ));
                    assert(self.breakpoints@[j as int].wf());
                    assert(self.breakpoints@[j as int].target_address == t);
                }
                return Some(w);
            }
        }
        None
    }

    /// Resumes a stopped tracee. If it is stopped on an armed breakpoint the
    /// caller writes the unpatched word and single-steps first (the step's
    /// trap re-arms the breakpoint), else it continues; either way it then
    /// waits.
    pub fn resume(&mut self) -> (r: Result<ResumePlan, DebugError>)
        requires
            old(self).wf(),
        ensures
            final(self).wf(),
            (final(self)@, r) == old(self)@.resume_spec(),
    {
        match self.gate(Operation::Resume) {
            Err(e) => Err(e),
            Ok(()) => match self.step_over() {
                Some(restore) => {
                    self.state = InferiorState::Running;
                    self.stop_reason = None;
                    self.pending_step = true;
                    self.resume_after_step = true;
                    Ok(ResumePlan::StepOver(restore))
                },
                None => {
                    self.state = InferiorState::Running;
                    self.stop_reason = None;
                    Ok(ResumePlan::Continue)
                },
            },
        }
    }

    /// Single-steps a stopped tracee: the caller makes the returned write if
    /// any (the tracee is stopped on an armed breakpoint), issues the step,
    /// then waits; the step's trap leaves the tracee `Raised`.
    pub fn step(&mut self) -> (r: Result<Option<WordWrite>, DebugError>)
        requires
            old(self).wf(),
        ensures
            final(self).wf(),
            (final(self)@, r) == old(self)@.step_spec(),
    {
        match self.gate(Operation::Step) {
            Err(e) => Err(e),
            Ok(()) => {
                let w = self.step_over();
                self.state = InferiorState::Running;
                self.stop_reason = None;
                self.pending_step = true;
                self.resume_after_step = false;
                Ok(w)
            },
        }
    }

    /// Records when tracing began, in seconds since the Unix epoch.
    pub fn set_start_time(&mut self, secs: u64)
        ensures
            final(self)@ == (InferiorView { start_time: secs, ..old(self)@ }),
    {
        self.start_time = secs;
    }

    /// Chooses whether breakpoint hits are only counted, not reported.
    pub fn set_always_freq(&mut self, val: bool)
        ensures
            final(self)@ == (InferiorView { always_freq: val, ..old(self)@ }),
    {
        self.always_freq = val;
    }

    /// Chooses whether more status is reported while running.
    pub fn set_verbose(&mut self, val: bool)
        ensures
            final(self)@ == (InferiorView { verbose: val, ..old(self)@ }),
    {
        self.verbose = val;
    }

    /// Checks a register read: the caller makes it only on `Ok`.
    pub fn registers(&self) -> (r: Result<(), DebugError>)
        ensures
            r == admits(Operation::ReadRegisters, self.state),
    {
        self.gate(Operation::ReadRegisters)
    }
}

impl Default for Inferior {
    /// A handle with no process yet, as `Inferior::new`.
    fn default() -> (r: Inferior)
        ensures
            r.wf(),
            r@.state == InferiorState::Unset,
            r@.breakpoints.len() == 0,
            r@.stop_reason is None,
            r@.rearm is None,
            !r@.pending_step,
    {
        Inferior::new()
    }
}

} // verus!
