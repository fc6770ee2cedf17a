//! Properties that hold across several operations of the debugger.

use vstd::prelude::*;
use crate::debug::breakpoint::{restore_write_of, trap_write_of, Breakpoint, BreakpointType};
use crate::debug::word::{
    align_down, apply_write, byte_at, byte_index, lemma_patched_bytes, WordWrite, TRAP_OPCODE,
};
use crate::inferior::stop::{armed_at, StopReason, WaitResult, SIGTRAP};
use crate::inferior::{
    admits, bumped, has_target, lemma_targets_distinct, target_index, DebugError, InferiorState,
    InferiorView, Operation, ResumePlan, TrapAction, WaitStep,
};

verus! {

/// Installing a breakpoint and removing it at once leaves the tracee's
/// memory exactly as it was before the install, and the handle too.
pub proof fn lemma_install_remove_round_trip(
    v: InferiorView,
    addr: u64,
    typ: BreakpointType,
    mem: Map<u64, u64>,
    v1: InferiorView,
    r1: Result<WordWrite, DebugError>,
)
    requires
        v.wf(),
        v.install_check(addr) is Ok,
        mem.contains_key(align_down(addr)),
        v.install_post(addr, typ, mem[align_down(addr)], v1, r1),
    ensures
        ({
            let (v2, r2) = v1.remove_spec(addr);
            &&& r1 is Ok
            &&& r2 is Ok
            &&& r2->Ok_0 is Some
            &&& apply_write(apply_write(mem, r1->Ok_0), r2->Ok_0->Some_0) == mem
            &&& v2 == v
        }),
{
    let bp = v1.breakpoints.last();
    let n = v.breakpoints.len() as int;
    assert(v1.breakpoints[n] == bp);
    assert(has_target(v1.breakpoints, addr));
    assert(!has_target(v.breakpoints, addr));
    assert forall|k: int| 0 <= k < n implies v1.breakpoints[k].target_address != addr by {
        assert(v1.breakpoints[k] == v.breakpoints[k]);
    }
    assert(target_index(v1.breakpoints, addr) == n);
    assert(v1.breakpoints.remove(n) =~= v.breakpoints);
    if v.rearm is Some {
        assert(v.rearm != Some(addr));
    }
    let a = align_down(addr);
    assert(apply_write(apply_write(mem, trap_write_of(bp)), restore_write_of(bp)) =~= mem);
}

/// The breakpoint table once the tracee, stopped on the persistent
/// breakpoint at `addr` after a hit, has been resumed and is stepping over
/// it.
pub open spec fn stepping_table(v: InferiorView, addr: u64) -> Seq<Breakpoint> {
    v.trap_spec((addr + 1) as u64).0.resume_spec().0.breakpoints
}

/// A persistent breakpoint stays armed through a hit. On the hit the tracee
/// stops at the breakpoint with the trap byte still in memory and the saved
/// word unchanged; nothing is written. The next resume writes the unpatched
/// word back for one single step and writes the trap again when the step
/// ends, so memory is as before and the handle is ready for the next hit.
pub proof fn lemma_rearm_after_hit(v: InferiorView, addr: u64, step_pc: u64, mem: Map<u64, u64>)
    requires
        v.wf(),
        addr < u64::MAX,
        !v.pending_step,
        armed_at(v.breakpoints, addr),
        v.breakpoints[target_index(v.breakpoints, addr)].typ == BreakpointType::Freq,
        mem.contains_key(align_down(addr)),
        mem[align_down(addr)] == trap_write_of(v.breakpoints[target_index(v.breakpoints, addr)]).word,
        step_pc == 0 || !armed_at(stepping_table(v, addr), (step_pc - 1) as u64),
    ensures
        ({
            let i = target_index(v.breakpoints, addr);
            let bp = v.breakpoints[i];
            let (v1, r1) = v.trap_spec((addr + 1) as u64);
            let (v2, r2) = v1.resume_spec();
            let (v3, r3) = v2.trap_spec(step_pc);
            let bp1 = v1.breakpoints[i];
            let mem2 = apply_write(mem, restore_write_of(bp1));
            let mem3 = apply_write(mem2, trap_write_of(v3.breakpoints[i]));
            &&& r1 == Ok::<TrapAction, DebugError>(TrapAction::Hit { restore: None, pc: addr })
            &&& v1.state == InferiorState::Stopped
            &&& v1.stop_reason == Some(StopReason::BreakpointHit(addr))
            &&& bp1 == (Breakpoint { freq: bumped(bp.freq), ..bp })
            &&& bp1.enabled
            &&& bp1.saved == bp.saved
            &&& armed_at(v1.breakpoints, addr)
            &&& byte_at(mem, addr) == TRAP_OPCODE
            &&& mem[align_down(addr)] == trap_write_of(bp1).word
            &&& r2 == Ok::<ResumePlan, DebugError>(ResumePlan::StepOver(restore_write_of(bp1)))
            &&& mem2[align_down(addr)] == bp.saved
            &&& r3 == Ok::<TrapAction, DebugError>(
                TrapAction::Stepped { rearm: Some(trap_write_of(bp1)), resume: true },
            )
            &&& mem3 == mem
            &&& v3.breakpoints[i] == bp1
            &&& v3.wf()
            &&& v3.state == InferiorState::Running
            &&& !v3.pending_step
            &&& target_index(v3.breakpoints, addr) == i
            &&& armed_at(v3.breakpoints, addr)
        }),
{
    lemma_targets_distinct(v);
    let i = target_index(v.breakpoints, addr);
    let bp = v.breakpoints[i];
    assert(has_target(v.breakpoints, addr));
    assert(bp.target_address == addr);
    let (v1, r1) = v.trap_spec((addr + 1) as u64);
    assert(v1 == v.hit_spec(addr).0);
    let bp1 = v1.breakpoints[i];
    assert(has_target(v1.breakpoints, addr)) by {
        assert(v1.breakpoints[i].target_address == addr);
    }
    assert(target_index(v1.breakpoints, addr) == i) by {
        let j = target_index(v1.breakpoints, addr);
        if j != i {
            assert(v1.breakpoints[j] == v.breakpoints[j]);
        }
    }
    let (v2, r2) = v1.resume_spec();
    assert(v2.breakpoints == v1.breakpoints.update(i, Breakpoint { enabled: false, ..bp1 }));
    assert(has_target(v2.breakpoints, addr)) by {
        assert(v2.breakpoints[i].target_address == addr);
    }
    assert(target_index(v2.breakpoints, addr) == i) by {
        let j = target_index(v2.breakpoints, addr);
        if j != i {
            assert(v2.breakpoints[j] == v.breakpoints[j]);
        }
    }
    let (v3, r3) = v2.trap_spec(step_pc);
    assert(v3 == v2.step_done_spec().0);
    assert(v3.breakpoints[i] == bp1);
    assert(v3.wf()) by {
        assert forall|a: int| 0 <= a < v3.breakpoints.len() implies (#[trigger] v3.breakpoints[a]).wf() by {
            if a != i {
                assert(v3.breakpoints[a] == v.breakpoints[a]);
            }
        }
        assert forall|a: int, b: int|
            0 <= a < b < v3.breakpoints.len() implies v3.breakpoints[a].aligned_address
            != v3.breakpoints[b].aligned_address by {
            assert(v3.breakpoints[a].aligned_address == v.breakpoints[a].aligned_address);
            assert(v3.breakpoints[b].aligned_address == v.breakpoints[b].aligned_address);
        }
    }
    assert(target_index(v3.breakpoints, addr) == i) by {
        assert(has_target(v3.breakpoints, addr));
        let j = target_index(v3.breakpoints, addr);
        if j != i {
            assert(v3.breakpoints[j] == v.breakpoints[j]);
        }
    }
    let mem2 = apply_write(mem, restore_write_of(bp1));
    let mem3 = apply_write(mem2, trap_write_of(v3.breakpoints[i]));
    assert(mem3 =~= mem);
    assert(bp.shift / 8 == byte_index(addr));
    lemma_patched_bytes(bp.saved, byte_index(addr), byte_index(addr));
}

/// The handle after `n` rounds of: a hit on the breakpoint at `addr`, a
/// resume, and the single step off it that ends with the instruction
/// pointer at `step_pc`.
pub open spec fn hit_cycles(v: InferiorView, addr: u64, step_pc: u64, n: nat) -> InferiorView
    decreases n,
{
    if n == 0 {
        v
    } else {
        let v1 = v.trap_spec((addr + 1) as u64).0;
        let v2 = v1.resume_spec().0;
        hit_cycles(v2.trap_spec(step_pc).0, addr, step_pc, (n - 1) as nat)
    }
}

/// A persistent breakpoint hit any number of times in a row stays armed:
/// before and after every round it is enabled, its saved word is the one
/// first captured, and the word in memory carries its trap byte.
pub proof fn lemma_rearm_after_hits(
    v: InferiorView,
    addr: u64,
    step_pc: u64,
    mem: Map<u64, u64>,
    n: nat,
)
    requires
        v.wf(),
        addr < u64::MAX,
        !v.pending_step,
        armed_at(v.breakpoints, addr),
        v.breakpoints[target_index(v.breakpoints, addr)].typ == BreakpointType::Freq,
        mem.contains_key(align_down(addr)),
        mem[align_down(addr)] == trap_write_of(v.breakpoints[target_index(v.breakpoints, addr)]).word,
        step_pc == 0 || !armed_at(stepping_table(v, addr), (step_pc - 1) as u64),
    ensures
        ({
            let i = target_index(v.breakpoints, addr);
            let vn = hit_cycles(v, addr, step_pc, n);
            &&& vn.wf()
            &&& !vn.pending_step
            &&& armed_at(vn.breakpoints, addr)
            &&& target_index(vn.breakpoints, addr) == i
            &&& vn.breakpoints[i].typ == BreakpointType::Freq
            &&& vn.breakpoints[i].saved == v.breakpoints[i].saved
            &&& trap_write_of(vn.breakpoints[i]) == trap_write_of(v.breakpoints[i])
            &&& byte_at(mem, addr) == TRAP_OPCODE
            &&& step_pc == 0 || !armed_at(stepping_table(vn, addr), (step_pc - 1) as u64)
        }),
    decreases n,
{
    lemma_rearm_after_hit(v, addr, step_pc, mem);
    let i = target_index(v.breakpoints, addr);
    if n > 0 {
        let v1 = v.trap_spec((addr + 1) as u64).0;
        let v2 = v1.resume_spec().0;
        let v3 = v2.trap_spec(step_pc).0;
        assert(v3.breakpoints.len() == v.breakpoints.len());
        assert forall|j: int| 0 <= j < v.breakpoints.len() && j != i implies v3.breakpoints[j]
            == v.breakpoints[j] by {}
        if step_pc != 0 {
            lemma_rearm_after_hit(v3, addr, step_pc, mem);
            let a = (step_pc - 1) as u64;
            let h = stepping_table(v, addr);
            let h3 = stepping_table(v3, addr);
            assert(h == v2.breakpoints);
            assert(h.len() == h3.len());
            assert(h3[i].target_address == addr);
            assert(!h3[i].enabled);
            assert forall|j: int| 0 <= j < h3.len() implies !(h3[j].target_address == a
                && h3[j].enabled) by {
                if j != i {
                    assert(h3[j] == v3.breakpoints[j]);
                    assert(h[j] == v.breakpoints[j]);
                }
            }
        }
        lemma_rearm_after_hits(v3, addr, step_pc, mem, (n - 1) as nat);
    }
}

/// Every operation, in every lifecycle state, is either admitted or refused
/// with a usage error, and a refused request leaves the handle unchanged.
pub proof fn lemma_operations_total(v: InferiorView, op: Operation, addr: u64)
    ensures
        admits(op, v.state) is Ok || admits(op, v.state)->Err_0.is_usage(),
        v.install_check(addr) is Ok || v.install_check(addr)->Err_0.is_usage(),
        v.remove_spec(addr).1 is Ok || (v.remove_spec(addr).1->Err_0.is_usage()
            && v.remove_spec(addr).0 == v),
        v.resume_spec().1 is Ok || (v.resume_spec().1->Err_0.is_usage() && v.resume_spec().0
            == v),
{
}

/// Once the tracee is dead nothing but a refusal comes back: resume, step,
/// breakpoint changes and reads fail with `ProcessDead`, a new start or
/// attach on the same handle with `AlreadyTracing`, and the handle stays dead.
pub proof fn lemma_dead_is_final(v: InferiorView, op: Operation, addr: u64)
    requires
        v.state == InferiorState::Dead,
    ensures
        op != Operation::Start && op != Operation::Attach ==> admits(op, v.state) == Err::<
            (),
            DebugError,
        >(DebugError::ProcessDead),
        op == Operation::Start || op == Operation::Attach ==> admits(op, v.state) == Err::<
            (),
            DebugError,
        >(DebugError::AlreadyTracing),
        v.install_check(addr) == Err::<u64, DebugError>(DebugError::ProcessDead),
        v.remove_spec(addr) == (v, Err::<Option<WordWrite>, DebugError>(DebugError::ProcessDead)),
        v.resume_spec() == (v, Err::<ResumePlan, DebugError>(DebugError::ProcessDead)),
{
}

/// Removing one breakpoint writes only its own word: the byte at every other
/// breakpoint's address, its trap byte included, is left as it was.
pub proof fn lemma_remove_keeps_others(v: InferiorView, addr: u64, k: int, mem: Map<u64, u64>)
    requires
        v.wf(),
        v.remove_spec(addr).1 matches Ok(Some(_)),
        0 <= k < v.breakpoints.len(),
        v.breakpoints[k].target_address != addr,
        mem.contains_key(v.breakpoints[k].aligned_address),
    ensures
        byte_at(apply_write(mem, v.remove_spec(addr).1->Ok_0->Some_0), v.breakpoints[k].target_address)
            == byte_at(mem, v.breakpoints[k].target_address),
{
    let i = target_index(v.breakpoints, addr);
    assert(v.breakpoints[i].target_address == addr);
    assert(v.breakpoints[k].wf());
    assert(v.breakpoints[i].wf());
    if i < k {
        assert(v.breakpoints[i].aligned_address != v.breakpoints[k].aligned_address);
    } else {
        assert(v.breakpoints[k].aligned_address != v.breakpoints[i].aligned_address);
    }
}

/// A breakpoint installed on a stopped tracee is hit when execution reaches
/// it: the resume continues, the wait reports a trap, and the trap resolves
/// to a hit on that breakpoint. The tracee is then stopped for that reason,
/// the unpatched word is written back, and the instruction pointer is set to
/// the breakpoint's address.
pub proof fn lemma_breakpoint_hit_at_entry(
    v: InferiorView,
    entry: u64,
    typ: BreakpointType,
    saved: u64,
    v1: InferiorView,
    r1: Result<WordWrite, DebugError>,
)
    requires
        v.wf(),
        entry < u64::MAX,
        v.rearm is None,
        !v.pending_step,
        v.install_check(entry) is Ok,
        v.install_post(entry, typ, saved, v1, r1),
    ensures
        ({
            let (v2, r2) = v1.resume_spec();
            let (v3, r3) = v2.wait_spec(Ok(WaitResult::Stopped(SIGTRAP)));
            let (v4, r4) = v3.trap_spec((entry + 1) as u64);
            &&& r2 == Ok::<ResumePlan, DebugError>(ResumePlan::Continue)
            &&& r3 == Ok::<WaitStep, DebugError>(WaitStep::ReadPc)
            &&& r4 == Ok::<TrapAction, DebugError>(
                TrapAction::Hit {
                    restore: if typ == BreakpointType::Freq {
                        None
                    } else {
                        Some(WordWrite { address: align_down(entry), word: saved })
                    },
                    pc: entry,
                },
            )
            &&& v4.state == InferiorState::Stopped
            &&& v4.stop_reason == Some(StopReason::BreakpointHit(entry))
        }),
{
    let n = v.breakpoints.len() as int;
    let bp = v1.breakpoints.last();
    assert(v1.breakpoints[n] == bp);
    assert(!has_target(v.breakpoints, entry));
    assert forall|k: int| 0 <= k < n implies v1.breakpoints[k].target_address != entry by {
        assert(v1.breakpoints[k] == v.breakpoints[k]);
    }
    let (v2, r2) = v1.resume_spec();
    let (v3, r3) = v2.wait_spec(Ok(WaitResult::Stopped(SIGTRAP)));
    assert(v3 == v2);
    assert(armed_at(v3.breakpoints, entry));
    assert(has_target(v3.breakpoints, entry));
    assert(target_index(v3.breakpoints, entry) == n);
}

/// Attaching to a process that the kernel refuses (it does not exist)
/// returns that kernel error and leaves the handle as it was: still with no
/// process, not attached, no partial state.
pub proof fn lemma_failed_attach_changes_nothing(v: InferiorView, pid: i32, errno: i32)
    requires
        v.state == InferiorState::Unset,
    ensures
        v.attach_spec(pid, Err(errno)) == (v, Err::<(), DebugError>(DebugError::Kernel(errno))),
{
}

} // verus!
