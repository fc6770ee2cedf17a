use std::collections::HashMap;

use rustdbg::debug::breakpoint::BreakpointType;
use rustdbg::debug::word::WordWrite;
use rustdbg::inferior::stop::{StopReason, WaitResult, SIGTRAP};
use rustdbg::inferior::{
    DebugError, Inferior, InferiorState, ResumePlan, TrapAction, WaitStep,
};

fn apply(mem: &mut HashMap<u64, u64>, w: WordWrite) {
    mem.insert(w.address, w.word);
}

fn byte_at(mem: &HashMap<u64, u64>, addr: u64) -> u8 {
    let w = mem[&(addr & !7)];
    ((w >> ((addr % 8) * 8)) & 0xff) as u8
}

fn started(path: &str) -> Inferior {
    let mut inf = Inferior::new();
    assert_eq!(inf.start(path.to_string(), vec![]), Ok(()));
    assert_eq!(inf.current_state(), InferiorState::Startup);
    inf.on_spawned(4242);
    assert_eq!(inf.on_wait(Ok(WaitResult::Stopped(SIGTRAP))), Ok(WaitStep::Finished));
    inf
}

#[test]
fn start_true_stops_then_exits_zero() {
    let mut inf = started("/bin/true");
    assert_eq!(inf.current_state(), InferiorState::Stopped);
    assert!(inf.attached);
    assert_eq!(inf.pid, 4242);
    assert!(!inf.aslr);
    assert_eq!(inf.resume(), Ok(ResumePlan::Continue));
    assert_eq!(inf.current_state(), InferiorState::Running);
    assert_eq!(inf.on_wait(Ok(WaitResult::Exited(0))), Ok(WaitStep::Finished));
    assert_eq!(inf.current_state(), InferiorState::Dead);
    assert_eq!(inf.exit_code, Some(0));
    assert_eq!(inf.current_stop_reason(), None);
}

#[test]
fn breakpoint_at_entry_is_hit() {
    let entry: u64 = 0x401000;
    let saved: u64 = 0x9090_9090_9090_4855;
    let mut mem = HashMap::new();
    mem.insert(entry, saved);
    let mut inf = started("/bin/true");
    assert_eq!(inf.check_install(entry), Ok(entry));
    let w = inf.install_breakpoint(entry, BreakpointType::Freq, saved).unwrap();
    assert_eq!(w, WordWrite { address: entry, word: 0x9090_9090_9090_48cc });
    apply(&mut mem, w);
    assert_eq!(inf.resume(), Ok(ResumePlan::Continue));
    assert_eq!(inf.on_wait(Ok(WaitResult::Stopped(SIGTRAP))), Ok(WaitStep::ReadPc));
    let act = inf.on_trap(entry + 1).unwrap();
    assert_eq!(act, TrapAction::Hit { restore: None, pc: entry });
    assert_eq!(inf.current_state(), InferiorState::Stopped);
    assert_eq!(inf.current_stop_reason(), Some(StopReason::BreakpointHit(entry)));
    assert_eq!(byte_at(&mem, entry), 0xcc);
    assert!(inf.breakpoints[0].enabled);
    assert_eq!(inf.registers(), Ok(()));
}

#[test]
fn one_shot_breakpoint_at_entry_restores_the_word() {
    let entry: u64 = 0x401000;
    let saved: u64 = 0x9090_9090_9090_4855;
    let mut mem = HashMap::new();
    mem.insert(entry, saved);
    let mut inf = started("/bin/true");
    let w = inf.install_breakpoint(entry, BreakpointType::Single, saved).unwrap();
    apply(&mut mem, w);
    inf.resume().unwrap();
    inf.on_wait(Ok(WaitResult::Stopped(SIGTRAP))).unwrap();
    let act = inf.on_trap(entry + 1).unwrap();
    assert_eq!(
        act,
        TrapAction::Hit { restore: Some(WordWrite { address: entry, word: saved }), pc: entry }
    );
    if let TrapAction::Hit { restore: Some(r), .. } = act {
        apply(&mut mem, r);
    }
    assert_eq!(mem[&entry], saved);
    assert_eq!(inf.current_stop_reason(), Some(StopReason::BreakpointHit(entry)));
}

#[test]
fn removing_one_breakpoint_keeps_the_other() {
    let a: u64 = 0x401003;
    let b: u64 = 0x402005;
    let mut mem = HashMap::new();
    mem.insert(0x401000, 0x1111_1111_1111_1111u64);
    mem.insert(0x402000, 0x2222_2222_2222_2222u64);
    let mut inf = started("/bin/true");
    let wa = inf.install_breakpoint(a, BreakpointType::Freq, mem[&0x401000]).unwrap();
    apply(&mut mem, wa);
    let wb = inf.install_breakpoint(b, BreakpointType::Freq, mem[&0x402000]).unwrap();
    apply(&mut mem, wb);
    assert_eq!(byte_at(&mem, a), 0xcc);
    assert_eq!(byte_at(&mem, b), 0xcc);
    let r = inf.remove_breakpoint(a).unwrap().unwrap();
    assert_eq!(r, WordWrite { address: 0x401000, word: 0x1111_1111_1111_1111 });
    apply(&mut mem, r);
    assert_eq!(byte_at(&mem, a), 0x11);
    assert_eq!(byte_at(&mem, b), 0xcc);
    assert_eq!(mem[&0x402000], 0x2222_2222_2222_2222u64 & !(0xff << 40) | (0xcc << 40));
}

#[test]
fn attach_to_missing_process_fails() {
    let mut inf = Inferior::new();
    assert_eq!(inf.attach(999_999, Err(3)), Err(DebugError::Kernel(3)));
    assert_eq!(inf.current_state(), InferiorState::Unset);
    assert!(!inf.attached);
    assert_eq!(inf.pid, 0);
}

#[test]
fn attach_waits_for_the_stop_signal() {
    let mut inf = Inferior::new();
    assert_eq!(inf.attach(77, Ok(())), Ok(()));
    assert_eq!(inf.current_state(), InferiorState::Startup);
    assert_eq!(inf.on_wait(Ok(WaitResult::Stopped(19))), Ok(WaitStep::Finished));
    assert_eq!(inf.current_state(), InferiorState::Stopped);
    assert_eq!(inf.pid, 77);
    assert_eq!(inf.attach(78, Ok(())), Err(DebugError::AlreadyTracing));
}

#[test]
fn trap_event_zero_is_the_first_stop() {
    let mut inf = Inferior::new();
    assert_eq!(inf.attach(88, Ok(())), Ok(()));
    assert_eq!(inf.on_wait(Ok(WaitResult::PtraceEvent(SIGTRAP, 0))), Ok(WaitStep::Finished));
    assert_eq!(inf.current_state(), InferiorState::Stopped);
    assert_eq!(inf.current_stop_reason(), Some(StopReason::GenericTrap(SIGTRAP)));
}

#[test]
fn persistent_breakpoint_rearms_after_each_hit() {
    let addr: u64 = 0x401006;
    let saved: u64 = 0x0102_0304_0506_0708;
    let mut mem = HashMap::new();
    mem.insert(0x401000, saved);
    let mut inf = started("/bin/true");
    let w = inf.install_breakpoint(addr, BreakpointType::Freq, saved).unwrap();
    apply(&mut mem, w);
    assert_eq!(inf.resume(), Ok(ResumePlan::Continue));
    for n in 1..=3u64 {
        assert_eq!(inf.on_wait(Ok(WaitResult::Stopped(SIGTRAP))), Ok(WaitStep::ReadPc));
        assert_eq!(inf.on_trap(addr + 1), Ok(TrapAction::Hit { restore: None, pc: addr }));
        assert_eq!(inf.current_state(), InferiorState::Stopped);
        assert_eq!(byte_at(&mem, addr), 0xcc);
        assert_eq!(inf.breakpoints[0].freq, n);
        assert!(inf.breakpoints[0].enabled);
        assert_eq!(inf.breakpoints[0].saved, saved);
        let plan = inf.resume().unwrap();
        assert_eq!(plan, ResumePlan::StepOver(WordWrite { address: 0x401000, word: saved }));
        if let ResumePlan::StepOver(w) = plan {
            apply(&mut mem, w);
        }
        assert_eq!(mem[&0x401000], saved);
        assert!(!inf.breakpoints[0].enabled);
        assert_eq!(inf.on_wait(Ok(WaitResult::Stopped(SIGTRAP))), Ok(WaitStep::ReadPc));
        match inf.on_trap(addr + 3).unwrap() {
            TrapAction::Stepped { rearm: Some(w), resume: true } => apply(&mut mem, w),
            other => panic!("unexpected {:?}", other),
        }
        assert_eq!(byte_at(&mem, addr), 0xcc);
        assert_eq!(inf.breakpoints[0].saved, saved);
        assert!(inf.breakpoints[0].enabled);
        assert_eq!(inf.current_state(), InferiorState::Running);
    }
}

#[test]
fn one_shot_breakpoint_is_dropped_after_hit() {
    let addr: u64 = 0x401000;
    let mut inf = started("/bin/true");
    inf.install_breakpoint(addr, BreakpointType::Single, 0x55).unwrap();
    inf.resume().unwrap();
    assert_eq!(inf.on_wait(Ok(WaitResult::Stopped(SIGTRAP))), Ok(WaitStep::ReadPc));
    assert!(matches!(inf.on_trap(addr + 1), Ok(TrapAction::Hit { .. })));
    assert!(inf.breakpoints.is_empty());
    assert_eq!(inf.rearm, None);
    assert_eq!(inf.resume(), Ok(ResumePlan::Continue));
}

#[test]
fn dead_process_refuses_everything() {
    let mut inf = started("/bin/true");
    inf.resume().unwrap();
    inf.on_wait(Ok(WaitResult::Exited(3))).unwrap();
    assert_eq!(inf.exit_code, Some(3));
    assert_eq!(inf.resume(), Err(DebugError::ProcessDead));
    assert_eq!(inf.check_install(0x1000), Err(DebugError::ProcessDead));
    assert_eq!(
        inf.install_breakpoint(0x1000, BreakpointType::Freq, 0),
        Err(DebugError::ProcessDead)
    );
    assert_eq!(inf.remove_breakpoint(0x1000), Err(DebugError::ProcessDead));
    assert_eq!(inf.step(), Err(DebugError::ProcessDead));
    assert_eq!(inf.registers(), Err(DebugError::ProcessDead));
    assert_eq!(inf.start("/bin/ls".to_string(), vec![]), Err(DebugError::AlreadyTracing));
    assert_eq!(inf.current_state(), InferiorState::Dead);
}

#[test]
fn operations_before_a_process_are_usage_errors() {
    let mut inf = Inferior::new();
    assert_eq!(inf.resume(), Err(DebugError::NoProcess));
    assert_eq!(inf.check_install(0x1000), Err(DebugError::NoProcess));
    assert_eq!(inf.remove_breakpoint(0x1000), Err(DebugError::NoProcess));
    assert_eq!(inf.step(), Err(DebugError::NoProcess));
    let mut running = started("/bin/true");
    running.resume().unwrap();
    assert_eq!(running.resume(), Err(DebugError::NotStopped));
    assert_eq!(running.check_install(0x1000), Err(DebugError::NotStopped));
    assert_eq!(running.current_state(), InferiorState::Running);
}

#[test]
fn single_step_raises() {
    let mut inf = started("/bin/true");
    assert_eq!(inf.step(), Ok(None));
    assert!(inf.pending_step);
    assert_eq!(inf.on_wait(Ok(WaitResult::Stopped(SIGTRAP))), Ok(WaitStep::ReadPc));
    assert_eq!(
        inf.on_trap(0x401234),
        Ok(TrapAction::Stepped { rearm: None, resume: false })
    );
    assert_eq!(inf.current_state(), InferiorState::Raised);
    assert_eq!(inf.current_stop_reason(), Some(StopReason::SingleStepTrap));
    assert_eq!(inf.resume(), Ok(ResumePlan::Continue));
}

#[test]
fn foreign_trap_is_reported() {
    let mut inf = started("/bin/true");
    inf.resume().unwrap();
    assert_eq!(inf.on_wait(Ok(WaitResult::Stopped(SIGTRAP))), Ok(WaitStep::ReadPc));
    assert_eq!(inf.on_trap(0x500000), Err(DebugError::Signal(SIGTRAP, false)));
    assert_eq!(inf.current_state(), InferiorState::Running);
}

#[test]
fn wait_errors_and_signals() {
    let mut inf = started("/bin/true");
    inf.resume().unwrap();
    assert_eq!(inf.on_wait(Err(4)), Err(DebugError::Kernel(4)));
    assert_eq!(inf.current_state(), InferiorState::Running);
    assert_eq!(inf.on_wait(Ok(WaitResult::Stopped(11))), Err(DebugError::Signal(11, false)));
    assert_eq!(
        inf.on_wait(Ok(WaitResult::PtraceSyscall)),
        Err(DebugError::Unhandled(WaitResult::PtraceSyscall))
    );
    assert_eq!(inf.on_wait(Ok(WaitResult::Continued)), Err(DebugError::Unhandled(WaitResult::Continued)));
    assert_eq!(inf.current_state(), InferiorState::Running);
    assert_eq!(inf.on_wait(Ok(WaitResult::Signaled(9, true))), Err(DebugError::Signal(9, true)));
    assert_eq!(inf.current_state(), InferiorState::Dead);

    let mut lost = started("/bin/true");
    lost.resume().unwrap();
    assert_eq!(lost.on_wait(Err(10)), Ok(WaitStep::Finished));
    assert_eq!(lost.current_state(), InferiorState::Dead);
    assert_eq!(lost.exit_code, None);
}

#[test]
fn handle_error_only_tolerates_lost_child() {
    let mut inf = started("/bin/true");
    assert_eq!(inf.handle_error(1), Err(DebugError::Kernel(1)));
    assert_eq!(inf.current_state(), InferiorState::Stopped);
    assert_eq!(inf.handle_error(10), Ok(()));
    assert_eq!(inf.current_state(), InferiorState::Dead);
}

#[test]
fn spawn_failure_is_death() {
    let mut inf = Inferior::new();
    inf.start("/nonexistent".to_string(), vec!["a".to_string()]).unwrap();
    assert_eq!(inf.location, "/nonexistent");
    assert_eq!(inf.args, vec!["a".to_string()]);
    assert_eq!(inf.on_spawn_failed(11), Err(DebugError::Kernel(11)));
    assert_eq!(inf.current_state(), InferiorState::Dead);
}

#[test]
fn setters_change_only_their_flag() {
    let mut inf = Inferior::new();
    inf.set_verbose(true);
    inf.set_always_freq(true);
    assert!(inf.verbose);
    assert!(inf.always_freq);
    assert_eq!(inf.current_state(), InferiorState::Unset);
}

#[test]
fn stepping_off_a_breakpoint_rearms_it() {
    let addr: u64 = 0x401000;
    let mut inf = started("/bin/true");
    inf.install_breakpoint(addr, BreakpointType::Freq, 0x55).unwrap();
    inf.resume().unwrap();
    inf.on_wait(Ok(WaitResult::Stopped(SIGTRAP))).unwrap();
    inf.on_trap(addr + 1).unwrap();
    assert_eq!(inf.step(), Ok(Some(WordWrite { address: addr, word: 0x55 })));
    assert!(!inf.breakpoints[0].enabled);
    inf.on_wait(Ok(WaitResult::Stopped(SIGTRAP))).unwrap();
    assert_eq!(
        inf.on_trap(addr + 2),
        Ok(TrapAction::Stepped { rearm: Some(WordWrite { address: addr, word: 0xcc }), resume: false })
    );
    assert!(inf.breakpoints[0].enabled);
    assert_eq!(inf.current_state(), InferiorState::Raised);
    assert_eq!(inf.rearm, None);
}

#[test]
fn start_time_is_recorded() {
    let mut inf = Inferior::new();
    assert_eq!(inf.start_time, 0);
    inf.set_start_time(1_700_000_000);
    assert_eq!(inf.start_time, 1_700_000_000);
}
