use rustdbg::debug::breakpoint::BreakpointType;
use rustdbg::inferior::stop::{classify, find_target, resolve_trap, StopReason, WaitResult, SIGTRAP};

#[test]
fn classify_each_kind() {
    assert_eq!(classify(WaitResult::Exited(0)), StopReason::Exited(0));
    assert_eq!(classify(WaitResult::Exited(42)), StopReason::Exited(42));
    assert_eq!(classify(WaitResult::Stopped(SIGTRAP)), StopReason::GenericTrap(SIGTRAP));
    assert_eq!(classify(WaitResult::Stopped(11)), StopReason::Signaled(11, false));
    assert_eq!(classify(WaitResult::Signaled(6, true)), StopReason::Signaled(6, true));
    assert_eq!(classify(WaitResult::Signaled(9, false)), StopReason::Signaled(9, false));
    assert_eq!(
        classify(WaitResult::PtraceEvent(SIGTRAP, 3)),
        StopReason::Unhandled(WaitResult::PtraceEvent(SIGTRAP, 3))
    );
    assert_eq!(classify(WaitResult::PtraceEvent(SIGTRAP, 0)), StopReason::GenericTrap(SIGTRAP));
    assert_eq!(
        classify(WaitResult::PtraceEvent(19, 0)),
        StopReason::Unhandled(WaitResult::PtraceEvent(19, 0))
    );
    assert_eq!(classify(WaitResult::StillAlive), StopReason::Unhandled(WaitResult::StillAlive));
}

#[test]
fn resolve_trap_by_table_then_step() {
    let mut a = rustdbg::debug::breakpoint::set(0x401000, 0, BreakpointType::Freq);
    let b = rustdbg::debug::breakpoint::set(0x402000, 0, BreakpointType::Freq);
    let table = vec![a.clone(), b];
    assert_eq!(find_target(&table, 0x402000), Some(1));
    assert_eq!(find_target(&table, 0x403000), None);
    assert_eq!(resolve_trap(&table, false, 0x401001), StopReason::BreakpointHit(0x401000));
    assert_eq!(resolve_trap(&table, true, 0x402001), StopReason::BreakpointHit(0x402000));
    assert_eq!(resolve_trap(&table, true, 0x401005), StopReason::SingleStepTrap);
    assert_eq!(resolve_trap(&table, false, 0x401005), StopReason::Signaled(SIGTRAP, false));
    assert_eq!(resolve_trap(&table, false, 0), StopReason::Signaled(SIGTRAP, false));
    a.enabled = false;
    let disarmed = vec![a];
    assert_eq!(resolve_trap(&disarmed, true, 0x401001), StopReason::SingleStepTrap);
}
