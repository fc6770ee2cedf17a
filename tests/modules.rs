use rustdbg::debug::breakpoint::BreakpointType;
use rustdbg::inferior::stop::{WaitResult, SIGTRAP};
use rustdbg::inferior::{DebugError, Inferior};

fn stopped() -> Inferior {
    let mut inf = Inferior::new();
    inf.start("/bin/true".to_string(), vec![]).unwrap();
    inf.on_spawned(1);
    inf.on_wait(Ok(WaitResult::Stopped(SIGTRAP))).unwrap();
    inf
}

#[test]
fn registration_widens_bounds() {
    let mut inf = Inferior::new();
    inf.register_breakpoint("libc.so".to_string(), 0x500, "puts".to_string(), 4, BreakpointType::Freq).unwrap();
    assert_eq!(inf.breakpoint_bounds, vec![("libc.so".to_string(), 0x500, 0x500)]);
    inf.register_breakpoint("libc.so".to_string(), 0x100, "open".to_string(), 0, BreakpointType::Single).unwrap();
    inf.register_breakpoint("libc.so".to_string(), 0x900, "read".to_string(), 2, BreakpointType::Freq).unwrap();
    inf.register_breakpoint("ld.so".to_string(), 0x20, "start".to_string(), 0, BreakpointType::Freq).unwrap();
    assert_eq!(
        inf.breakpoint_bounds,
        vec![("libc.so".to_string(), 0x100, 0x900), ("ld.so".to_string(), 0x20, 0x20)]
    );
    assert_eq!(inf.target_breakpoints.len(), 4);
    assert_eq!(inf.target_breakpoints[1].funcname, "open");
    assert_eq!(inf.target_breakpoints[1].offset, 0x100);
    assert_eq!(inf.target_breakpoints[1].modname, "libc.so");
    assert!(!inf.target_breakpoints[1].enabled);
}

#[test]
fn unloading_a_module_drops_its_breakpoints() {
    let mut inf = stopped();
    inf.register_breakpoint("libfoo".to_string(), 0x10, "f".to_string(), 0, BreakpointType::Freq).unwrap();
    inf.register_breakpoint("libfoo".to_string(), 0x40, "g".to_string(), 0, BreakpointType::Freq).unwrap();
    inf.register_module("libfoo".to_string(), 0x7000_0000);
    for a in [0x7000_0008u64, 0x7000_0010, 0x7000_0020, 0x7000_0040, 0x7000_0048, 0x401000] {
        inf.install_breakpoint(a, BreakpointType::Freq, 0).unwrap();
    }
    assert_eq!(inf.unregister_module(0x6000_0000), Err(DebugError::UnknownModule(0x6000_0000)));
    assert_eq!(inf.unregister_module(0x7000_0000), Ok(()));
    let left: Vec<u64> = inf.breakpoints.iter().map(|b| b.target_address).collect();
    assert_eq!(left, vec![0x7000_0008, 0x7000_0048, 0x401000]);
    assert!(inf.modules.is_empty());
    assert_eq!(inf.unregister_module(0x7000_0000), Err(DebugError::UnknownModule(0x7000_0000)));
}

#[test]
fn repeated_registration_is_refused() {
    let mut inf = Inferior::new();
    inf.register_breakpoint("libc.so".to_string(), 0x500, "puts".to_string(), 0, BreakpointType::Freq).unwrap();
    assert_eq!(
        inf.register_breakpoint("libc.so".to_string(), 0x500, "other".to_string(), 1, BreakpointType::Single),
        Err(DebugError::DuplicateBreakpoint(0x500))
    );
    assert_eq!(inf.target_breakpoints.len(), 1);
    assert_eq!(inf.breakpoint_bounds, vec![("libc.so".to_string(), 0x500, 0x500)]);
    inf.register_breakpoint("libm.so".to_string(), 0x500, "sin".to_string(), 0, BreakpointType::Freq).unwrap();
    assert_eq!(inf.target_breakpoints.len(), 2);
}

#[test]
fn unloading_drops_a_pending_rearm_inside_the_module() {
    let mut inf = stopped();
    inf.register_breakpoint("libfoo".to_string(), 0x10, "f".to_string(), 0, BreakpointType::Freq).unwrap();
    inf.register_module("libfoo".to_string(), 0x7000_0000);
    inf.install_breakpoint(0x7000_0010, BreakpointType::Freq, 0).unwrap();
    inf.resume().unwrap();
    inf.on_wait(Ok(WaitResult::Stopped(SIGTRAP))).unwrap();
    inf.on_trap(0x7000_0011).unwrap();
    assert_eq!(inf.rearm, Some(0x7000_0010));
    assert_eq!(inf.unregister_module(0x7000_0000), Ok(()));
    assert_eq!(inf.rearm, None);
    assert!(inf.breakpoints.is_empty());
}

#[test]
fn unloading_a_module_without_bounds_keeps_breakpoints() {
    let mut inf = stopped();
    inf.register_module("libbar".to_string(), 0x1000);
    inf.install_breakpoint(0x1008, BreakpointType::Freq, 0).unwrap();
    assert_eq!(inf.unregister_module(0x1000), Ok(()));
    assert_eq!(inf.breakpoints.len(), 1);
}

#[test]
fn invalidate_range_is_inclusive() {
    let mut inf = stopped();
    for a in [0x100u64, 0x108, 0x110, 0x118] {
        inf.install_breakpoint(a, BreakpointType::Freq, 0).unwrap();
    }
    inf.invalidate_range(0x108, 0x110);
    let left: Vec<u64> = inf.breakpoints.iter().map(|b| b.target_address).collect();
    assert_eq!(left, vec![0x100, 0x118]);
}
