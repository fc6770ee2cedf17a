use std::collections::HashMap;

use rustdbg::debug::breakpoint::BreakpointType;
use rustdbg::debug::word::{aligned_address, patch_word, shift_of, word_byte, WordWrite};
use rustdbg::inferior::stop::{WaitResult, SIGTRAP};
use rustdbg::inferior::{DebugError, Inferior};

fn stopped() -> Inferior {
    let mut inf = Inferior::new();
    inf.start("/bin/true".to_string(), vec![]).unwrap();
    inf.on_spawned(1);
    inf.on_wait(Ok(WaitResult::Stopped(SIGTRAP))).unwrap();
    inf
}

#[test]
fn alignment_and_shift() {
    assert_eq!(aligned_address(0x5555_5555_513d), 0x5555_5555_5138);
    assert_eq!(shift_of(0x5555_5555_513d), 40);
    assert_eq!(aligned_address(0x401000), 0x401000);
    assert_eq!(shift_of(0x401000), 0);
    assert_eq!(aligned_address(u64::MAX), u64::MAX - 7);
    assert_eq!(shift_of(u64::MAX), 56);
}

#[test]
fn patch_replaces_one_byte() {
    assert_eq!(patch_word(0x1122_3344_5566_7788, 0), 0x1122_3344_5566_77cc);
    assert_eq!(patch_word(0x1122_3344_5566_7788, 8), 0x1122_3344_5566_cc88);
    assert_eq!(patch_word(0x1122_3344_5566_7788, 40), 0x1122_cc44_5566_7788);
    assert_eq!(patch_word(0x1122_3344_5566_7788, 56), 0xcc22_3344_5566_7788);
    assert_eq!(word_byte(0x1122_3344_5566_7788, 40), 0x33);
    assert_eq!(word_byte(0x1122_3344_5566_7788, 0), 0x88);
}

#[test]
fn set_builds_an_enabled_record() {
    let bp = rustdbg::debug::breakpoint::set(0x401005, 0xaabb_ccdd_eeff_0011, BreakpointType::Single);
    assert_eq!(bp.target_address, 0x401005);
    assert_eq!(bp.aligned_address, 0x401000);
    assert_eq!(bp.shift, 40);
    assert!(bp.enabled);
    assert_eq!(bp.freq, 0);
    assert_eq!(bp.trap_write(), WordWrite { address: 0x401000, word: 0xaabb_ccdd_eeff_0011 & !(0xff << 40) | (0xcc << 40) });
    assert_eq!(bp.restore_write(), WordWrite { address: 0x401000, word: 0xaabb_ccdd_eeff_0011 });
}

#[test]
fn install_then_remove_restores_memory() {
    for addr in [0x401000u64, 0x401001, 0x401007, 0x7fff_ffff_fff3] {
        let aligned = addr & !7;
        let original: u64 = 0x0f1e_2d3c_4b5a_6978;
        let mut mem: HashMap<u64, u64> = HashMap::new();
        mem.insert(aligned, original);
        let before = mem.clone();
        let mut inf = stopped();
        let read_at = inf.check_install(addr).unwrap();
        assert_eq!(read_at, aligned);
        let w = inf.install_breakpoint(addr, BreakpointType::Freq, mem[&read_at]).unwrap();
        assert_ne!(w.word, original);
        mem.insert(w.address, w.word);
        let r = inf.remove_breakpoint(addr).unwrap().unwrap();
        mem.insert(r.address, r.word);
        assert_eq!(mem, before);
        assert!(inf.breakpoints.is_empty());
    }
}

#[test]
fn duplicate_and_overlap_are_refused() {
    let mut inf = stopped();
    inf.install_breakpoint(0x401002, BreakpointType::Freq, 7).unwrap();
    assert_eq!(inf.check_install(0x401002), Err(DebugError::DuplicateBreakpoint(0x401002)));
    assert_eq!(
        inf.install_breakpoint(0x401002, BreakpointType::Freq, 7),
        Err(DebugError::DuplicateBreakpoint(0x401002))
    );
    assert_eq!(inf.check_install(0x401006), Err(DebugError::Overlap(0x401006)));
    assert_eq!(inf.check_install(0x401008), Ok(0x401008));
    assert_eq!(inf.breakpoints.len(), 1);
}

#[test]
fn removing_unknown_breakpoint_is_refused() {
    let mut inf = stopped();
    assert_eq!(inf.remove_breakpoint(0x1234), Err(DebugError::NotFound(0x1234)));
}

#[test]
fn removing_the_breakpoint_stopped_on_restores_its_word() {
    let mut inf = stopped();
    inf.install_breakpoint(0x401000, BreakpointType::Freq, 1).unwrap();
    inf.resume().unwrap();
    inf.on_wait(Ok(WaitResult::Stopped(SIGTRAP))).unwrap();
    inf.on_trap(0x401001).unwrap();
    assert_eq!(inf.rearm, Some(0x401000));
    assert_eq!(
        inf.remove_breakpoint(0x401000),
        Ok(Some(WordWrite { address: 0x401000, word: 1 }))
    );
    assert_eq!(inf.rearm, None);
    assert_eq!(inf.resume(), Ok(rustdbg::inferior::ResumePlan::Continue));
}
