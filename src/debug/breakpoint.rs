//! One software breakpoint: where it patches, what it saved, how it re-arms.

use vstd::prelude::*;
use crate::debug::word::{
    aligned_address, align_down, byte_index, patch_word, patched, shift_of, WordWrite,
};

verus! {

/// Whether a breakpoint survives being hit.
#[derive(Clone, Copy, Debug, PartialEq, Eq, Structural)]
pub enum BreakpointType {
    /// Re-armed after every hit, counting the hits.
    Freq,
    /// Removed after its first hit.
    Single,
}

/// A breakpoint record. The word at `aligned_address` is what the tracing
/// call reads and writes; `saved` is that word as it was before patching.
#[derive(Clone, Debug)]
pub struct Breakpoint {
    /// The exact byte address at which execution traps.
    pub target_address: u64,
    /// `target_address` rounded down to its word.
    pub aligned_address: u64,
    /// Bit offset of `target_address` inside that word.
    pub shift: u64,
    /// The word at `aligned_address` before patching.
    pub saved: u64,
    /// Whether the trap byte is currently written into memory.
    pub enabled: bool,
    pub typ: BreakpointType,
    /// Number of times this breakpoint has been hit.
    pub freq: u64,
    /// Offset from the owning module's base (labelling only).
    pub offset: u64,
    /// Name of the function this breakpoint is in (labelling only).
    pub funcname: String,
    /// Offset into that function (labelling only).
    pub funcoff: u64,
    /// Owning module's name (labelling only).
    pub modname: String,
}

/// The word that an enabled breakpoint leaves in memory.
pub open spec fn trap_write_of(bp: Breakpoint) -> WordWrite {
    WordWrite { address: bp.aligned_address, word: patched(bp.saved, bp.shift / 8) }
}

/// The write that puts the unpatched word back.
pub open spec fn restore_write_of(bp: Breakpoint) -> WordWrite {
    WordWrite { address: bp.aligned_address, word: bp.saved }
}

impl Breakpoint {
    /// The address fields agree with the target address.
    pub open spec fn wf(&self) -> bool {
        &&& self.aligned_address == align_down(self.target_address)
        &&& self.shift == 8 * byte_index(self.target_address)
    }

    /// The write that arms this breakpoint.
    pub fn trap_write(&self) -> (r: WordWrite)
        requires
            self.wf(),
        ensures
            r == trap_write_of(*self),
    {
        WordWrite { address: self.aligned_address, word: patch_word(self.saved, self.shift) }
    }

    /// The write that disarms this breakpoint, restoring the unpatched word.
    pub fn restore_write(&self) -> (r: WordWrite)
        ensures
            r == restore_write_of(*self),
    {
        WordWrite { address: self.aligned_address, word: self.saved }
    }
}

/// The record of a breakpoint at `addr`, given the word read at
/// `align_down(addr)` before patching. It is enabled: the caller writes
/// `trap_write()` into the tracee.
pub fn set(addr: u64, saved: u64, typ: BreakpointType) -> (r: Breakpoint)
    ensures
        r.wf(),
        r.target_address == addr,
        r.saved == saved,
        r.enabled,
        r.typ == typ,
        r.freq == 0,
        r.offset == 0,
        r.funcoff == 0,
        r.funcname@.len() == 0,
        r.modname@.len() == 0,
{
    Breakpoint {
        target_address: addr,
        aligned_address: aligned_address(addr),
        shift: shift_of(addr),
        saved,
        enabled: true,
        typ,
        freq: 0,
        offset: 0,
        funcname: String::new(),
        funcoff: 0,
        modname: String::new(),
    }
}

} // verus!
