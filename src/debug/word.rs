//! Arithmetic on machine words: alignment, byte extraction and the
//! one-byte trap patch.

use vstd::prelude::*;

verus! {

/// Bytes in one machine word, the unit that the tracing call reads and writes.
pub const WORD_BYTES: u64 = 8;

/// The one-byte trap instruction (`int3`).
pub const TRAP_OPCODE: u8 = 0xCC;

/// Width of the trap instruction: after a trap the instruction pointer is
/// this many bytes past the patched address.
pub const TRAP_WIDTH: u64 = 1;

/// The word-aligned address that holds `addr`.
pub open spec fn align_down(addr: u64) -> u64 {
    (addr - addr % 8) as u64
}

/// Position of `addr` inside its word, counted in bytes.
pub open spec fn byte_index(addr: u64) -> u64 {
    addr % 8
}

/// Byte `i` (0 = least significant) of word `w`.
pub open spec fn byte_of(w: u64, i: u64) -> u8 {
    ((w >> (8 * i)) & 0xff) as u8
}

/// `saved` with byte `i` replaced by the trap opcode.
pub open spec fn patched(saved: u64, i: u64) -> u64 {
    (saved & !(0xffu64 << (8 * i))) | (0xccu64 << (8 * i))
}

/// One write of a full word into the tracee.
#[derive(Clone, Copy, Debug, PartialEq, Eq, Structural)]
pub struct WordWrite {
    pub address: u64,
    pub word: u64,
}

/// Tracee memory as the debugger sees it: aligned address to word.
pub open spec fn apply_write(mem: Map<u64, u64>, w: WordWrite) -> Map<u64, u64> {
    mem.insert(w.address, w.word)
}

/// The byte at `addr` in a word memory.
pub open spec fn byte_at(mem: Map<u64, u64>, addr: u64) -> u8 {
    byte_of(mem[align_down(addr)], byte_index(addr))
}

/// Rounds `addr` down to its word.
pub fn aligned_address(addr: u64) -> (r: u64)
    ensures
        r == align_down(addr),
        r % 8 == 0,
        r <= addr < r + 8,
{
    let r = addr & !0x7u64;
    assert(addr & !0x7u64 == (addr - addr % 8) as u64) by (bit_vector);
    r
}

/// Bit offset of `addr` inside the word at `aligned_address(addr)`.
pub fn shift_of(addr: u64) -> (r: u64)
    ensures
        r == 8 * byte_index(addr),
        r < 64,
{
    let a = aligned_address(addr);
    (addr - a) * 8
}

/// The byte of `w` at bit offset `shift`.
pub fn word_byte(w: u64, shift: u64) -> (r: u8)
    requires
        shift % 8 == 0,
        shift < 64,
    ensures
        r == byte_of(w, shift / 8),
{
    ((w >> shift) & 0xff) as u8
}

/// The trap patch in byte terms: the chosen byte becomes the opcode and
/// every other byte of the word is kept.
pub proof fn lemma_patched_bytes(saved: u64, i: u64, j: u64)
    requires
        i < 8,
        j < 8,
    ensures
        byte_of(patched(saved, i), j) == if i == j {
            TRAP_OPCODE
        } else {
            byte_of(saved, j)
        },
{
    assert(((((saved & !(0xffu64 << (8 * i))) | (0xccu64 << (8 * i))) >> (8 * j)) & 0xff) == if i
        == j {
        0xccu64
    } else {
        (saved >> (8 * j)) & 0xff
    }) by (bit_vector)
        requires
            i < 8,
            j < 8,
    ;
}

/// Writes the trap opcode over the byte at bit offset `shift` of `saved`.
pub fn patch_word(saved: u64, shift: u64) -> (r: u64)
    requires
        shift % 8 == 0,
        shift < 64,
    ensures
        r == patched(saved, shift / 8),
        forall|j: u64|
            j < 8 ==> #[trigger] byte_of(r, j) == if j == shift / 8 {
                TRAP_OPCODE
            } else {
                byte_of(saved, j)
            },
{
    let r = (saved & !(0xffu64 << shift)) | (0xccu64 << shift);
    assert(8 * (shift / 8) == shift);
    assert forall|j: u64| j < 8 implies #[trigger] byte_of(r, j) == if j == shift / 8 {
        TRAP_OPCODE
    } else {
        byte_of(saved, j)
    } by {
        lemma_patched_bytes(saved, shift / 8, j);
    }
    r
}

} // verus!
