//! Reading a byte range of the tracee, which the tracing call serves one
//! aligned word at a time.

use vstd::prelude::*;
use crate::debug::word::{aligned_address, align_down, byte_index, byte_of, word_byte};
use crate::inferior::{admits, DebugError, Inferior, Operation};

verus! {

/// Number of words that cover `[address, address + length)`.
pub open spec fn span_words(address: u64, length: u64) -> nat {
    if length == 0 {
        0
    } else {
        ((align_down((address + length - 1) as u64) - align_down(address)) / 8 + 1) as nat
    }
}

/// The aligned addresses of those words, in order.
pub open spec fn word_span(address: u64, length: u64) -> Seq<u64> {
    Seq::new(span_words(address, length), |k: int| (align_down(address) + 8 * k) as u64)
}

/// Whether `[address, address + length)` fits in the address space.
pub open spec fn range_fits(address: u64, length: u64) -> bool {
    address + length <= u64::MAX + 1
}

/// Byte `k` of the range, taken from the words read at `word_span`.
pub open spec fn range_byte(address: u64, words: Seq<u64>, k: int) -> u8 {
    let a = (address + k) as u64;
    byte_of(words[(align_down(a) - align_down(address)) / 8], byte_index(a))
}

impl Inferior {
    /// Checks a read of `length` bytes at `address`; on success returns the
    /// aligned addresses whose words the caller reads, in order.
    pub fn read_memory_plan(&self, address: u64, length: u64) -> (r: Result<Vec<u64>, DebugError>)
        ensures
            match admits(Operation::ReadMemory, self.state) {
                Err(e) => r == Err::<Vec<u64>, DebugError>(e),
                Ok(_) => if !range_fits(address, length) {
                    r == Err::<Vec<u64>, DebugError>(DebugError::BadRange(address, length))
                } else {
                    r matches Ok(v) && v@ == word_span(address, length)
                },
            },
    {
        match self.gate(Operation::ReadMemory) {
            Err(e) => Err(e),
            Ok(()) => {
                if length > 0 && address > u64::MAX - (length - 1) {
                    return Err(DebugError::BadRange(address, length));
                }
                let mut v: Vec<u64> = Vec::new();
                if length == 0 {
                    assert(v@ =~= word_span(address, length));
                    return Ok(v);
                }
                let first = aligned_address(address);
                let last = aligned_address(address + (length - 1));
                let mut w = first;
                while w < last
                    invariant
                        first == align_down(address),
                        last == align_down((address + length - 1) as u64),
                        first <= w <= last,
                        w % 8 == 0,
                        last % 8 == 0,
                        v@.len() == (w - first) / 8,
                        forall|k: int| 0 <= k < v@.len() ==> v@[k] == first + 8 * k,
                    decreases last - w,
                {
                    v.push(w);
                    w = w + 8;
                }
                v.push(w);
                assert(v@ =~= word_span(address, length));
                Ok(v)
            },
        }
    }
}

/// Assembles the `length` bytes at `address` from the words read at
/// `word_span(address, length)`.
#[verifier::rlimit(40)]
pub fn bytes_from_words(address: u64, length: u64, words: &Vec<u64>) -> (r: Vec<u8>)
    requires
        range_fits(address, length),
        words@.len() == span_words(address, length),
    ensures
        r@.len() == length,
        forall|k: int| 0 <= k < length ==> r@[k] == range_byte(address, words@, k),
{
    let mut r: Vec<u8> = Vec::new();
    let first = aligned_address(address);
    let mut k: u64 = 0;
    while k < length
        invariant
            range_fits(address, length),
            words@.len() == span_words(address, length),
            first == align_down(address),
            k <= length,
            r@.len() == k,
            forall|j: int| 0 <= j < k ==> r@[j] == range_byte(address, words@, j),
        decreases length - k,
    {
        let a = address + k;
        let wa = aligned_address(a);
        proof {
            let lastw = align_down((address + length - 1) as u64);
            assert(wa <= lastw);
            assert((wa - first) / 8 < words@.len());
        }
        let wl = words.len();
        let idx = (wa - first) / 8;
        assert(idx < wl);
        let i = idx as usize;
        let b = word_byte(words[i], (a - wa) * 8);
        proof {
            assert((a - wa) * 8 / 8 == byte_index(a));
        }
        let ghost before = r@;
        r.push(b);
        proof {
            assert(i as int == (align_down(a) - align_down(address)) / 8);
            assert(b == range_byte(address, words@, k as int));
            assert forall|j: int| 0 <= j < k + 1 implies r@[j] == range_byte(address, words@, j) by {
                if j < k {
                    assert(r@[j] == before[j]);
                }
            }
        }
        k = k + 1;
    }
    r
}

} // verus!
