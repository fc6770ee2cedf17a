//! The host's word size and byte order.

use vstd::prelude::*;

verus! {

broadcast use vstd::layout::layout_of_primitives;

/// Byte order of machine words.
#[derive(Clone, Copy, Debug, PartialEq, Eq, Structural)]
pub enum Endianness {
    Big,
    Little,
}

/// Relies on `u16::to_ne_bytes`: the two bytes of the number 1 in the
/// machine's own byte order, which is one of the two orders.
#[verifier::external_body]
fn native_bytes_of_one() -> (r: [u8; 2])
    ensures
        r@ == seq![1u8, 0u8] || r@ == seq![0u8, 1u8],
{
    1u16.to_ne_bytes()
}

impl Endianness {
    /// The byte order whose representation of the number 1 is `b`.
    pub fn from_bytes_of_one(b: [u8; 2]) -> (r: Endianness)
        ensures
            b@[0] == 1 ==> r == Endianness::Little,
            b@[0] != 1 ==> r == Endianness::Big,
    {
        if b[0] == 1 {
            Endianness::Little
        } else {
            Endianness::Big
        }
    }

    /// The byte order of the machine this runs on.
    pub fn target() -> (r: Endianness) {
        Endianness::from_bytes_of_one(native_bytes_of_one())
    }
}

/// Bytes in a machine word of the host.
pub fn wordsize() -> (r: usize)
    ensures
        r * 8 == usize::BITS,
{
    core::mem::size_of::<usize>()
}

/// Byte order of the host.
pub fn endianness() -> (r: Endianness) {
    Endianness::target()
}

} // verus!
