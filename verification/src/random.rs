//! The source of random bytes.

use vstd::prelude::*;

verus! {

/// Draws one byte from the thread-local generator of the `rand` crate, by
/// `rand::random::<u8>()`.
///
/// Nothing is claimed of the byte: any value may come back, and two calls
/// need not agree. (`rand` panics if the operating system cannot seed the
/// generator; no argument of this function has a part in that.)
#[verifier::external_body]
pub(crate) fn random_byte() -> (byte: u8) {
    rand::random::<u8>()
}

} // verus!
