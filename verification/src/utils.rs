//! The source of random bytes.

use vstd::prelude::*;

verus! {

/// A random byte from `rand::random`, which draws it from the thread's
/// generator, uniformly over 0 to 255. Nothing is claimed of the byte: two
/// calls may differ, and every value can come.
#[verifier::external_body]
pub fn rand_byte() -> (byte: u8) {
    rand::random::<u8>()
}

} // verus!
