//! The source of random bytes.

use vstd::prelude::*;

verus! {

/// A random byte below 255, from the thread-local generator.
/// Relies on rand's `thread_rng` and `Rng::gen_range`, which returns a value
/// inside the non-empty range it is given.
#[verifier::external_body]
pub fn random_byte() -> (r: u8)
    ensures
        r < 255,
{
    rand::Rng::gen_range(&mut rand::thread_rng(), 0u8..255u8)
}

} // verus!
