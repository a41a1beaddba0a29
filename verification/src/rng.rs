//! Trusted wrappers around the process random number generator.

use vstd::prelude::*;

verus! {

/// Relies on rand::thread_rng and rand::Rng::gen_range: returns a uniformly
/// distributed index below `n`.
#[verifier::external_body]
pub fn random_below(n: usize) -> (r: usize)
    requires
        n > 0,
    ensures
        r < n,
{
    rand::Rng::gen_range(&mut rand::thread_rng(), 0..n)
}

/// Relies on rand::thread_rng and rand::Rng::gen: returns a uniformly
/// distributed 64-bit value. Nothing is promised of the result.
#[verifier::external_body]
pub fn random_u64() -> (r: u64) {
    rand::Rng::gen(&mut rand::thread_rng())
}

} // verus!
