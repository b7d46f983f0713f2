//! The engine's source of integer randomness: a seeded `StdRng` owned by the
//! caller, reached through small trusted wrappers.

use vstd::prelude::*;


verus! {

#[verifier::external_type_specification]
#[verifier::external_body]
pub struct ExStdRng(rand::rngs::StdRng);

/// Relies on `rand::Rng::gen_range` over `0..hi`: returns a uniformly
/// distributed value below `hi`. It panics on an empty range, which the
/// precondition rules out.
#[verifier::external_body]
pub(crate) fn rng_below(rng: &mut rand::rngs::StdRng, hi: u64) -> (r: u64)
    requires
        hi >= 1,
    ensures
        r < hi,
{
    rand::Rng::gen_range(rng, 0..hi)
}

/// Relies on `rand::random`: a seed drawn from the thread-local generator
/// when the configuration names none. Nothing is promised of the value.
#[verifier::external_body]
pub(crate) fn random_seed() -> u64 {
    rand::random()
}

} // verus!
