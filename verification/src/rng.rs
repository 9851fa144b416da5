//! The randomness source the generator draws from.

use rand::RngExt;
use vstd::prelude::*;

verus! {

/// rand's standard generator, opaque to verification: a value of it is
/// threaded through every generation call, and each draw is stated only as
/// "some outcome", never as a function of the generator's state.
#[verifier::external_type_specification]
#[verifier::external_body]
pub struct ExStdRng(rand::rngs::StdRng);

/// Relies on rand's `RngExt::random::<bool>`: a uniform draw on which
/// either outcome is possible, so nothing is promised of the result.
#[verifier::external_body]
pub(crate) fn random_bool(rng: &mut rand::rngs::StdRng) -> bool {
    rng.random::<bool>()
}

/// Relies on rand's `RngExt::random::<u64>`: a uniform draw over all 64-bit
/// patterns, so nothing is promised of the result.
#[verifier::external_body]
pub(crate) fn random_bits(rng: &mut rand::rngs::StdRng) -> u64 {
    rng.random::<u64>()
}

/// Relies on rand's `RngExt::random::<i32>`: a uniform draw over the whole
/// 32-bit signed range, so nothing is promised of the result.
#[verifier::external_body]
pub(crate) fn random_i32(rng: &mut rand::rngs::StdRng) -> i32 {
    rng.random::<i32>()
}

/// Relies on rand's `RngExt::random_range` over `0..n`: the result lies in
/// the half-open range. The call panics only on an empty range, which the
/// precondition rules out.
#[verifier::external_body]
pub(crate) fn random_below(rng: &mut rand::rngs::StdRng, n: usize) -> (r: usize)
    requires
        1 <= n,
    ensures
        r < n,
{
    rng.random_range(0..n)
}

} // verus!
