//! Random draws for the starting board, through the `rand` crate.

use rand::Rng;
use vstd::prelude::*;

verus! {

#[verifier::external_type_specification]
#[verifier::external_body]
pub struct ExThreadRng(rand::rngs::ThreadRng);

/// Relies on rand::thread_rng: a handle to the thread-local generator.
#[verifier::external_body]
pub(crate) fn fresh_rng() -> rand::rngs::ThreadRng {
    rand::thread_rng()
}

/// Relies on rand::Rng::gen_range on the range `0..bound`: the documentation
/// promises a value uniformly distributed in that range, and a panic only on
/// an empty range, which the precondition rules out.
#[verifier::external_body]
pub(crate) fn random_index(rng: &mut rand::rngs::ThreadRng, bound: usize) -> (r: usize)
    requires
        bound > 0,
    ensures
        r < bound,
{
    rng.gen_range(0..bound)
}

/// Relies on rand::random with the standard distribution on bool: a fair
/// draw, of whose value nothing is promised.
#[verifier::external_body]
pub(crate) fn random_coin() -> bool {
    rand::random::<bool>()
}

} // verus!
