//! Random draws, taken from the `rand` crate's thread-local generator.

use vstd::prelude::*;
use rand::Rng;
use rand::rngs::ThreadRng;

verus! {

#[verifier::external_type_specification]
#[verifier::external_body]
pub struct ExThreadRng(ThreadRng);

/// Relies on `rand::thread_rng`: a handle on the generator of the current
/// thread, seeded by the system (it panics only when the system has no
/// randomness to give).
#[verifier::external_body]
pub(crate) fn thread_rng() -> ThreadRng {
    rand::thread_rng()
}

/// Relies on `Rng::sample` with `rand::distributions::Uniform::new(0, n)`:
/// a value drawn from `[0, n)`; `Uniform::new` panics unless `0 < n`.
#[verifier::external_body]
pub(crate) fn draw_below(rng: &mut ThreadRng, n: u8) -> (r: u8)
    requires
        0 < n,
    ensures
        r < n,
{
    rng.sample(rand::distributions::Uniform::new(0, n))
}

/// Relies on `Rng::sample` with `rand::distributions::Standard` for `bool`:
/// a fair coin; nothing is known of the outcome.
#[verifier::external_body]
pub(crate) fn draw_coin(rng: &mut ThreadRng) -> bool {
    rng.sample(rand::distributions::Standard)
}

} // verus!
