//! The source of random numbers.

use rand::rngs::ThreadRng;
use rand::Rng;
use vstd::prelude::*;

verus! {

/// `rand::rngs::ThreadRng`, the handle to a thread's random generator.
/// Nothing is known of what it holds.
#[verifier::external_type_specification]
#[verifier::external_body]
pub struct ExThreadRng(ThreadRng);

/// `rand::thread_rng` hands out the calling thread's random generator.
/// Nothing is claimed of the handle. The call panics where the operating
/// system gives the generator no seed; no argument decides that.
pub assume_specification[ rand::thread_rng ]() -> (rng: ThreadRng)
;

/// Draws a number with `Rng::gen_range` on the thread's generator. Taken on
/// trust from the generator: the number lies at or above `low` and below
/// `high`. Which number comes is left open, and two calls may differ.
/// `gen_range` panics unless `low < high`, so that is required.
#[verifier::external_body]
pub(crate) fn random_between(rng: &mut ThreadRng, low: u8, high: u8) -> (value: u8)
    requires
        low < high,
    ensures
        low <= value < high,
{
    rng.gen_range(low, high)
}

} // verus!
