//! Chance, drawn from the thread's random number generator.

use vstd::prelude::*;
use rand::Rng;
use rand::rngs::ThreadRng;

verus! {

/// rand's handle to the thread-local generator. Nothing is known of its
/// state.
#[verifier::external_type_specification]
#[verifier::external_body]
pub struct ExThreadRng(ThreadRng);

/// Draws a whole number from `low` up to, but not including, `high`.
///
/// Calls `Rng::gen_range` of rand, which returns a value of the half-open
/// range and panics unless `low < high`. Which value comes is not stated:
/// all that is claimed is that it lies in the range.
#[verifier::external_body]
pub(crate) fn roll(rng: &mut ThreadRng, low: i32, high: i32) -> (drawn: i32)
    requires
        low < high,
    ensures
        low <= drawn < high,
{
    rng.gen_range(low, high)
}

} // verus!
