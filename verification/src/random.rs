//! The calls into `rand` that the game makes, with what `rand` promises of them.

use rand::rngs::ThreadRng;
use rand::Rng;
use vstd::prelude::*;

verus! {

/// `rand::rngs::ThreadRng`, the handle on the thread-local generator. Opaque here.
#[verifier::external_type_specification]
#[verifier::external_body]
pub struct ExThreadRng(ThreadRng);

/// `rand::thread_rng` returns a handle on the thread-local generator. Nothing is
/// claimed of the handle: every value it yields is random.
pub assume_specification[ rand::thread_rng ]() -> (rng: ThreadRng);

/// Calls `Rng::gen_range(low..high)` on `usize`. The claim: `rand` panics on an
/// empty range (so `low < high` is required) and otherwise returns a value of the
/// half-open range. Which value comes back is chance and is not stated.
#[verifier::external_body]
pub(crate) fn gen_index(rng: &mut ThreadRng, low: usize, high: usize) -> (r: usize)
    requires
        low < high,
    ensures
        low <= r < high,
{
    rng.gen_range(low..high)
}

/// Calls `Rng::gen_ratio(numerator, denominator)`. The claim: `rand` panics when
/// `denominator == 0` or `numerator > denominator`; it always returns `false` for
/// a zero numerator and always `true` when numerator and denominator are equal.
/// Otherwise the outcome is chance and is not stated.
#[verifier::external_body]
pub(crate) fn gen_ratio(rng: &mut ThreadRng, numerator: u32, denominator: u32) -> (r: bool)
    requires
        0 < denominator,
        numerator <= denominator,
    ensures
        numerator == 0 ==> !r,
        numerator == denominator ==> r,
{
    rng.gen_ratio(numerator, denominator)
}

} // verus!
