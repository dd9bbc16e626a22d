//! The source of chance for a serve.

use vstd::prelude::*;
use rand::Rng;

verus! {

#[verifier::external_type_specification]
#[verifier::external_body]
pub struct ExThreadRng(rand::rngs::ThreadRng);

/// `rand::rng`: hands out the generator of the calling thread. Nothing is
/// claimed of it.
#[verifier::external_body]
pub(crate) fn thread_rng() -> (rng: rand::rngs::ThreadRng) {
    rand::rng()
}

/// `Rng::random_ratio`: a `bool` that is true with a chance of `numerator`
/// in `denominator`. The call panics on a zero denominator and on a
/// numerator above it, so both are left out. Which value comes is chance:
/// nothing is claimed of the result.
#[verifier::external_body]
pub(crate) fn random_ratio(rng: &mut rand::rngs::ThreadRng, numerator: u32, denominator: u32) -> (hit: bool)
    requires
        denominator > 0,
        numerator <= denominator,
{
    rng.random_ratio(numerator, denominator)
}

/// `Rng::random_range` on an inclusive range of `u16`: some value of the
/// range. The call panics on an empty range, so `low <= high` is asked for.
/// The claim is that the value drawn lies within the range, ends included.
#[verifier::external_body]
pub(crate) fn random_range_inclusive(rng: &mut rand::rngs::ThreadRng, low: u16, high: u16) -> (drawn: u16)
    requires
        low <= high,
    ensures
        low <= drawn <= high,
{
    rng.random_range(low..=high)
}

} // verus!
