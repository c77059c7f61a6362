//! The randomness source: a thin trusted boundary over the `rand` crate.
//! Everything decided from a draw is decided by verified code that takes
//! the draw as an argument.

use vstd::prelude::*;
use rand::Rng;

verus! {

#[verifier::external_type_specification]
#[verifier::external_body]
pub struct ExThreadRng(rand::rngs::ThreadRng);

/// Relies on rand::Rng::gen_range: a draw from the half-open range
/// `lo..hi`, which always lies within it (the call panics only on an empty
/// range, which the precondition rules out).  Nothing more can be promised
/// of a random draw.
#[verifier::external_body]
pub(crate) fn draw_range(rng: &mut rand::rngs::ThreadRng, lo: i64, hi: i64) -> (r: i64)
    requires
        lo < hi,
    ensures
        lo <= r < hi,
{
    rng.gen_range(lo..hi)
}

} // verus!
