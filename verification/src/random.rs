//! The injected random source.

use vstd::prelude::*;
use rand::rngs::StdRng;
use rand::Rng;

verus! {

#[verifier::external_type_specification]
#[verifier::external_body]
pub struct ExStdRng(StdRng);

/// Draws an integer through `rand::Rng::gen_range` on the half-open range
/// `0..bound` of the given generator. Claimed: the draw lies in that range.
/// Nothing is claimed about which value comes.
#[verifier::external_body]
pub(crate) fn roll_below(rng: &mut StdRng, bound: u32) -> (r: u32)
    requires
        bound > 0,
    ensures
        r < bound,
{
    rng.gen_range(0..bound)
}

} // verus!
