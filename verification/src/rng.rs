use vstd::prelude::*;
use rand::Rng;

verus! {

/// Draws a number below `bound` from the `rand` crate's thread-local
/// generator: `rand::thread_rng().gen_range(0..bound)`. The contract claims
/// only what `gen_range` documents for a non-empty range, that the number lies
/// in it; which number comes out is chance and is not stated.
#[verifier::external_body]
pub(crate) fn random_below(bound: u8) -> (r: u8)
    requires
        bound > 0,
    ensures
        r < bound,
{
    rand::thread_rng().gen_range(0..bound)
}

} // verus!
