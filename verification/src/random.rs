use rand::Rng;
use vstd::prelude::*;

verus! {

/// Draws an index uniformly from `0..upper` with the thread-local generator
/// (`rand::Rng::gen_range` on `rand::thread_rng()`). The claim is only that
/// the index lies in that range, which `gen_range` guarantees for a
/// non-empty range (it panics on an empty one); which index comes out is
/// left open, as it depends on chance.
#[verifier::external_body]
pub(crate) fn random_index(upper: usize) -> (k: usize)
    requires
        upper > 0,
    ensures
        k < upper,
{
    rand::thread_rng().gen_range(0..upper)
}

} // verus!
