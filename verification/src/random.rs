//! The injected random source, and the draws the library makes from it.
use vstd::prelude::*;

verus! {

/// The random source that every stochastic operation of the library draws
/// from: `rand`'s standard generator, seeded and owned by the caller.
#[verifier::external_type_specification]
#[verifier::external_body]
pub struct ExStdRng(rand::rngs::StdRng);

/// One fair coin from `rng`, drawn with `rand::Rng::random_ratio(1, 2)`.
/// Nothing is claimed of the outcome: either side may come up.
#[verifier::external_body]
pub(crate) fn fair_coin(rng: &mut rand::rngs::StdRng) -> (heads: bool) {
    rand::Rng::random_ratio(rng, 1, 2)
}

/// One index below `bound`, drawn with `rand::Rng::random_range(0..bound)`.
/// The range must not be empty; the outcome lies inside it.
#[verifier::external_body]
pub(crate) fn uniform_index(rng: &mut rand::rngs::StdRng, bound: usize) -> (index: usize)
    requires
        bound > 0,
    ensures
        index < bound,
{
    rand::Rng::random_range(rng, 0..bound)
}

} // verus!
