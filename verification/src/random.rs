use vstd::prelude::*;

verus! {

/// `rand::rngs::StdRng`, the seedable generator that every operation in
/// need of a random value draws from. Nothing is known of its state.
#[verifier::external_type_specification]
#[verifier::external_body]
pub struct ExStdRng(rand::rngs::StdRng);

/// Calls `rand::Rng::gen_range` with the bounds `0` and `bound`.
///
/// Trusted, not proved: the value drawn is at least the lower bound and
/// less than the upper one. `gen_range` panics where the lower bound is not
/// below the upper one, so `bound` must be positive.
#[verifier::external_body]
pub(crate) fn draw_below(rng: &mut rand::rngs::StdRng, bound: u64) -> (r: u64)
    requires
        bound > 0,
    ensures
        r < bound,
{
    rand::Rng::gen_range(rng, 0u64, bound)
}

} // verus!
