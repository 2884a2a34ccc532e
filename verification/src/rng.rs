//! The boundary to the `rand` crate. Every trial owns one `SmallRng`, seeded
//! from the trial's index; a roll draws one value from it. Which value comes
//! back is opaque to the contracts here: only its range is promised, so all
//! verified code downstream holds for every possible draw.

use vstd::prelude::*;

verus! {

#[verifier::external_type_specification]
#[verifier::external_body]
pub struct ExSmallRng(rand::rngs::SmallRng);

/// Relies on rand's `SeedableRng::seed_from_u64`: builds a `SmallRng` from
/// an integer seed. Nothing is claimed of the generator's state.
#[verifier::external_body]
pub fn rng_from_seed(seed: u64) -> rand::rngs::SmallRng {
    <rand::rngs::SmallRng as rand::SeedableRng>::seed_from_u64(seed)
}

/// Relies on rand's `Rng::random_range`: a value drawn from `0..bound`,
/// which panics only when the range is empty. Only the range of the result
/// is promised; callers must hold for every draw.
#[verifier::external_body]
pub fn draw_below(rng: &mut rand::rngs::SmallRng, bound: u8) -> (r: u8)
    requires
        bound >= 1,
    ensures
        r < bound,
{
    rand::Rng::random_range(rng, 0..bound)
}

} // verus!
