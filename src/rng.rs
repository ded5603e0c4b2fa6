use vstd::prelude::*;

use rand::Rng;
use rand::SeedableRng;
use rand_xorshift::XorShiftRng;

verus! {

/// The seeded pseudo-random generator of the game, from `rand_xorshift`.
#[verifier::external_type_specification]
#[verifier::external_body]
pub struct ExXorShiftRng(XorShiftRng);

/// Relies on `rand_core::SeedableRng::seed_from_u64` for `XorShiftRng`: a
/// generator whose sequence is fixed by the seed.
#[verifier::external_body]
pub(crate) fn seeded_rng(seed: u64) -> XorShiftRng {
    XorShiftRng::seed_from_u64(seed)
}

/// Relies on `rand::Rng::gen_range` (rand 0.7): a value in `[low, high)`; it
/// panics when `low >= high`, which `requires` rules out.
#[verifier::external_body]
pub(crate) fn gen_range_i64(rng: &mut XorShiftRng, low: i64, high: i64) -> (r: i64)
    requires
        low < high,
    ensures
        low <= r < high,
{
    rng.gen_range(low, high)
}

/// Relies on `rand::Rng::gen` for `u8`: any byte.
#[verifier::external_body]
pub(crate) fn gen_u8(rng: &mut XorShiftRng) -> u8 {
    rng.gen::<u8>()
}

} // verus!
