//! A seeded source of uniform random integers.
use rand::rngs::StdRng;
use rand::Rng;
use rand::SeedableRng;
use vstd::prelude::*;

verus! {

#[verifier::external_type_specification]
#[verifier::external_body]
pub struct ExStdRng(rand::rngs::StdRng);

/// Relies on rand's `SeedableRng::seed_from_u64` for `StdRng`: builds a
/// generator whose stream is fixed by the seed.
#[verifier::external_body]
fn std_rng_from_seed(seed: u64) -> (r: StdRng) {
    StdRng::seed_from_u64(seed)
}

/// Relies on rand's `Rng::gen_range` over a half-open range: the value lies
/// in `[lo, hi)`; it panics only on an empty range, which `requires` rules out.
#[verifier::external_body]
fn std_rng_gen_range(rng: &mut StdRng, lo: i64, hi: i64) -> (r: i64)
    requires
        lo < hi,
    ensures
        lo <= r < hi,
{
    rng.gen_range(lo..hi)
}

/// An injectable random source: the same seed replays the same draws.
pub struct Dice {
    rng: StdRng,
}

impl Dice {
    pub fn new(seed: u64) -> (r: Dice) {
        Dice { rng: std_rng_from_seed(seed) }
    }

    /// A uniform draw from `[lo, hi)`.
    pub fn range(&mut self, lo: i64, hi: i64) -> (r: i64)
        requires
            lo < hi,
        ensures
            lo <= r < hi,
    {
        std_rng_gen_range(&mut self.rng, lo, hi)
    }
}

} // verus!
