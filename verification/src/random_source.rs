//! A seedable source of uniform random integers, backed by `rand`.

use vstd::prelude::*;

use rand::Rng;
use rand::SeedableRng;

verus! {

#[verifier::external_type_specification]
#[verifier::external_body]
pub struct ExStdRng(rand::rngs::StdRng);

/// Randomness for dungeon generation. Seedable, so that generation can be
/// reproduced deterministically in tests.
pub struct RandomSource {
    rng: rand::rngs::StdRng,
}

impl RandomSource {
    /// Relies on `rand::rngs::StdRng::seed_from_u64` (via `SeedableRng`) to
    /// build a generator from a word-sized seed.
    #[verifier::external_body]
    pub fn from_seed(seed: u64) -> (r: RandomSource) {
        RandomSource { rng: rand::rngs::StdRng::seed_from_u64(seed) }
    }

    /// Relies on `rand::Rng::gen_range` over the inclusive range
    /// `low..=high`: it panics only on an empty range and returns a value
    /// within the range. Nothing more is assumed of the outcome.
    #[verifier::external_body]
    pub fn sample_inclusive(&mut self, low: usize, high: usize) -> (r: usize)
        requires
            low <= high,
        ensures
            low <= r <= high,
    {
        self.rng.gen_range(low..=high)
    }
}

} // verus!
