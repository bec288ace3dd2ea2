//! A seedable pseudorandom source for generation and play, wrapping the
//! Mersenne-twister generator of the `doryen_extra` crate together with the
//! sampling helpers of the `rand` crate.
//!
//! Nothing is assumed about which value comes out of a draw beyond its range,
//! so everything proved about callers holds for every possible outcome.

use vstd::prelude::*;

verus! {

/// Sum of a sequence of sampling weights.
pub open spec fn weight_sum(s: Seq<u32>) -> int
    decreases s.len(),
{
    if s.len() == 0 {
        0
    } else {
        weight_sum(s.drop_last()) + s.last()
    }
}

/// One deterministic, independently seedable random stream. The game holds
/// two: one for level generation and one for play-time rolls, so that
/// regenerating a level never perturbs combat outcomes and vice versa.
///
/// The generator state is opaque to verification: declaring
/// `doryen_extra::random::Random` needs its `Algorithm` trait bound, which
/// cannot be stated here, so the whole struct is held behind its wrappers.
#[verifier::external_body]
pub struct GameRng {
    rng: doryen_extra::random::Random<doryen_extra::random::algorithms::MersenneTwister>,
}

impl GameRng {
    /// Relies on `rand_core::SeedableRng::seed_from_u64` over the
    /// `doryen_extra` Mersenne twister: a fresh generator determined by the
    /// seed. No contract ties the draws to the seed.
    #[verifier::external_body]
    pub fn from_seed(seed: u64) -> (r: GameRng) {
        GameRng { rng: rand::SeedableRng::seed_from_u64(seed) }
    }

    /// Relies on `rand::Rng::gen_range` over an inclusive range: the draw
    /// lies between the given bounds.
    #[verifier::external_body]
    pub fn range(&mut self, lo: usize, hi: usize) -> (r: usize)
        requires
            lo <= hi,
        ensures
            lo <= r <= hi,
    {
        rand::Rng::gen_range(&mut self.rng, lo..=hi)
    }

    /// Relies on `rand::Rng::gen::<bool>`: a fair coin flip.
    #[verifier::external_body]
    pub fn coin(&mut self) -> (r: bool) {
        rand::Rng::gen(&mut self.rng)
    }

    /// Relies on `rand::distributions::WeightedIndex`: with at least one
    /// positive weight and no overflowing total, `new` succeeds and `sample`
    /// returns the index of an entry with positive weight.
    #[verifier::external_body]
    pub fn weighted(&mut self, weights: &Vec<u32>) -> (r: usize)
        requires
            exists|i: int| 0 <= i < weights@.len() && weights@[i] > 0,
            weight_sum(weights@) <= u32::MAX,
        ensures
            r < weights@.len(),
            weights@[r as int] > 0,
    {
        let dist = rand::distributions::WeightedIndex::new(weights.iter()).unwrap();
        rand::distributions::Distribution::sample(&dist, &mut self.rng)
    }

    /// Relies on `rand::seq::index::sample`: exactly `amount` distinct
    /// indices drawn from `0..length`.
    #[verifier::external_body]
    pub fn pick_distinct(&mut self, length: usize, amount: usize) -> (r: Vec<usize>)
        requires
            amount <= length,
        ensures
            r@.len() == amount,
            forall|i: int| 0 <= i < r@.len() ==> #[trigger] r@[i] < length,
            forall|i: int, j: int| 0 <= i < j < r@.len() ==> r@[i] != r@[j],
    {
        rand::seq::index::sample(&mut self.rng, length, amount).into_vec()
    }
}

} // verus!
