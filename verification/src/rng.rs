//! The simulation's source of randomness: a seedable pseudo-random
//! generator, wrapped so that verified code can draw bounded indices.

use vstd::prelude::*;

verus! {

#[verifier::external_type_specification]
#[verifier::external_body]
pub struct ExStdRng(rand::rngs::StdRng);

/// A seedable pseudo-random source. All random decisions of the simulation
/// (facing directions, turns, coin flips, food placement, follower picks)
/// draw from one value of this type.
pub struct Rand {
    rng: rand::rngs::StdRng,
}

impl Rand {
    /// A generator seeded from the operating system's entropy.
    ///
    /// Relies on rand's `SeedableRng::from_entropy` for `StdRng`.
    #[verifier::external_body]
    pub fn new() -> Rand {
        Rand { rng: <rand::rngs::StdRng as rand::SeedableRng>::from_entropy() }
    }

    /// A generator with a fixed seed, for reproducible runs.
    ///
    /// Relies on rand's `SeedableRng::seed_from_u64` for `StdRng`.
    #[verifier::external_body]
    pub fn from_seed(seed: u64) -> Rand {
        Rand { rng: <rand::rngs::StdRng as rand::SeedableRng>::seed_from_u64(seed) }
    }

    /// Draws one value below `n`. Nothing is promised of the choice beyond
    /// its bound: two draws on equal inputs may differ.
    ///
    /// Relies on rand's `Rng::gen_range`, which returns a value inside the
    /// given range and panics only when the range is empty.
    #[verifier::external_body]
    pub(crate) fn next_below(&mut self, n: usize) -> (r: usize)
        requires
            n >= 1,
        ensures
            r < n,
    {
        rand::Rng::gen_range(&mut self.rng, 0..n)
    }

    /// Draws a fair-ish coin: the two-sided case of `next_below`.
    pub fn coin(&mut self) -> (r: bool) {
        self.next_below(2) == 0
    }
}

} // verus!
