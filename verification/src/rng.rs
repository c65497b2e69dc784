//! Injectable, seedable randomness for the simulation passes.
//!
//! Every nondeterministic choice the simulation makes (spawn intervals,
//! species, targets, timer durations) is drawn through [`SimRng`], so the
//! passes can be driven by a fixed seed in tests.  The generator itself is
//! `rand`'s standard generator; the contracts state only what `rand`'s
//! documentation promises of every draw, namely the range of the result.

use vstd::prelude::*;

verus! {

#[verifier::external_type_specification]
#[verifier::external_body]
pub struct ExStdRng(rand::rngs::StdRng);

/// A seedable random number generator owned by the simulation.
pub struct SimRng {
    inner: rand::rngs::StdRng,
}

impl SimRng {
    /// Relies on `rand::SeedableRng::seed_from_u64` to build a generator
    /// from a 64-bit seed.  Nothing is assumed of the stream it produces.
    #[verifier::external_body]
    pub fn from_seed(seed: u64) -> SimRng {
        SimRng { inner: <rand::rngs::StdRng as rand::SeedableRng>::seed_from_u64(seed) }
    }

    /// Relies on `rand::Rng::random_range`: for a non-empty integer range
    /// `lo..hi` it returns a uniformly distributed value of that range, and
    /// panics only on an empty range, which the precondition rules out.
    #[verifier::external_body]
    pub(crate) fn range_u64(&mut self, lo: u64, hi: u64) -> (r: u64)
        requires
            lo < hi,
        ensures
            lo <= r < hi,
    {
        rand::Rng::random_range(&mut self.inner, lo..hi)
    }
}

} // verus!
