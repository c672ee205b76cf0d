//! The source of randomness that every randomized operation of the library
//! consumes: uniform integer sampling and in-place shuffling, backed by
//! `rand`'s standard generator.

use vstd::prelude::*;

verus! {

/// A seedable random-number source. All entropy the library uses flows
/// through an exclusive reference to one of these, so a run is reproducible
/// from its seed.
pub struct Rng {
    inner: rand::rngs::StdRng,
}

#[verifier::external_type_specification]
#[verifier::external_body]
pub struct ExStdRng(rand::rngs::StdRng);

impl Rng {
    /// Relies on rand_core's `SeedableRng::from_entropy`: a fresh generator
    /// seeded from the operating system.
    #[verifier::external_body]
    pub fn new() -> (r: Rng) {
        Rng { inner: rand::SeedableRng::from_entropy() }
    }

    /// Relies on rand_core's `SeedableRng::seed_from_u64`: a generator whose
    /// stream is a function of the seed alone.
    #[verifier::external_body]
    pub fn from_seed(seed: u64) -> (r: Rng) {
        Rng { inner: rand::SeedableRng::seed_from_u64(seed) }
    }

    /// Relies on rand's `Rng::gen_range` over `lo..hi`: a value uniform in
    /// the range; it panics only on an empty range, which `lo < hi` rules out.
    #[verifier::external_body]
    pub fn gen_range(&mut self, lo: usize, hi: usize) -> (r: usize)
        requires
            lo < hi,
        ensures
            lo <= r < hi,
    {
        rand::Rng::gen_range(&mut self.inner, lo..hi)
    }

    /// Relies on rand's `SliceRandom::shuffle`: a Fisher-Yates shuffle that
    /// only swaps elements in place, so the multiset of values is unchanged.
    #[verifier::external_body]
    pub fn shuffle(&mut self, v: &mut Vec<usize>)
        ensures
            final(v)@.len() == old(v)@.len(),
            final(v)@.to_multiset() == old(v)@.to_multiset(),
    {
        rand::seq::SliceRandom::shuffle(v.as_mut_slice(), &mut self.inner)
    }
}

} // verus!
