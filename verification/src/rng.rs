//! An explicitly passed, seedable source of randomness, backed by rand's
//! standard generator.

use vstd::prelude::*;

verus! {

#[verifier::external_type_specification]
#[verifier::external_body]
pub struct ExStdRng(rand::rngs::StdRng);

/// A sampling source handed explicitly to every stochastic step, so that one
/// render invocation draws from one seedable stream.
pub struct Rng {
    inner: rand::rngs::StdRng,
}

impl Rng {
    /// Relies on rand's `SeedableRng::seed_from_u64`: builds a generator
    /// whose stream is determined by the seed.
    #[verifier::external_body]
    pub fn from_seed(seed: u64) -> (r: Rng) {
        Rng { inner: <rand::rngs::StdRng as rand::SeedableRng>::seed_from_u64(seed) }
    }

    /// Relies on rand's `Rng::gen_range`: returns a value of the given range,
    /// and panics only when the range is empty, which `m >= 1` rules out.
    #[verifier::external_body]
    pub(crate) fn next_below(&mut self, m: u64) -> (r: u64)
        requires
            m >= 1,
        ensures
            r < m,
    {
        rand::Rng::gen_range(&mut self.inner, 0..m)
    }
}

} // verus!
