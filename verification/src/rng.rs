//! A seeded random source for the simulation.
//!
//! The simulation seeds its starting grid from a pseudo-random stream. The
//! stream comes from `rand`'s `StdRng`, a deterministic generator: seeded
//! from a fixed value it yields the same numbers on every run, which is what
//! makes seeding reproducible and testable. The values themselves have no
//! short description, so the contracts name them: `rng_value(seed, k)` stands
//! for the k-th 32-bit draw of the generator seeded with `seed`.

use vstd::prelude::*;

verus! {

#[verifier::external_type_specification]
#[verifier::external_body]
pub struct ExStdRng(rand::rngs::StdRng);

/// The k-th 32-bit value of rand's `StdRng` stream seeded with `seed`
/// through `seed_from_u64`. The generator is deterministic, so the value is
/// a function of the seed and the position alone.
pub uninterp spec fn rng_value(seed: u64, k: nat) -> u32;

/// A random source: rand's `StdRng` together with the seed it was built from
/// and how many values have been drawn so far.
pub struct Rng {
    inner: rand::rngs::StdRng,
    seed: Ghost<u64>,
    drawn: Ghost<nat>,
}

/// Relies on rand's `SeedableRng::seed_from_u64` for `StdRng`: it builds the
/// deterministic generator whose successive draws `rng_value(seed, _)` names.
#[verifier::external_body]
fn std_rng_from_seed(seed: u64) -> (r: rand::rngs::StdRng) {
    <rand::rngs::StdRng as rand::SeedableRng>::seed_from_u64(seed)
}

impl Rng {
    /// The seed the generator was built from.
    pub closed spec fn spec_seed(&self) -> u64 {
        self.seed@
    }

    /// How many 32-bit values have been drawn since seeding.
    pub closed spec fn spec_drawn(&self) -> nat {
        self.drawn@
    }

    /// Build the random source from a 64-bit seed; no values drawn yet.
    pub fn from_seed(seed: u64) -> (r: Rng)
        ensures
            r.spec_seed() == seed,
            r.spec_drawn() == 0,
    {
        Rng { inner: std_rng_from_seed(seed), seed: Ghost(seed), drawn: Ghost(0nat) }
    }

    /// Draw the next 32-bit value of the stream.
    ///
    /// Relies on rand's `Rng::next_u32` for `StdRng`: a seeded generator
    /// draws a deterministic stream, so the value drawn is `rng_value` of
    /// the seed and of the position, and the position advances by one.
    #[verifier::external_body]
    pub(crate) fn next_u32(&mut self) -> (r: u32)
        ensures
            final(self).spec_seed() == old(self).spec_seed(),
            final(self).spec_drawn() == old(self).spec_drawn() + 1,
            r == rng_value(old(self).spec_seed(), old(self).spec_drawn()),
    {
        rand::Rng::next_u32(&mut self.inner)
    }
}

} // verus!
