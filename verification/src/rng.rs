//! Randomness for the stochastic sampling.
//!
//! The renderer draws its jitter and bounce directions from a seeded
//! pseudo-random generator, so a fixed seed reproduces a render exactly.
//! The generator itself comes from the `rand` crate and is trusted; nothing
//! is assumed about the values it yields.  Every function that consumes a
//! drawn value states what holds of its result whatever the draw was.

use vstd::prelude::*;
use rand::RngCore;
use rand::SeedableRng;
use crate::fixed::Fx;
use crate::fixed::FX_SCALE;

verus! {

#[verifier::external_type_specification]
#[verifier::external_body]
pub struct ExStdRng(rand::rngs::StdRng);

/// Relies on rand's `StdRng::seed_from_u64`: builds a generator from a seed
/// and does not panic.  Nothing is assumed about the stream it will yield.
#[verifier::external_body]
fn rng_from_seed(seed: u64) -> rand::rngs::StdRng {
    rand::rngs::StdRng::seed_from_u64(seed)
}

/// Relies on rand's `RngCore::next_u64` for `StdRng`: yields a value and
/// does not panic.  Nothing is assumed about the value.
#[verifier::external_body]
fn rng_next(rng: &mut rand::rngs::StdRng) -> u64 {
    rng.next_u64()
}

/// A source of uniform fixed-point fractions, owned by one render.
pub struct Sampler {
    rng: rand::rngs::StdRng,
}

impl Sampler {
    /// A sampler seeded deterministically: the same seed yields the same
    /// stream of fractions within one build of the library.
    pub fn new(seed: u64) -> Sampler {
        Sampler { rng: rng_from_seed(seed) }
    }

    /// A fraction in `[0, 1)`: its raw value covers the whole fixed-point
    /// grid of that interval.
    pub fn next_fraction(&mut self) -> (f: Fx)
        ensures
            0 <= f.raw < FX_SCALE,
    {
        let bits = rng_next(&mut self.rng);
        Fx { raw: (bits % 65536) as i64 }
    }
}

} // verus!
