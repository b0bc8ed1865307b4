//! The source of randomness for sampling: a seedable generator from the
//! `rand` crate behind trusted wrappers, and the rejection samplers that the
//! scattering models and the camera draw from.

use vstd::prelude::*;
use crate::fixed::SCALE;
use crate::vec3::{len2_s, proper, Vec3};

verus! {

#[verifier::external_type_specification]
#[verifier::external_body]
pub struct ExStdRng(rand::rngs::StdRng);

/// Relies on rand's `SeedableRng::seed_from_u64` for `StdRng`: builds a
/// generator whose stream is a function of the 64-bit seed.
#[verifier::external_body]
fn stdrng_from_seed(seed: u64) -> (r: rand::rngs::StdRng) {
    <rand::rngs::StdRng as rand::SeedableRng>::seed_from_u64(seed)
}

/// Relies on rand's `Rng::next_u32` for `StdRng`: returns the generator's
/// next 32 bits; nothing can be promised of a random value.
#[verifier::external_body]
fn stdrng_next_u32(rng: &mut rand::rngs::StdRng) -> (r: u32) {
    rand::Rng::next_u32(rng)
}

/// A stream of random fixed-point samples.
pub struct RandomSource {
    rng: rand::rngs::StdRng,
}

impl RandomSource {
    /// A source whose stream is determined by the seed.
    pub fn from_seed(seed: u64) -> (r: RandomSource) {
        RandomSource { rng: stdrng_from_seed(seed) }
    }

    /// The next raw 32 random bits.
    pub fn next_u32(&mut self) -> (r: u32) {
        stdrng_next_u32(&mut self.rng)
    }

    /// A sample in `[-1, 1]` (stored units `[-SCALE, SCALE]`).
    pub fn unit_symmetric(&mut self) -> (r: i64)
        ensures
            -(SCALE as int) <= r as int <= SCALE as int,
    {
        let raw: u32 = self.next_u32();
        (raw % 131073) as i64 - 65536
    }

    /// A sample in `[-1/2, 1/2]`, the per-pixel anti-aliasing jitter.
    pub fn jitter(&mut self) -> (r: i64)
        ensures
            -32768 <= r as int <= 32768,
    {
        let raw: u32 = self.next_u32();
        (raw % 65537) as i64 - 32768
    }

    /// A sample in `[0, 1]` (stored units `[0, SCALE]`), the uniform draw for
    /// the dielectric's reflect-or-refract choice.
    pub fn unit_interval(&mut self) -> (r: i64)
        ensures
            0 <= r as int <= SCALE as int,
    {
        let raw: u32 = self.next_u32();
        (raw % 65537) as i64
    }
}

impl Vec3 {
    /// A vector inside the unit sphere, by rejection sampling over
    /// `[-1, 1]^3`; falls back to the zero vector if no draw qualifies.
    pub fn random(rng: &mut RandomSource) -> (r: Vec3)
        ensures
            proper(r),
            len2_s(r) < SCALE as int,
    {
        let mut tries: usize = 0;
        while tries < 64
            invariant
                tries <= 64,
            decreases 64 - tries,
        {
            let p = Vec3::new(rng.unit_symmetric(), rng.unit_symmetric(), rng.unit_symmetric());
            if p.length_squared() < 65536 {
                return p;
            }
            tries = tries + 1;
        }
        Vec3::zero()
    }

    /// A vector inside the unit disk of the xy-plane, by rejection sampling
    /// over `[-1, 1]^2`; falls back to the zero vector.
    pub fn random_in_disc(rng: &mut RandomSource) -> (r: Vec3)
        ensures
            proper(r),
            len2_s(r) < SCALE as int,
            r.z == 0,
    {
        let mut tries: usize = 0;
        while tries < 64
            invariant
                tries <= 64,
            decreases 64 - tries,
        {
            let p = Vec3::new(rng.unit_symmetric(), rng.unit_symmetric(), 0);
            if p.length_squared() < 65536 {
                return p;
            }
            tries = tries + 1;
        }
        Vec3::zero()
    }
}

} // verus!
