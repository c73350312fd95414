//! The random-draw capability: Bernoulli draws and uniform range draws,
//! consumed strictly in call order.
//!
//! Production use wraps rand's seedable `StdRng`; tests can inject a
//! scripted source whose draws are fixed in advance, which makes a whole
//! run an exact function of its inputs.

use crate::fixed::SCALE;
use rand::Rng;
use rand::SeedableRng;
use rand::rngs::StdRng;
use vstd::prelude::*;

verus! {

#[verifier::external_type_specification]
#[verifier::external_body]
pub struct ExStdRng(StdRng);

/// Relies on `StdRng::seed_from_u64` (rand): builds the deterministic
/// generator for a seed. Nothing is assumed about the values it will draw.
#[verifier::external_body]
fn seed_std_rng(seed: u64) -> StdRng {
    StdRng::seed_from_u64(seed)
}

/// Relies on `StdRng::from_entropy` (rand): a generator seeded from OS
/// entropy. Nothing is assumed about the values it will draw.
#[verifier::external_body]
fn entropy_std_rng() -> StdRng {
    StdRng::from_entropy()
}

/// Relies on `Rng::gen_range` over `lo..hi` (rand): a value uniform in
/// `[lo, hi)`. The call panics only on an empty range, which the
/// precondition excludes.
#[verifier::external_body]
fn std_rng_range(rng: &mut StdRng, lo: u64, hi: u64) -> (r: u64)
    requires
        lo < hi,
    ensures
        lo <= r < hi,
{
    rng.gen_range(lo..hi)
}

pub enum SimulationRng {
    /// Draws from rand's `StdRng`.
    Seeded(StdRng),
    /// Draws read cyclically from a fixed script, each reduced into the
    /// requested range.
    Scripted { draws: Vec<u64>, pos: usize },
}

impl SimulationRng {
    /// A seeded deterministic source, or one seeded from OS entropy when no
    /// seed is given.
    pub fn new(seed: Option<u64>) -> SimulationRng {
        match seed {
            Option::Some(s) => SimulationRng::Seeded(seed_std_rng(s)),
            Option::None => SimulationRng::Seeded(entropy_std_rng()),
        }
    }

    /// A scripted source for exact-sequence tests.
    pub fn scripted(draws: Vec<u64>) -> (r: SimulationRng)
        ensures
            (r matches SimulationRng::Scripted { draws: d, pos } && d == draws && pos == 0),
    {
        SimulationRng::Scripted { draws, pos: 0 }
    }

    /// One uniform draw in `[lo, hi)`.
    pub fn gen_range(&mut self, lo: u64, hi: u64) -> (r: u64)
        requires
            lo < hi,
        ensures
            lo <= r < hi,
    {
        match self {
            SimulationRng::Seeded(rng) => std_rng_range(rng, lo, hi),
            SimulationRng::Scripted { draws, pos } => {
                let d: u64 = if draws.len() == 0 {
                    0
                } else {
                    draws[*pos % draws.len()]
                };
                *pos = if *pos < usize::MAX {
                    *pos + 1
                } else {
                    0
                };
                lo + d % (hi - lo)
            },
        }
    }

    /// One Bernoulli draw with success probability `p` in micro-units.
    /// A zero probability never succeeds; a probability at or above one
    /// whole unit always does.
    pub fn gen_bool(&mut self, p: u64) -> (r: bool)
        ensures
            p == 0 ==> !r,
            p >= SCALE ==> r,
    {
        let d = self.gen_range(0, SCALE);
        d < p
    }

    /// One uniform index draw below `n`.
    pub fn gen_index(&mut self, n: usize) -> (r: usize)
        requires
            n >= 1,
        ensures
            r < n,
    {
        let d = self.gen_range(0, n as u64);
        d as usize
    }
}

} // verus!
