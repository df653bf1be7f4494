//! A small deterministic pseudo-random number generator.
//!
//! Crossover and mutation are stochastic operators; the exact distribution is
//! tunable policy, not part of the structural contract.  The generator is a
//! 64-bit linear congruential step whose high bits supply the drawn values,
//! so every draw is itself verified, exact and reproducible from the seed.

use vstd::prelude::*;

verus! {

/// Linear congruential update of the generator state.
pub open spec fn lcg_step(s: u64) -> u64 {
    vstd::wrapping::u64_specs::wrapping_add(
        vstd::wrapping::u64_specs::wrapping_mul(s, 6364136223846793005u64),
        1442695040888963407u64,
    )
}

/// Pseudo-random generator state.  Its view is the current state word.
pub struct Rng {
    state: u64,
}

impl View for Rng {
    type V = u64;

    closed spec fn view(&self) -> u64 {
        self.state
    }
}

impl Rng {
    /// Create a generator from a seed; equal seeds give equal draw sequences.
    pub fn new(seed: u64) -> (r: Self)
        ensures
            r@ == seed,
    {
        Rng { state: seed }
    }

    /// Advance the state once and return it.
    pub fn next_u64(&mut self) -> (r: u64)
        ensures
            final(self)@ == lcg_step(old(self)@),
            r == final(self)@,
    {
        self.state = self.state.wrapping_mul(6364136223846793005u64).wrapping_add(1442695040888963407u64);
        self.state
    }

    /// Draw an unbiased-enough bit from the high end of the state.
    pub fn next_bool(&mut self) -> (r: bool)
        ensures
            final(self)@ == lcg_step(old(self)@),
            r == ((lcg_step(old(self)@) >> 63u64) == 1u64),
    {
        let v = self.next_u64();
        (v >> 63u64) == 1u64
    }

    /// Draw a value in `0 .. n` from the high bits of the state.
    pub fn next_below(&mut self, n: u64) -> (r: u64)
        requires
            1 <= n,
        ensures
            final(self)@ == lcg_step(old(self)@),
            r == (lcg_step(old(self)@) >> 32u64) % n,
            r < n,
    {
        let v = self.next_u64();
        (v >> 32u64) % n
    }

    /// Draw a fresh parameter value, uniformly in `-PARAM_MAX ..= PARAM_MAX`.
    pub fn next_param(&mut self) -> (r: i64)
        ensures
            final(self)@ == lcg_step(old(self)@),
            -crate::fixed::PARAM_MAX <= r <= crate::fixed::PARAM_MAX,
    {
        let v = self.next_below(2097153);
        (v as i64) - 1048576
    }
}

} // verus!
