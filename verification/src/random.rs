//! A seeded pseudo-random byte source for the random-mask instruction.
//!
//! A 64-bit xorshift generator: deterministic for a given seed, so runs
//! are reproducible, yet free of the machine state a host would otherwise
//! leak into the core.

use vstd::prelude::*;

verus! {

/// The generator state that follows `s`.
pub open spec fn spec_next_state(s: u64) -> u64 {
    let a = s ^ (s << 13u64);
    let b = a ^ (a >> 7u64);
    b ^ (b << 17u64)
}

/// The byte drawn from a generator state: its low 8 bits.
pub open spec fn spec_state_byte(s: u64) -> u8 {
    (s % 256) as u8
}

/// A deterministic, seeded pseudo-random byte source.
pub struct RandomByteSource {
    state: u64,
}

impl View for RandomByteSource {
    type V = u64;

    closed spec fn view(&self) -> u64 {
        self.state
    }
}

impl RandomByteSource {
    /// A generator starting from the given seed.
    pub fn new(seed: u64) -> (r: Self)
        ensures
            r@ == seed,
    {
        RandomByteSource { state: seed }
    }

    /// Advances the generator once and returns the byte of the new state.
    pub fn next_byte(&mut self) -> (r: u8)
        ensures
            final(self)@ == spec_next_state(old(self)@),
            r == spec_state_byte(final(self)@),
    {
        let a = self.state ^ (self.state << 13u64);
        let b = a ^ (a >> 7u64);
        self.state = b ^ (b << 17u64);
        (self.state % 256) as u8
    }
}

} // verus!
