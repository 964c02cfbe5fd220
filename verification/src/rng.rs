//! A deterministic xorshift pseudo-random byte source over a 32-bit state
//! word. The same seed yields the same infinite byte sequence, which keeps
//! the one opcode that consumes it reproducible under test.

use vstd::prelude::*;

verus! {

/// One xorshift step of the 32-bit state word.
pub open spec fn xorshift_step(s: u32) -> u32 {
    let a = s ^ (s << 13u32);
    let b = a ^ (a >> 17u32);
    b ^ (b << 5u32)
}

pub struct RandomNumberGenerator {
    pub state: u32,
}

impl RandomNumberGenerator {
    pub fn new(state: u32) -> (rng: RandomNumberGenerator)
        ensures
            rng.state == state,
    {
        RandomNumberGenerator { state }
    }

    /// Reseed: the state is set directly, so two generators seeded alike
    /// produce the same sequence from here on.
    pub fn seed(&mut self, value: u32)
        ensures
            final(self).state == value,
    {
        self.state = value;
    }

    /// Advance the state by one xorshift step and hand out its low byte.
    /// The result and the new state are functions of the old state alone.
    pub fn next(&mut self) -> (r: u8)
        ensures
            final(self).state == xorshift_step(old(self).state),
            r == xorshift_step(old(self).state) as u8,
    {
        let mut x = self.state;
        x = x ^ (x << 13);
        x = x ^ (x >> 17);
        x = x ^ (x << 5);
        self.state = x;
        #[verifier::truncate] (x as u8)
    }
}

} // verus!
