//! The delay/sound timer pair: two 8-bit counters decremented together by an
//! external fixed-rate tick, saturating at zero.

use vstd::prelude::*;

verus! {

/// One saturating downward step of an 8-bit counter.
pub open spec fn sat_dec(x: u8) -> u8 {
    if x == 0 {
        0
    } else {
        (x - 1) as u8
    }
}

/// `n` saturating downward steps of an 8-bit counter.
pub open spec fn sat_dec_n(x: u8, n: nat) -> u8
    decreases n,
{
    if n == 0 {
        x
    } else {
        sat_dec(sat_dec_n(x, (n - 1) as nat))
    }
}

/// A counter that starts at one reaches zero after any positive number of
/// ticks and stays there; a counter already at zero is never moved, so
/// ticking one timer down has no effect on the other once the other is
/// exhausted. Counters are unsigned, so no tick can make one negative.
pub proof fn lemma_timer_saturation(n: nat)
    requires
        n >= 1,
    ensures
        sat_dec_n(1u8, n) == 0u8,
        sat_dec_n(0u8, n) == 0u8,
    decreases n,
{
    reveal_with_fuel(sat_dec_n, 2);
    if n > 1 {
        lemma_timer_saturation((n - 1) as nat);
    }
}

pub struct ChipTimers {
    pub delay: u8,
    pub sound: u8,
}

impl ChipTimers {
    pub fn new() -> (t: ChipTimers)
        ensures
            t.delay == 0,
            t.sound == 0,
    {
        ChipTimers { delay: 0u8, sound: 0u8 }
    }

    /// One external tick: both counters step down by one, saturating at zero.
    pub fn tick_second(&mut self)
        ensures
            final(self).delay == sat_dec(old(self).delay),
            final(self).sound == sat_dec(old(self).sound),
    {
        self.delay = self.delay.saturating_sub(1);
        self.sound = self.sound.saturating_sub(1);
    }

    /// Sound is audible exactly while the sound counter is positive; the
    /// audio gate outside the core reads this flag and nothing else.
    pub fn sound_active(&self) -> (r: bool)
        ensures
            r == (self.sound > 0),
    {
        self.sound > 0
    }
}

} // verus!
