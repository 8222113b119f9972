use vstd::prelude::*;

verus! {

/// A timer after one tick: down by one, never below zero.
pub open spec fn tick(t: u8) -> u8 {
    if t == 0 {
        0
    } else {
        (t - 1) as u8
    }
}

/// A timer after `n` ticks.
pub open spec fn ticks(t: u8, n: nat) -> u8
    decreases n,
{
    if n == 0 {
        t
    } else {
        tick(ticks(t, (n - 1) as nat))
    }
}

/// Ticking a timer `n` times takes it down by `n`, and stops at zero.
pub proof fn lemma_timer_runs_down(t: u8, n: nat)
    ensures
        ticks(t, n) == if n >= t {
            0
        } else {
            t - n
        },
    decreases n,
{
    if n > 0 {
        lemma_timer_runs_down(t, (n - 1) as nat);
    }
}

/// An 8-bit countdown counter that stops at zero.
pub struct Timer {
    pub timer: u8,
}

impl Timer {
    /// A timer that reads zero.
    pub fn new() -> (t: Self)
        ensures
            t.timer == 0,
    {
        Timer { timer: 0 }
    }

    /// Sets the timer back to zero.
    pub fn reset(&mut self)
        ensures
            final(self).timer == 0,
    {
        self.timer = 0;
    }

    /// Counts down by one unless the timer already reads zero; returns
    /// whether it was nonzero before the call.
    pub fn decrement(&mut self) -> (was_running: bool)
        ensures
            was_running == (old(self).timer != 0),
            final(self).timer == tick(old(self).timer),
    {
        if self.timer == 0 {
            return false;
        }
        self.timer -= 1;
        true
    }
}

} // verus!
