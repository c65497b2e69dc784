//! Countdown timers in whole milliseconds.
//!
//! A timer runs once: `tick` accumulates frame time, saturating at the
//! duration, and the timer counts as finished exactly when the accumulated
//! time has reached the duration.

use vstd::prelude::*;

verus! {

/// A one-shot countdown timer.
#[derive(Clone, Copy, PartialEq, Eq, Structural, Debug)]
pub struct Timer {
    pub elapsed_ms: u64,
    pub duration_ms: u64,
}

impl Timer {
    /// The accumulated time never exceeds the duration.
    pub open spec fn wf(self) -> bool {
        self.elapsed_ms <= self.duration_ms
    }

    /// The timer has consumed its whole duration.
    pub open spec fn spec_finished(self) -> bool {
        self.elapsed_ms >= self.duration_ms
    }

    /// The timer value after accumulating `dt_ms`, saturating at the duration.
    pub open spec fn spec_ticked(self, dt_ms: u64) -> Timer {
        if self.elapsed_ms + dt_ms >= self.duration_ms {
            Timer { elapsed_ms: self.duration_ms, duration_ms: self.duration_ms }
        } else {
            Timer { elapsed_ms: (self.elapsed_ms + dt_ms) as u64, duration_ms: self.duration_ms }
        }
    }

    /// A fresh timer for the given duration.
    pub fn from_ms(duration_ms: u64) -> (r: Timer)
        ensures
            r.elapsed_ms == 0,
            r.duration_ms == duration_ms,
            r.wf(),
    {
        Timer { elapsed_ms: 0, duration_ms }
    }

    /// Accumulate `dt_ms` of real time, saturating at the duration.
    pub fn tick(&mut self, dt_ms: u64)
        requires
            old(self).wf(),
        ensures
            *final(self) == old(self).spec_ticked(dt_ms),
            final(self).wf(),
            final(self).duration_ms == old(self).duration_ms,
    {
        let room: u64 = self.duration_ms - self.elapsed_ms;
        if dt_ms >= room {
            self.elapsed_ms = self.duration_ms;
        } else {
            self.elapsed_ms = self.elapsed_ms + dt_ms;
        }
    }

    /// Whether the whole duration has been consumed.
    pub fn is_finished(&self) -> (r: bool)
        ensures
            r == self.spec_finished(),
    {
        self.elapsed_ms >= self.duration_ms
    }
}

} // verus!
