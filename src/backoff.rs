use vstd::prelude::*;

verus! {

/// Exponential reconnect delay, in milliseconds: doubled on each failure up
/// to `max`, and returned to `min` after a success.
pub struct BackoffState {
    pub current: u64,
    pub min: u64,
    pub max: u64,
}

/// The delay after `current` has been doubled and capped at `max`.
pub open spec fn advanced(current: u64, max: u64) -> u64 {
    if current as int * 2 <= max as int {
        (current * 2) as u64
    } else {
        max
    }
}

impl BackoffState {
    pub open spec fn wf(&self) -> bool {
        self.min <= self.current <= self.max
    }

    /// Starts at `min`.
    pub fn new(min: u64, max: u64) -> (r: BackoffState)
        requires
            min <= max,
        ensures
            r.wf(),
            r.current == min,
            r.min == min,
            r.max == max,
    {
        BackoffState { current: min, min, max }
    }

    /// Doubles the delay, capped at `max`.
    pub fn advance(&mut self)
        requires
            old(self).wf(),
        ensures
            final(self).wf(),
            final(self).min == old(self).min,
            final(self).max == old(self).max,
            final(self).current == advanced(old(self).current, old(self).max),
    {
        if self.current <= self.max / 2 {
            self.current = self.current * 2;
        } else {
            self.current = self.max;
        }
    }

    /// Returns the delay to `min`.
    pub fn reset(&mut self)
        requires
            old(self).wf(),
        ensures
            final(self).wf(),
            final(self).min == old(self).min,
            final(self).max == old(self).max,
            final(self).current == old(self).min,
    {
        self.current = self.min;
    }
}

} // verus!
