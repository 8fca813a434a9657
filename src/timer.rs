use vstd::prelude::*;

verus! {

/// Nanoseconds in one second.
pub const NANOS_PER_SECOND: u64 = 1_000_000_000;

/// `a + b`, held at `u64::MAX` where the sum would not fit.
pub open spec fn saturating_sum(a: u64, b: u64) -> u64 {
    if a + b > u64::MAX {
        u64::MAX
    } else {
        (a + b) as u64
    }
}

/// A clock that accumulates elapsed time against a period.
///
/// A repeating timer gives back exactly one period each time it fires; a
/// one-shot timer latches once it has fired. An advance fires at most once,
/// however many periods it covers.
#[derive(Clone, Copy, PartialEq, Eq, Structural, Debug)]
pub struct Timer {
    /// Length of one period, in nanoseconds.
    pub period: u64,
    /// Time accumulated towards the next firing, in nanoseconds.
    pub elapsed: u64,
    /// Whether the timer starts over after firing.
    pub repeating: bool,
    /// Set once a one-shot timer has fired.
    pub finished: bool,
    /// Whether the last advance fired.
    pub just_fired: bool,
}

impl Timer {
    /// The timer after one advance by `dt` nanoseconds.
    pub open spec fn advanced(self, dt: u64) -> Timer {
        if !self.repeating && self.finished {
            Timer { just_fired: false, ..self }
        } else {
            let total = saturating_sum(self.elapsed, dt);
            if total < self.period {
                Timer { elapsed: total, just_fired: false, ..self }
            } else if self.repeating {
                Timer { elapsed: (total - self.period) as u64, just_fired: true, ..self }
            } else {
                Timer { elapsed: self.period, finished: true, just_fired: true, ..self }
            }
        }
    }

    /// A timer that fires every `period` nanoseconds.
    pub fn repeating(period: u64) -> (t: Timer)
        ensures
            t == (Timer { period, elapsed: 0, repeating: true, finished: false, just_fired: false }),
    {
        Timer { period, elapsed: 0, repeating: true, finished: false, just_fired: false }
    }

    /// A timer that fires once, `period` nanoseconds after it starts.
    pub fn once(period: u64) -> (t: Timer)
        ensures
            t == (Timer { period, elapsed: 0, repeating: false, finished: false, just_fired: false }),
    {
        Timer { period, elapsed: 0, repeating: false, finished: false, just_fired: false }
    }

    /// Adds `dt` nanoseconds and records whether the period was reached.
    pub fn advance(&mut self, dt: u64)
        ensures
            *final(self) == old(self).advanced(dt),
    {
        if !self.repeating && self.finished {
            self.just_fired = false;
            return;
        }
        let total: u64 = if self.elapsed > u64::MAX - dt {
            u64::MAX
        } else {
            self.elapsed + dt
        };
        if total < self.period {
            self.elapsed = total;
            self.just_fired = false;
        } else if self.repeating {
            self.elapsed = total - self.period;
            self.just_fired = true;
        } else {
            self.elapsed = self.period;
            self.finished = true;
            self.just_fired = true;
        }
    }

    /// Whether the last advance fired.
    pub fn fired(&self) -> (r: bool)
        ensures
            r == self.just_fired,
    {
        self.just_fired
    }
}

} // verus!
