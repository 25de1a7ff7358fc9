//! The countdown state: an hour/minute/second triple decremented once per
//! firing, with borrow propagation from seconds into minutes into hours.

use vstd::prelude::*;

verus! {

/// The value the hour counter wraps to when it is decremented past zero.
pub const HOUR_WRAP: u16 = 1111;

/// One hour/minute/second triple of the countdown display.
#[derive(Clone, Copy, Debug, PartialEq, Eq, Structural)]
pub struct CountdownState {
    pub hour: u16,
    pub minute: u8,
    pub second: u8,
}

impl CountdownState {
    /// The counters' bounds: minute and second in [0, 59], hour in [0, 1111].
    pub open spec fn wf(self) -> bool {
        self.hour <= HOUR_WRAP && self.minute <= 59 && self.second <= 59
    }

    /// The decrement-with-borrow transition: seconds count down; an
    /// underflowing unit reloads to 59 and borrows from the next; an hour
    /// borrowed past zero wraps to `HOUR_WRAP`.
    pub open spec fn spec_decrement(self) -> CountdownState {
        if self.second > 0 {
            CountdownState { second: (self.second - 1) as u8, ..self }
        } else if self.minute > 0 {
            CountdownState { minute: (self.minute - 1) as u8, second: 59, ..self }
        } else if self.hour > 0 {
            CountdownState { hour: (self.hour - 1) as u16, minute: 59, second: 59 }
        } else {
            CountdownState { hour: HOUR_WRAP, minute: 59, second: 59 }
        }
    }

    /// Builds a state from its three counters.
    pub fn new(hour: u16, minute: u8, second: u8) -> (s: Self)
        requires
            hour <= HOUR_WRAP,
            minute <= 59,
            second <= 59,
        ensures
            s == (CountdownState { hour, minute, second }),
            s.wf(),
    {
        CountdownState { hour, minute, second }
    }

    /// Advances the countdown by exactly one second.
    pub fn decrement(self) -> (r: Self)
        requires
            self.wf(),
        ensures
            r == self.spec_decrement(),
            r.wf(),
    {
        let mut hour = self.hour;
        let mut minute = self.minute;
        let mut second = self.second;
        if second == 0 {
            second = 59;
            if minute == 0 {
                minute = 59;
                if hour == 0 {
                    hour = HOUR_WRAP;
                } else {
                    hour = hour - 1;
                }
            } else {
                minute = minute - 1;
            }
        } else {
            second = second - 1;
        }
        CountdownState { hour, minute, second }
    }
}

/// Decrementing any in-bounds triple yields an in-bounds triple: the
/// counters never leave minute, second in [0, 59] and hour in [0, 1111].
pub proof fn lemma_decrement_preserves_bounds(s: CountdownState)
    requires
        s.wf(),
    ensures
        s.spec_decrement().wf(),
{
}

} // verus!
