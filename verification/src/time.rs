//! Points on the shell's monotonic clock.
//!
//! Time is passed in rather than read, so every transition can be stated (and
//! tested) without sleeping.

use vstd::prelude::*;

verus! {

/// Nanoseconds in one millisecond.
pub const NANOS_PER_MILLI: u128 = 1_000_000;

/// The last reading a clock can give: 2^63 seconds, in nanoseconds.
pub const CLOCK_MAX: u128 = 9_223_372_036_854_775_808_000_000_000;

/// A point in time, in nanoseconds since the clock's origin.
#[derive(Debug, Clone, Copy, PartialEq, Eq, Structural, PartialOrd, Ord, Hash)]
pub struct Instant {
    pub nanos: u128,
}

impl Instant {
    /// True of every value a clock can return. A delay of any number of
    /// milliseconds can be added to such a value.
    pub open spec fn on_clock(self) -> bool {
        self.nanos <= CLOCK_MAX
    }

    /// True of every clock reading, and of every reading plus one delay.
    pub open spec fn schedulable(self) -> bool {
        self.nanos <= CLOCK_MAX + u64::MAX * NANOS_PER_MILLI
    }

    /// The point `millis` milliseconds later, as a model value.
    pub open spec fn plus_millis(self, millis: int) -> Instant {
        Instant { nanos: (self.nanos + millis * NANOS_PER_MILLI) as u128 }
    }

    /// The point `millis` milliseconds later.
    pub fn after_millis(self, millis: u64) -> (later: Instant)
        requires
            self.on_clock(),
        ensures
            later.nanos == self.nanos + millis * NANOS_PER_MILLI,
            later == self.plus_millis(millis as int),
            later.schedulable(),
    {
        let delay: u128 = (millis as u128) * NANOS_PER_MILLI;
        Instant { nanos: self.nanos + delay }
    }

    /// Nanoseconds from `earlier` to this point, zero when `earlier` is not
    /// earlier.
    pub fn saturating_nanos_since(self, earlier: Instant) -> (elapsed: u128)
        ensures
            elapsed == if self.nanos > earlier.nanos {
                self.nanos - earlier.nanos
            } else {
                0
            },
    {
        if self.nanos > earlier.nanos {
            self.nanos - earlier.nanos
        } else {
            0
        }
    }
}

} // verus!
