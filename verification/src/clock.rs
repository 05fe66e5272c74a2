//! Points in time and spans of it, in nanoseconds of a steady clock.
use vstd::prelude::*;

verus! {

pub const NANOS_PER_SEC: u128 = 1_000_000_000;

pub const NANOS_PER_MILLI: u128 = 1_000_000;

/// A span of time.
#[derive(Debug, Clone, Copy, PartialEq, Eq, Structural)]
pub struct Duration {
    pub nanos: u128,
}

/// A reading of the clock: the time since some fixed moment.
#[derive(Debug, Clone, Copy, PartialEq, Eq, Structural)]
pub struct Instant {
    pub nanos: u128,
}

impl Duration {
    pub fn from_secs(secs: u64) -> (r: Duration)
        ensures
            r.nanos == secs * NANOS_PER_SEC,
    {
        Duration { nanos: secs as u128 * NANOS_PER_SEC }
    }

    pub fn from_millis(millis: u64) -> (r: Duration)
        ensures
            r.nanos == millis * NANOS_PER_MILLI,
    {
        Duration { nanos: millis as u128 * NANOS_PER_MILLI }
    }

    pub fn from_nanos(nanos: u64) -> (r: Duration)
        ensures
            r.nanos == nanos,
    {
        Duration { nanos: nanos as u128 }
    }

    pub open spec fn spec_plus(self, other: Duration) -> Duration {
        Duration {
            nanos: if self.nanos + other.nanos > u128::MAX {
                u128::MAX
            } else {
                (self.nanos + other.nanos) as u128
            },
        }
    }

    /// The two spans together, or the longest span there is.
    pub fn plus(self, other: Duration) -> (r: Duration)
        ensures
            r == self.spec_plus(other),
    {
        Duration { nanos: self.nanos.saturating_add(other.nanos) }
    }
}

impl Instant {
    pub fn from_nanos(nanos: u64) -> (r: Instant)
        ensures
            r.nanos == nanos,
    {
        Instant { nanos: nanos as u128 }
    }

    pub open spec fn spec_since(self, earlier: Instant) -> Duration {
        Duration {
            nanos: if self.nanos < earlier.nanos {
                0
            } else {
                (self.nanos - earlier.nanos) as u128
            },
        }
    }

    /// The time from `earlier` to `self`; none where `earlier` is the later.
    pub fn since(self, earlier: Instant) -> (r: Duration)
        ensures
            r == self.spec_since(earlier),
    {
        Duration { nanos: self.nanos.saturating_sub(earlier.nanos) }
    }

    pub open spec fn spec_after(self, d: Duration) -> Instant {
        Instant {
            nanos: if self.nanos + d.nanos > u128::MAX {
                u128::MAX
            } else {
                (self.nanos + d.nanos) as u128
            },
        }
    }

    /// The instant `d` later, or the last there is.
    pub fn after(self, d: Duration) -> (r: Instant)
        ensures
            r == self.spec_after(d),
    {
        Instant { nanos: self.nanos.saturating_add(d.nanos) }
    }
}

} // verus!
