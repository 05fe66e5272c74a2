//! The countdown before a delayed capture.
use vstd::prelude::*;

use crate::clock::{Duration, Instant, NANOS_PER_SEC};

verus! {

/// A countdown: when it began and how long it runs.
#[derive(Debug, Clone, Copy)]
pub struct Countdown {
    pub running: Option<(Instant, Duration)>,
}

impl Default for Countdown {
    fn default() -> (r: Self)
        ensures
            r.running is None,
    {
        Countdown { running: None }
    }
}

impl Countdown {
    /// Begins to count down from `total`.
    pub fn trigger(&mut self, total: Duration, now: Instant)
        ensures
            *final(self) == (Countdown { running: Some((now, total)) }),
    {
        self.running = Some((now, total));
    }

    pub open spec fn active(self, now: Instant) -> bool {
        match self.running {
            Some((started, total)) => now.spec_since(started).nanos < total.nanos,
            None => false,
        }
    }

    /// Whether there is time left.
    pub fn is_active(&self, now: Instant) -> (r: bool)
        ensures
            r == self.active(now),
    {
        match self.running {
            Some((started, total)) => now.since(started).nanos < total.nanos,
            None => false,
        }
    }

    /// The nanoseconds left.
    pub open spec fn left(self, now: Instant) -> int {
        match self.running {
            Some((started, total)) => if self.active(now) {
                total.nanos - now.spec_since(started).nanos
            } else {
                0
            },
            None => 0,
        }
    }

    /// The whole seconds left, a second begun counting as one.
    pub open spec fn seconds_left(self, now: Instant) -> int {
        let secs = (self.left(now) + NANOS_PER_SEC - 1) / (NANOS_PER_SEC as int);
        if secs > u32::MAX {
            u32::MAX as int
        } else {
            secs
        }
    }

    /// The whole seconds left, a second begun counting as one.
    pub fn remaining_secs(&self, now: Instant) -> (r: u32)
        ensures
            r == self.seconds_left(now),
    {
        match self.running {
            None => 0,
            Some((started, total)) => {
                let elapsed: u128 = now.since(started).nanos;
                if elapsed >= total.nanos {
                    return 0;
                }
                let left: u128 = total.nanos - elapsed;
                let whole: u128 = left / NANOS_PER_SEC;
                let secs: u128 = if left % NANOS_PER_SEC == 0 {
                    whole
                } else {
                    whole + 1
                };
                if secs > u32::MAX as u128 {
                    u32::MAX
                } else {
                    secs as u32
                }
            },
        }
    }
}

/// The seconds shown are none exactly when the countdown is over, and never go
/// up.
pub proof fn law_countdown_runs_down(c: Countdown, now: Instant, later: Instant)
    requires
        now.nanos <= later.nanos,
    ensures
        c.active(now) <==> c.seconds_left(now) > 0,
        c.seconds_left(later) <= c.seconds_left(now),
        c.active(later) ==> c.active(now),
{
}

} // verus!
