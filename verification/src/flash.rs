//! The camera flash: full at the moment of a capture, fading to nothing.
use vstd::prelude::*;

use crate::clock::{Duration, Instant, NANOS_PER_MILLI};
use crate::toast::Motion;

verus! {

/// A part of a whole.
#[derive(Debug, Clone, Copy, PartialEq, Eq, Structural)]
pub struct Ratio {
    pub part: u128,
    pub whole: u128,
}

impl Ratio {
    pub open spec fn wf(self) -> bool {
        self.whole > 0 && self.part <= self.whole
    }

    pub open spec fn none() -> Ratio {
        Ratio { part: 0, whole: 1 }
    }

    pub open spec fn all() -> Ratio {
        Ratio { part: 1, whole: 1 }
    }

    pub open spec fn is_none(self) -> bool {
        self.part == 0
    }

    pub open spec fn is_all(self) -> bool {
        self.part == self.whole
    }

    /// The rest of the whole.
    pub open spec fn spec_rest(self) -> Ratio {
        Ratio { part: (self.whole - self.part) as u128, whole: self.whole }
    }

    pub fn rest(self) -> (r: Ratio)
        requires
            self.wf(),
        ensures
            r == self.spec_rest(),
            r.wf(),
    {
        Ratio { part: self.whole - self.part, whole: self.whole }
    }
}

/// How long a flash takes to fade.
pub open spec fn fade_of(motion: Motion) -> Duration {
    Duration { nanos: (motion.flash * NANOS_PER_MILLI) as u128 }
}

/// How long a flash takes to fade.
pub fn fade(motion: &Motion) -> (r: Duration)
    ensures
        r == fade_of(*motion),
{
    Duration::from_millis(motion.flash as u64)
}

/// The flash: when it last went off.
#[derive(Debug, Clone, Copy, PartialEq, Eq, Structural)]
pub struct Flash {
    pub started: Option<Instant>,
}

impl Default for Flash {
    fn default() -> (r: Self)
        ensures
            r.started is None,
    {
        Flash { started: None }
    }
}

impl Flash {
    /// Sets the flash off.
    pub fn trigger(&mut self, now: Instant)
        ensures
            *final(self) == (Flash { started: Some(now) }),
    {
        self.started = Some(now);
    }

    pub open spec fn active(self, now: Instant, fade: Duration) -> bool {
        match self.started {
            Some(started) => now.spec_since(started).nanos < fade.nanos,
            None => false,
        }
    }

    /// Whether the flash is still fading.
    pub fn is_active(&self, now: Instant, fade: Duration) -> (r: bool)
        ensures
            r == self.active(now, fade),
    {
        match self.started {
            Some(started) => now.since(started).nanos < fade.nanos,
            None => false,
        }
    }

    pub open spec fn spec_opacity(self, now: Instant, fade: Duration) -> Ratio {
        if self.active(now, fade) {
            Ratio {
                part: (fade.nanos - now.spec_since(self.started->0).nanos) as u128,
                whole: fade.nanos,
            }
        } else {
            Ratio::none()
        }
    }

    /// How opaque the flash is: all of it at first, then evenly less.
    pub fn opacity(&self, now: Instant, fade: Duration) -> (r: Ratio)
        ensures
            r == self.spec_opacity(now, fade),
            r.wf(),
    {
        match self.started {
            None => Ratio { part: 0, whole: 1 },
            Some(started) => {
                let elapsed: u128 = now.since(started).nanos;
                if elapsed >= fade.nanos {
                    Ratio { part: 0, whole: 1 }
                } else {
                    Ratio { part: fade.nanos - elapsed, whole: fade.nanos }
                }
            },
        }
    }
}

/// The flash is full when it goes off, can be seen exactly while it is active,
/// and never grows brighter.
pub proof fn law_flash_only_fades(flash: Flash, now: Instant, later: Instant, fade: Duration)
    requires
        now.nanos <= later.nanos,
        fade.nanos > 0,
    ensures
        (Flash { started: Some(now) }).spec_opacity(now, fade).is_all(),
        flash.active(now, fade) <==> !flash.spec_opacity(now, fade).is_none(),
        flash.active(later, fade) ==> flash.active(now, fade) && flash.spec_opacity(
            later,
            fade,
        ).part <= flash.spec_opacity(now, fade).part,
{
}

} // verus!
