//! Spans of time and points in time, in whole nanoseconds.

use vstd::prelude::*;

verus! {

/// The longest span a [`Duration`] can hold, in nanoseconds: `u64::MAX`
/// seconds and 999 999 999 nanoseconds.
pub const MAX_NANOS: u128 = 18_446_744_073_709_551_615_999_999_999;

/// A span of time.
#[derive(Debug, Clone, Copy, PartialEq, Eq, Structural)]
pub struct Duration {
    nanos: u128,
}

impl Duration {
    /// The length of the span in nanoseconds.
    pub closed spec fn nanos(self) -> nat {
        self.nanos as nat
    }

    #[verifier::type_invariant]
    spec fn fits(self) -> bool {
        self.nanos <= MAX_NANOS
    }

    /// A span of `secs` whole seconds.
    pub fn from_secs(secs: u64) -> (d: Duration)
        ensures
            d.nanos() == secs * 1_000_000_000,
    {
        Duration { nanos: secs as u128 * 1_000_000_000 }
    }

    /// A span of `millis` whole milliseconds.
    pub fn from_millis(millis: u64) -> (d: Duration)
        ensures
            d.nanos() == millis * 1_000_000,
    {
        Duration { nanos: millis as u128 * 1_000_000 }
    }

    /// A span of `nanos` whole nanoseconds.
    pub fn from_nanos(nanos: u64) -> (d: Duration)
        ensures
            d.nanos() == nanos,
    {
        Duration { nanos: nanos as u128 }
    }

    /// Whether the span is empty.
    pub fn is_zero(&self) -> (r: bool)
        ensures
            r == (self.nanos() == 0),
    {
        self.nanos == 0
    }

    /// The whole seconds in the span.
    pub fn as_secs(&self) -> (r: u64)
        ensures
            r == self.nanos() / 1_000_000_000,
    {
        proof {
            use_type_invariant(&*self);
        }
        (self.nanos / 1_000_000_000) as u64
    }

    /// The whole milliseconds in the span.
    pub fn as_millis(&self) -> (r: u128)
        ensures
            r == self.nanos() / 1_000_000,
    {
        self.nanos / 1_000_000
    }

    /// The whole microseconds in the span.
    pub fn as_micros(&self) -> (r: u128)
        ensures
            r == self.nanos() / 1_000,
    {
        self.nanos / 1_000
    }

    /// The nanoseconds in the span.
    pub fn as_nanos(&self) -> (r: u128)
        ensures
            r == self.nanos(),
            r <= MAX_NANOS,
    {
        proof {
            use_type_invariant(&*self);
        }
        self.nanos
    }

    /// Whether this span is shorter than `other`.
    pub fn shorter_than(&self, other: &Duration) -> (r: bool)
        ensures
            r == (self.nanos() < other.nanos()),
    {
        self.nanos < other.nanos
    }

    /// This span followed by `other`.
    pub fn plus(&self, other: &Duration) -> (d: Duration)
        requires
            self.nanos() + other.nanos() <= MAX_NANOS,
        ensures
            d.nanos() == self.nanos() + other.nanos(),
    {
        Duration { nanos: self.nanos + other.nanos }
    }
}

/// A point in time: how long after the start of a monotonic clock it lies.
#[derive(Debug, Clone, Copy, PartialEq, Eq, Structural)]
pub struct Instant {
    since: Duration,
}

impl Instant {
    /// Nanoseconds between the start of the clock and this point.
    pub closed spec fn nanos(self) -> nat {
        self.since.nanos()
    }

    /// The point that lies `since` after the start of the clock.
    pub fn at(since: Duration) -> (i: Instant)
        ensures
            i.nanos() == since.nanos(),
    {
        Instant { since }
    }

    /// The time from `earlier` to this point, or no time at all where
    /// `earlier` is the later of the two.
    pub fn saturating_duration_since(&self, earlier: &Instant) -> (d: Duration)
        ensures
            d.nanos() == elapsed(earlier.nanos(), self.nanos()),
    {
        proof {
            use_type_invariant(&self.since);
        }
        if self.since.nanos >= earlier.since.nanos {
            Duration { nanos: self.since.nanos - earlier.since.nanos }
        } else {
            Duration { nanos: 0 }
        }
    }
}

/// The nanoseconds from `from` to `to`, or zero where `from` is the later.
pub open spec fn elapsed(from: nat, to: nat) -> nat {
    if to >= from {
        (to - from) as nat
    } else {
        0
    }
}

/// The time between two points leads from the one to the other; there is none
/// back in time.
pub proof fn law_elapsed_time_leads_there(from: nat, to: nat)
    ensures
        from <= to ==> from + elapsed(from, to) == to,
        to <= from ==> elapsed(from, to) == 0,
{
}

} // verus!
