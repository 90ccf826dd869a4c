use vstd::prelude::*;

verus! {

pub const NANOS_PER_MILLI: u64 = 1_000_000;

pub const NANOS_PER_SEC: u64 = 1_000_000_000;

/// A non-negative span of time, counted in nanoseconds.
#[derive(Clone, Copy, Debug, PartialEq, Eq, Structural)]
pub struct Duration {
    pub nanos: u64,
}

/// A reading of a monotonic clock: nanoseconds since the clock's origin.
#[derive(Clone, Copy, Debug, PartialEq, Eq, Structural)]
pub struct Instant {
    pub nanos: u64,
}

impl Duration {
    pub fn from_nanos(nanos: u64) -> (r: Duration)
        ensures
            r.nanos == nanos,
    {
        Duration { nanos }
    }

    pub fn from_millis(millis: u64) -> (r: Duration)
        requires
            millis * NANOS_PER_MILLI <= u64::MAX,
        ensures
            r.nanos == millis * NANOS_PER_MILLI,
    {
        Duration { nanos: millis * NANOS_PER_MILLI }
    }

    pub fn from_secs(secs: u64) -> (r: Duration)
        requires
            secs * NANOS_PER_SEC <= u64::MAX,
        ensures
            r.nanos == secs * NANOS_PER_SEC,
    {
        Duration { nanos: secs * NANOS_PER_SEC }
    }

    /// Whole milliseconds in the span, rounded down.
    pub fn as_millis(&self) -> (r: u64)
        ensures
            r == self.nanos / NANOS_PER_MILLI,
    {
        self.nanos / NANOS_PER_MILLI
    }
}

impl Instant {
    pub fn from_nanos(nanos: u64) -> (r: Instant)
        ensures
            r.nanos == nanos,
    {
        Instant { nanos }
    }

    pub open spec fn plus_spec(self, d: Duration) -> Instant {
        if self.nanos + d.nanos <= u64::MAX {
            Instant { nanos: (self.nanos + d.nanos) as u64 }
        } else {
            Instant { nanos: u64::MAX }
        }
    }

    /// The instant `d` after this one; the clock's last reading where that
    /// lies beyond it.
    pub fn plus(self, d: Duration) -> (r: Instant)
        ensures
            r == self.plus_spec(d),
    {
        Instant { nanos: self.nanos.saturating_add(d.nanos) }
    }

    pub open spec fn since_spec(self, earlier: Instant) -> Duration {
        if self.nanos >= earlier.nanos {
            Duration { nanos: (self.nanos - earlier.nanos) as u64 }
        } else {
            Duration { nanos: 0 }
        }
    }

    /// The time elapsed from `earlier` to this instant, zero where `earlier`
    /// is the later one.
    pub fn since(self, earlier: Instant) -> (r: Duration)
        ensures
            r == self.since_spec(earlier),
    {
        Duration { nanos: self.nanos.saturating_sub(earlier.nanos) }
    }
}

} // verus!
