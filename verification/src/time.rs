//! Spans of time and moments on a monotonic clock.
use vstd::prelude::*;

verus! {

/// A span of time in nanoseconds.
#[derive(Clone, Copy, Debug, PartialEq, Eq, PartialOrd, Ord, Hash)]
pub struct Duration {
    pub nanos: u64,
}

/// A moment in nanoseconds since some moment in the past.
#[derive(Clone, Copy, Debug, PartialEq, Eq, PartialOrd, Ord, Hash)]
pub struct Instant {
    pub nanos: u64,
}

/// The nanoseconds that a number of seconds makes, as far as they can be held.
pub open spec fn secs(n: nat) -> Duration {
    Duration {
        nanos: if n * 1_000_000_000 <= u64::MAX {
            (n * 1_000_000_000) as u64
        } else {
            u64::MAX
        },
    }
}

/// The nanoseconds that a number of milliseconds makes, as far as they can be
/// held.
pub open spec fn millis(n: nat) -> Duration {
    Duration {
        nanos: if n * 1_000_000 <= u64::MAX {
            (n * 1_000_000) as u64
        } else {
            u64::MAX
        },
    }
}

/// The span from one moment to a later one; there is none to an earlier one.
pub open spec fn since(now: Instant, then: Instant) -> Duration {
    Duration {
        nanos: if now.nanos >= then.nanos {
            (now.nanos - then.nanos) as u64
        } else {
            0
        },
    }
}

/// The moment a span later, as far as it can be held.
pub open spec fn later(then: Instant, span: Duration) -> Instant {
    Instant {
        nanos: if then.nanos + span.nanos <= u64::MAX {
            (then.nanos + span.nanos) as u64
        } else {
            u64::MAX
        },
    }
}

impl Duration {
    pub fn from_secs(n: u64) -> (r: Duration)
        ensures
            r == secs(n as nat),
    {
        if n <= 18_446_744_073 {
            Duration { nanos: n * 1_000_000_000 }
        } else {
            Duration { nanos: u64::MAX }
        }
    }

    pub fn from_millis(n: u64) -> (r: Duration)
        ensures
            r == millis(n as nat),
    {
        if n <= 18_446_744_073_709 {
            Duration { nanos: n * 1_000_000 }
        } else {
            Duration { nanos: u64::MAX }
        }
    }

    /// The whole milliseconds.
    pub fn as_millis(&self) -> (r: u64)
        ensures
            r == self.nanos / 1_000_000,
    {
        self.nanos / 1_000_000
    }

    /// The whole seconds.
    pub fn as_secs(&self) -> (r: u64)
        ensures
            r == self.nanos / 1_000_000_000,
    {
        self.nanos / 1_000_000_000
    }
}

impl Instant {
    /// The span since another moment.
    pub fn duration_since(&self, then: Instant) -> (r: Duration)
        ensures
            r == since(*self, then),
    {
        if self.nanos >= then.nanos {
            Duration { nanos: self.nanos - then.nanos }
        } else {
            Duration { nanos: 0 }
        }
    }

    /// The moment a span later.
    pub fn plus(&self, span: Duration) -> (r: Instant)
        ensures
            r == later(*self, span),
    {
        if span.nanos <= u64::MAX - self.nanos {
            Instant { nanos: self.nanos + span.nanos }
        } else {
            Instant { nanos: u64::MAX }
        }
    }
}

// ---------------------------------------------------------------------------
// The clock on the wall
// ---------------------------------------------------------------------------

/// A reading of the system's clock.
#[verifier::external_type_specification]
#[verifier::external_body]
pub struct ExSystemTime(std::time::SystemTime);

/// `std::time::SystemTime::now`: what the clock shows is not stated.
#[verifier::external_body]
fn wall_clock() -> (r: std::time::SystemTime) {
    std::time::SystemTime::now()
}

/// `std::time::SystemTime::duration_since` the Unix epoch, and nothing before it. How
/// long it is depends on the clock and is not stated.
#[verifier::external_body]
fn since_epoch(moment: std::time::SystemTime) -> (r: Option<std::time::Duration>) {
    moment.duration_since(std::time::UNIX_EPOCH).ok()
}

/// `std::time::Duration::as_secs` of a span that the clock gave, which is not stated.
#[verifier::external_body]
fn whole_seconds(span: std::time::Duration) -> (r: u64) {
    span.as_secs()
}

/// `std::time::Duration::as_nanos` of a span that the clock gave, which is not stated.
#[verifier::external_body]
fn whole_nanos(span: std::time::Duration) -> (r: u128) {
    span.as_nanos()
}

/// The seconds since the Unix epoch, or zero before it.
pub(crate) fn unix_seconds() -> (r: u64) {
    match since_epoch(wall_clock()) {
        Some(span) => whole_seconds(span),
        None => 0,
    }
}

/// The low bits of the nanoseconds since the Unix epoch, and nothing before it.
pub(crate) fn unix_nanos() -> (r: Option<u64>) {
    match since_epoch(wall_clock()) {
        Some(span) => Some(#[verifier::truncate] (whole_nanos(span) as u64)),
        None => None,
    }
}

} // verus!
