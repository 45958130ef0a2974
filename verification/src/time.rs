//! Spans and points of time as plain numbers.
use vstd::prelude::*;

verus! {

/// A span of time in nanoseconds.
#[derive(Clone, Copy, Debug, PartialEq, Eq, PartialOrd, Ord, Hash, Structural)]
pub struct Duration {
    pub nanos: u128,
}

impl Duration {
    /// The span of the given number of milliseconds.
    pub fn from_millis(millis: u64) -> (res: Duration)
        ensures
            res.nanos == millis * 1_000_000,
    {
        Duration { nanos: millis as u128 * 1_000_000 }
    }

    /// The span of the given number of seconds.
    pub fn from_secs(secs: u64) -> (res: Duration)
        ensures
            res.nanos == secs * 1_000_000_000,
    {
        Duration { nanos: secs as u128 * 1_000_000_000 }
    }
}

/// A reading of a clock that never goes back, in nanoseconds since some fixed
/// moment.
#[derive(Clone, Copy, Debug, PartialEq, Eq, PartialOrd, Ord, Hash, Structural)]
pub struct Instant {
    pub nanos: u128,
}

impl Instant {
    /// How long after `earlier` this reading was taken; zero where it was
    /// taken before.
    pub open spec fn since(self, earlier: Instant) -> int {
        if self.nanos >= earlier.nanos {
            self.nanos - earlier.nanos
        } else {
            0
        }
    }

    /// The moment that comes the given span later.
    pub fn after(self, span: Duration) -> (res: Instant)
        requires
            self.nanos + span.nanos <= u128::MAX,
        ensures
            res.nanos == self.nanos + span.nanos,
    {
        Instant { nanos: self.nanos + span.nanos }
    }

    /// How long after `earlier` this reading was taken; zero where it was
    /// taken before.
    pub fn duration_since(self, earlier: Instant) -> (res: Duration)
        ensures
            res.nanos == self.since(earlier),
    {
        if self.nanos >= earlier.nanos {
            Duration { nanos: self.nanos - earlier.nanos }
        } else {
            Duration { nanos: 0 }
        }
    }
}

/// A moment of the calendar: whole seconds since 1970-01-01T00:00:00Z
/// (negative before it) and nanoseconds into that second.
#[derive(Clone, Copy, Debug, PartialEq, Eq, PartialOrd, Ord, Hash, Structural)]
pub struct SystemTime {
    pub secs: i64,
    pub nanos: u32,
}

impl SystemTime {
    /// Whole seconds since the epoch; zero for a moment before it.
    pub open spec fn seconds_since_epoch(self) -> int {
        if self.secs < 0 {
            0
        } else {
            self.secs as int
        }
    }

    /// Nanoseconds since the epoch; zero for a moment before it.
    pub open spec fn nanos_since_epoch(self) -> int {
        if self.secs < 0 {
            0
        } else {
            self.secs * 1_000_000_000 + self.nanos
        }
    }

    /// Nanoseconds since the epoch, negative before it.
    pub open spec fn nanos_from_epoch(self) -> int {
        self.secs * 1_000_000_000 + self.nanos
    }

    /// How long after `earlier` this moment is, where it is not before it.
    pub open spec fn since(self, earlier: SystemTime) -> Option<Duration> {
        if self.nanos_from_epoch() >= earlier.nanos_from_epoch() {
            Some(
                Duration {
                    nanos: (self.nanos_from_epoch() - earlier.nanos_from_epoch()) as u128,
                },
            )
        } else {
            None
        }
    }

    /// How long after `earlier` this moment is, where it is not before it.
    pub fn duration_since(self, earlier: SystemTime) -> (res: Option<Duration>)
        ensures
            res == self.since(earlier),
    {
        let a: i128 = self.secs as i128 * 1_000_000_000 + self.nanos as i128;
        let b: i128 = earlier.secs as i128 * 1_000_000_000 + earlier.nanos as i128;
        if a >= b {
            Some(Duration { nanos: (a - b) as u128 })
        } else {
            None
        }
    }

    /// Whole seconds since the epoch; zero for a moment before it.
    pub fn unix_seconds(self) -> (res: u64)
        ensures
            res == self.seconds_since_epoch(),
    {
        if self.secs < 0 {
            0
        } else {
            self.secs as u64
        }
    }

    /// Nanoseconds since the epoch; zero for a moment before it.
    pub fn unix_nanos(self) -> (res: u128)
        ensures
            res == self.nanos_since_epoch(),
    {
        if self.secs < 0 {
            0
        } else {
            self.secs as u128 * 1_000_000_000 + self.nanos as u128
        }
    }
}

/// Spans between readings add up: from the earliest to the latest it is as
/// long as over any reading between, no time passes within one reading, and
/// none where the clock is said to have gone back.
pub proof fn readings_lie_on_one_line(a: Instant, b: Instant, c: Instant)
    requires
        a.nanos <= b.nanos <= c.nanos,
    ensures
        c.since(a) == c.since(b) + b.since(a),
        a.nanos + c.since(a) == c.nanos,
        a.since(c) == 0,
{
}

/// The span between two moments leads from the one to the other, and there is
/// one exactly where the earlier moment does not lie ahead.
pub proof fn moments_lie_on_one_line(earlier: SystemTime, later: SystemTime)
    ensures
        later.since(earlier) matches Some(span) ==> earlier.secs * 1_000_000_000 + earlier.nanos
            + span.nanos == later.secs * 1_000_000_000 + later.nanos,
        later.since(earlier) is None ==> later.secs * 1_000_000_000 + later.nanos < earlier.secs
            * 1_000_000_000 + earlier.nanos,
        later.secs >= 0 ==> later.seconds_since_epoch() == later.secs && later.nanos_since_epoch()
            == later.secs * 1_000_000_000 + later.nanos,
        later.secs < 0 ==> later.seconds_since_epoch() == 0 && later.nanos_since_epoch() == 0,
{
}

} // verus!
