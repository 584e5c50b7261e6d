//! Plain models of instants and durations.
//!
//! An instant is a number of milliseconds since an arbitrary epoch; a
//! duration is a signed number of milliseconds. The maximum representable
//! instant doubles as the "never expires" sentinel of the session store.

use vstd::prelude::*;

verus! {

/// A point in time, in milliseconds since the epoch.
#[derive(Clone, Copy, PartialEq, Eq, Structural, Debug)]
pub struct Instant {
    pub millis: i64,
}

/// A signed length of time, in milliseconds.
#[derive(Clone, Copy, PartialEq, Eq, Structural, Debug)]
pub struct TimeDelta {
    pub millis: i64,
}

impl Instant {
    /// The largest representable instant, used as the "never expires" sentinel.
    pub fn max_value() -> (r: Instant)
        ensures
            r.millis == i64::MAX,
    {
        Instant { millis: i64::MAX }
    }

    /// Whether this instant is the "never expires" sentinel.
    pub open spec fn is_never(self) -> bool {
        self.millis == i64::MAX
    }

    /// Shift an instant by a duration.
    pub fn add_delta(self, delta: TimeDelta) -> (r: Instant)
        requires
            i64::MIN <= self.millis + delta.millis <= i64::MAX,
        ensures
            r.millis == self.millis + delta.millis,
    {
        Instant { millis: self.millis + delta.millis }
    }

    /// The duration from `earlier` to `self`.
    pub fn delta_since(self, earlier: Instant) -> (r: TimeDelta)
        requires
            i64::MIN <= self.millis - earlier.millis <= i64::MAX,
        ensures
            r.millis == self.millis - earlier.millis,
    {
        TimeDelta { millis: self.millis - earlier.millis }
    }

    /// Whether `self` is no later than `other`.
    pub fn is_at_or_before(self, other: Instant) -> (r: bool)
        ensures
            r == (self.millis <= other.millis),
    {
        self.millis <= other.millis
    }

    /// Whether `self` is strictly before `other`.
    pub fn is_before(self, other: Instant) -> (r: bool)
        ensures
            r == (self.millis < other.millis),
    {
        self.millis < other.millis
    }
}

impl TimeDelta {
    /// A duration of a whole number of seconds.
    pub fn from_seconds(seconds: i64) -> (r: TimeDelta)
        requires
            i64::MIN <= seconds * 1000 <= i64::MAX,
        ensures
            r.millis == seconds * 1000,
    {
        TimeDelta { millis: seconds * 1000 }
    }

    /// Whether the duration is strictly positive.
    pub fn is_positive(self) -> (r: bool)
        ensures
            r == (self.millis > 0),
    {
        self.millis > 0
    }

    /// Whether the duration is negative.
    pub fn is_negative(self) -> (r: bool)
        ensures
            r == (self.millis < 0),
    {
        self.millis < 0
    }

    /// Whether `self` is strictly longer than `other`.
    pub fn is_longer_than(self, other: TimeDelta) -> (r: bool)
        ensures
            r == (self.millis > other.millis),
    {
        self.millis > other.millis
    }

    /// The sum of two durations.
    pub fn add(self, other: TimeDelta) -> (r: TimeDelta)
        requires
            i64::MIN <= self.millis + other.millis <= i64::MAX,
        ensures
            r.millis == self.millis + other.millis,
    {
        TimeDelta { millis: self.millis + other.millis }
    }
}

} // verus!
