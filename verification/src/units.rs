//! Simulated time, durations, distances and speeds, as whole numbers of
//! fixed-size ticks.

use vstd::prelude::*;

verus! {

/// A moment of the simulated day: ticks since midnight.
#[derive(Clone, Copy, Debug, PartialEq, Eq, Structural)]
pub struct Time(pub u64);

/// A signed span of simulated time, in ticks.
#[derive(Clone, Copy, Debug, PartialEq, Eq, Structural)]
pub struct Duration(pub i64);

/// A length along a lane or of a vehicle, in ticks of distance.
#[derive(Clone, Copy, Debug, PartialEq, Eq, Structural)]
pub struct Distance(pub u64);

/// A speed, in ticks of distance per tick of time.
#[derive(Clone, Copy, Debug, PartialEq, Eq, Structural)]
pub struct Speed(pub u64);

impl Time {
    /// Midnight, when the simulated day begins.
    pub fn start_of_day() -> (t: Time)
        ensures
            t == Time(0),
    {
        Time(0)
    }

    /// Whether the span from `earlier` to `self` fits a `Duration`.
    pub open spec fn can_measure_from(self, earlier: Time) -> bool {
        i64::MIN <= self.0 - earlier.0 <= i64::MAX
    }

    /// Whether the span from `earlier` to `self` fits a `Duration`.
    pub fn measurable_from(self, earlier: Time) -> (b: bool)
        ensures
            b == self.can_measure_from(earlier),
    {
        if self.0 >= earlier.0 {
            self.0 - earlier.0 <= 0x7fff_ffff_ffff_ffffu64
        } else {
            earlier.0 - self.0 <= 0x8000_0000_0000_0000u64
        }
    }

    /// The span from `earlier` to `self`, negative when `self` comes first.
    pub open spec fn spec_since(self, earlier: Time) -> Duration {
        Duration((self.0 - earlier.0) as i64)
    }

    /// The span from `earlier` to `self`, negative when `self` comes first.
    pub fn since(self, earlier: Time) -> (d: Duration)
        requires
            self.can_measure_from(earlier),
        ensures
            d == self.spec_since(earlier),
            d.0 == self.0 - earlier.0,
    {
        if self.0 >= earlier.0 {
            let diff: u64 = self.0 - earlier.0;
            Duration(diff as i64)
        } else {
            let diff: u64 = earlier.0 - self.0;
            if diff == 0x8000_0000_0000_0000u64 {
                Duration(i64::MIN)
            } else {
                Duration(-(diff as i64))
            }
        }
    }

    /// Whether `self` moved by `d` is still a moment that `Time` can hold.
    pub open spec fn can_advance(self, d: Duration) -> bool {
        0 <= self.0 + d.0 <= u64::MAX
    }

    /// Whether `self` moved by `d` is still a moment that `Time` can hold.
    pub fn advances_by(self, d: Duration) -> (b: bool)
        ensures
            b == self.can_advance(d),
    {
        if d.0 >= 0 {
            d.0 as u64 <= u64::MAX - self.0
        } else if d.0 == i64::MIN {
            self.0 >= 0x8000_0000_0000_0000u64
        } else {
            self.0 >= (-d.0) as u64
        }
    }

    /// The moment `d` after `self`.
    pub open spec fn spec_after(self, d: Duration) -> Time {
        Time((self.0 + d.0) as u64)
    }

    /// The moment `d` after `self` (before it, for a negative `d`).
    pub fn after(self, d: Duration) -> (t: Time)
        requires
            self.can_advance(d),
        ensures
            t == self.spec_after(d),
            t.0 == self.0 + d.0,
    {
        if d.0 >= 0 {
            Time(self.0 + (d.0 as u64))
        } else if d.0 == i64::MIN {
            Time(self.0 - 0x8000_0000_0000_0000u64)
        } else {
            Time(self.0 - ((-d.0) as u64))
        }
    }

    /// Whether `self` is strictly later than `other`.
    pub fn is_after(self, other: Time) -> (b: bool)
        ensures
            b == (self.0 > other.0),
    {
        self.0 > other.0
    }
}

impl Duration {
    /// No time at all.
    pub fn zero() -> (d: Duration)
        ensures
            d == Duration(0),
    {
        Duration(0)
    }

    /// Whether the sum of the two spans fits a `Duration`.
    pub open spec fn can_add(self, other: Duration) -> bool {
        i64::MIN <= self.0 + other.0 <= i64::MAX
    }

    /// Whether the sum of the two spans fits a `Duration`.
    pub fn fits_with(self, other: Duration) -> (b: bool)
        ensures
            b == self.can_add(other),
    {
        if other.0 >= 0 {
            self.0 <= i64::MAX - other.0
        } else {
            self.0 >= i64::MIN - other.0
        }
    }

    /// The two spans together.
    pub fn plus(self, other: Duration) -> (d: Duration)
        requires
            self.can_add(other),
        ensures
            d.0 == self.0 + other.0,
    {
        Duration(self.0 + other.0)
    }
}

impl Distance {
    /// Whether the sum of the two lengths fits a `Distance`.
    pub open spec fn can_add(self, other: Distance) -> bool {
        self.0 + other.0 <= u64::MAX
    }

    /// Whether the sum of the two lengths fits a `Distance`.
    pub fn fits_with(self, other: Distance) -> (b: bool)
        ensures
            b == self.can_add(other),
    {
        self.0 <= u64::MAX - other.0
    }

    /// The two lengths together.
    pub fn plus(self, other: Distance) -> (d: Distance)
        requires
            self.can_add(other),
        ensures
            d.0 == self.0 + other.0,
    {
        Distance(self.0 + other.0)
    }
}

} // verus!
