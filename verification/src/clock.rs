//! Wall-clock values as plain numbers: a time of day, a date as a day
//! count, and a local date-time with the offset of its zone.

use vstd::prelude::*;

verus! {

/// Seconds in a day.
pub const SECS_PER_DAY: u32 = 86400;

/// A time of day: whole seconds since midnight and the fraction in
/// nanoseconds (up to two seconds' worth during a leap second).
#[derive(PartialEq, Eq, Structural, Clone, Copy, Debug)]
pub struct LocalTime {
    pub secs: u32,
    pub nanos: u32,
}

impl LocalTime {
    /// A time of day that a clock can show.
    pub open spec fn wf(self) -> bool {
        self.secs < SECS_PER_DAY && self.nanos < 2_000_000_000
    }

    /// `self` is the same time as `other` or later on the same day.
    pub open spec fn spec_at_or_after(self, other: LocalTime) -> bool {
        self.secs > other.secs || (self.secs == other.secs && self.nanos >= other.nanos)
    }

    /// Whether `self` is the same time as `other` or later on the same day.
    pub fn at_or_after(&self, other: &LocalTime) -> (b: bool)
        ensures
            b == self.spec_at_or_after(*other),
    {
        self.secs > other.secs || (self.secs == other.secs && self.nanos >= other.nanos)
    }
}

/// Times of day are ordered by seconds, then nanoseconds: every time is at
/// or after itself, of two times one is at or after the other, and two
/// times each at or after the other are the same.
pub proof fn lemma_time_of_day_order(a: LocalTime, b: LocalTime)
    ensures
        a.spec_at_or_after(a),
        a.spec_at_or_after(b) || b.spec_at_or_after(a),
        a.spec_at_or_after(b) && b.spec_at_or_after(a) ==> a == b,
        a.secs > b.secs ==> a.spec_at_or_after(b) && !b.spec_at_or_after(a),
        a.secs == b.secs && a.nanos > b.nanos ==> a.spec_at_or_after(b) && !b.spec_at_or_after(a),
{
}

/// A wall-clock date and time without a zone: the date as days since
/// 0001-01-01 (day 1), and the time of day.
#[derive(PartialEq, Eq, Structural, Clone, Copy, Debug)]
pub struct LocalDateTime {
    pub day: i32,
    pub time: LocalTime,
}

impl LocalDateTime {
    pub open spec fn wf(self) -> bool {
        self.time.wf()
    }

    /// `self` is strictly later than `other` (ordered by date, then time of
    /// day, as `chrono` orders them).
    pub open spec fn spec_is_after(self, other: LocalDateTime) -> bool {
        self.day > other.day || (self.day == other.day && !other.time.spec_at_or_after(self.time))
    }

    /// Nanoseconds since the start of day 0, counting each day as
    /// `SECS_PER_DAY` seconds.
    pub open spec fn nanos_since_epoch(self) -> int {
        (self.day as int * SECS_PER_DAY as int + self.time.secs as int) * 1_000_000_000
            + self.time.nanos as int
    }
}

/// A local date-time in a zone, with the zone's offset from UTC at that
/// instant (local minus UTC, in seconds).
#[derive(PartialEq, Eq, Structural, Clone, Copy, Debug)]
pub struct ZonedTime {
    pub local: LocalDateTime,
    pub offset_secs: i32,
}

impl ZonedTime {
    /// The UTC instant, in nanoseconds since the start of day 0.
    pub open spec fn utc_nanos(self) -> int {
        self.local.nanos_since_epoch() - self.offset_secs as int * 1_000_000_000
    }
}

} // verus!
