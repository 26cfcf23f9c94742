//! Instants, lengths of time and calendar days, as plain integers.
//!
//! A [`Timestamp`] is an instant on the UTC time line together with the UTC
//! offset of the local time it was taken in. A [`Span`] is a signed length of
//! time. A [`Day`] is a calendar day, counted from 1 January 1970.

use vstd::prelude::*;

verus! {

pub const NANOS_PER_SECOND: i128 = 1_000_000_000;

pub const SECONDS_PER_HOUR: i128 = 3_600;

pub const SECONDS_PER_DAY: i128 = 86_400;

pub const SECONDS_PER_WEEK: i128 = 604_800;

/// The first second that the clock can report: midnight before
/// 1 January -262143, UTC.
pub const EARLIEST_CLOCK_SECOND: i64 = -8_334_601_228_800;

/// The last second that the clock can report: the one before midnight after
/// 31 December 262142, UTC.
pub const LATEST_CLOCK_SECOND: i64 = 8_210_266_876_799;

/// A signed length of time in nanoseconds.
#[derive(Clone, Copy, Debug, PartialEq, Eq)]
pub struct Span {
    pub nanos: i128,
}

impl View for Span {
    type V = int;

    open spec fn view(&self) -> int {
        self.nanos as int
    }
}

impl Span {
    /// A span of `seconds` seconds and `nanos` nanoseconds.
    pub fn new(seconds: i64, nanos: i32) -> (d: Span)
        ensures
            d@ == seconds * NANOS_PER_SECOND + nanos,
    {
        let wide: i128 = seconds as i128;
        Span { nanos: wide * NANOS_PER_SECOND + nanos as i128 }
    }

    /// A span of `nanos` nanoseconds.
    pub fn nanoseconds(nanos: i128) -> (d: Span)
        ensures
            d@ == nanos,
    {
        Span { nanos }
    }

    /// A span of `seconds` seconds.
    pub fn seconds(seconds: i64) -> (d: Span)
        ensures
            d@ == seconds * NANOS_PER_SECOND,
    {
        let wide: i128 = seconds as i128;
        Span { nanos: wide * NANOS_PER_SECOND }
    }

    /// A span of `hours` hours of 3600 seconds.
    pub fn hours(hours: i64) -> (d: Span)
        ensures
            d@ == hours * SECONDS_PER_HOUR * NANOS_PER_SECOND,
    {
        let wide: i128 = hours as i128;
        Span { nanos: wide * SECONDS_PER_HOUR * NANOS_PER_SECOND }
    }

    /// A span of `weeks` weeks of seven days of 86400 seconds.
    pub fn weeks(weeks: i64) -> (d: Span)
        ensures
            d@ == weeks * SECONDS_PER_WEEK * NANOS_PER_SECOND,
    {
        let wide: i128 = weeks as i128;
        Span { nanos: wide * SECONDS_PER_WEEK * NANOS_PER_SECOND }
    }
}

/// A calendar day: the number of days from 1 January 1970 to it, negative
/// for earlier days.
#[derive(Clone, Copy, Debug, PartialEq, Eq)]
pub struct Day {
    pub number: i64,
}

impl View for Day {
    type V = int;

    open spec fn view(&self) -> int {
        self.number as int
    }
}

/// What a [`Timestamp`] stands for.
pub struct TimestampView {
    /// Whole seconds since 1 January 1970 00:00:00 UTC, rounded down.
    pub secs: int,
    /// Nanoseconds since the start of that second.
    pub nanos: int,
    /// Seconds that local time is ahead of UTC.
    pub offset: int,
}

impl TimestampView {
    /// The parts are in their ranges: the seconds fit in 64 bits, the
    /// nanoseconds stay below one second and the offset below one day.
    pub open spec fn valid(self) -> bool {
        &&& i64::MIN <= self.secs <= i64::MAX
        &&& 0 <= self.nanos < NANOS_PER_SECOND
        &&& -SECONDS_PER_DAY < self.offset < SECONDS_PER_DAY
    }

    /// Nanoseconds since 1 January 1970 00:00:00 UTC.
    pub open spec fn instant(self) -> int {
        self.secs * NANOS_PER_SECOND + self.nanos
    }

    /// The number of the local calendar day that the instant falls on.
    pub open spec fn local_day(self) -> int {
        (self.secs + self.offset) / (SECONDS_PER_DAY as int)
    }

    /// The timestamp of the given instant at the given offset.
    pub open spec fn at(instant: int, offset: int) -> TimestampView {
        TimestampView {
            secs: instant / (NANOS_PER_SECOND as int),
            nanos: instant % (NANOS_PER_SECOND as int),
            offset,
        }
    }

    /// Whether the instant `by` nanoseconds later can be held.
    pub open spec fn can_shift(self, by: int) -> bool {
        i64::MIN <= (self.instant() + by) / (NANOS_PER_SECOND as int) <= i64::MAX
    }

    /// The instant `by` nanoseconds later, at the same offset.
    pub open spec fn shifted(self, by: int) -> TimestampView {
        Self::at(self.instant() + by, self.offset)
    }
}

/// The instant of a shifted timestamp is the old instant plus the shift.
pub proof fn lemma_shifted_instant(t: TimestampView, by: int)
    ensures
        t.shifted(by).instant() == t.instant() + by,
        t.shifted(by).offset == t.offset,
        0 <= t.shifted(by).nanos < NANOS_PER_SECOND,
{
}

/// An instant with the UTC offset of its local time.
#[derive(Clone, Copy, Debug, PartialEq, Eq)]
pub struct Timestamp {
    secs: i64,
    nanos: u32,
    offset: i32,
}

impl View for Timestamp {
    type V = TimestampView;

    closed spec fn view(&self) -> TimestampView {
        TimestampView { secs: self.secs as int, nanos: self.nanos as int, offset: self.offset as int }
    }
}

/// Reads the system clock in local time.
///
/// Calls `chrono::Local::now` and takes the result apart with
/// `DateTime::timestamp`, `DateTime::timestamp_subsec_nanos` and
/// `FixedOffset::local_minus_utc`. The contract claims what holds of every
/// reading: the seconds lie in the range of instants that a `DateTime` can
/// hold, the clock reports no leap second, and an offset stays below one
/// day. The outside function panics where the clock or the time zone data of
/// the machine give it nothing it can use.
#[verifier::external_body]
fn clock_reading() -> (r: (i64, u32, i32))
    ensures
        EARLIEST_CLOCK_SECOND <= r.0 <= LATEST_CLOCK_SECOND,
        r.1 < NANOS_PER_SECOND,
        -SECONDS_PER_DAY < r.2 < SECONDS_PER_DAY,
{
    let now = chrono::Local::now();
    (now.timestamp(), now.timestamp_subsec_nanos(), now.offset().local_minus_utc())
}

impl Timestamp {
    #[verifier::type_invariant]
    pub open spec fn inv(self) -> bool {
        self@.valid()
    }

    /// The timestamp `secs` seconds and `nanos` nanoseconds after
    /// 1 January 1970 00:00:00 UTC, in local time `offset` seconds ahead of
    /// UTC; `None` where `nanos` reaches a second or `offset` a day.
    pub fn new(secs: i64, nanos: u32, offset: i32) -> (r: Option<Timestamp>)
        ensures
            r is Some <==> nanos < NANOS_PER_SECOND && -SECONDS_PER_DAY < offset < SECONDS_PER_DAY,
            r matches Some(t) ==> t@ == (TimestampView {
                secs: secs as int,
                nanos: nanos as int,
                offset: offset as int,
            }),
    {
        if nanos < 1_000_000_000 && -86_400 < offset && offset < 86_400 {
            Some(Timestamp { secs, nanos, offset })
        } else {
            None
        }
    }

    /// The current instant, at the offset that local time has now.
    pub fn now() -> (t: Timestamp)
        ensures
            EARLIEST_CLOCK_SECOND <= t@.secs <= LATEST_CLOCK_SECOND,
    {
        let (secs, nanos, offset) = clock_reading();
        Timestamp { secs, nanos, offset }
    }

    /// Whole seconds since 1 January 1970 00:00:00 UTC, rounded down.
    pub fn unix_seconds(&self) -> (secs: i64)
        ensures
            secs == self@.secs,
    {
        self.secs
    }

    /// Nanoseconds since the start of the second.
    pub fn subsec_nanos(&self) -> (nanos: u32)
        ensures
            nanos == self@.nanos,
    {
        self.nanos
    }

    /// Seconds that local time is ahead of UTC.
    pub fn utc_offset(&self) -> (offset: i32)
        ensures
            offset == self@.offset,
    {
        self.offset
    }

    /// The local calendar day that the instant falls on.
    pub fn day(&self) -> (d: Day)
        ensures
            d@ == self@.local_day(),
    {
        proof {
            use_type_invariant(self);
        }
        let local: i128 = self.secs as i128 + self.offset as i128;
        match local.checked_div_euclid(SECONDS_PER_DAY) {
            Some(number) => Day { number: number as i64 },
            None => vstd::pervasive::unreached(),
        }
    }

    /// The instant `d` later, at the same offset; `None` where its seconds
    /// would not fit in 64 bits.
    pub fn checked_add(&self, d: Span) -> (r: Option<Timestamp>)
        ensures
            r is Some <==> self@.can_shift(d@),
            r matches Some(t) ==> t@ == self@.shifted(d@),
    {
        proof {
            use_type_invariant(self);
        }
        let start: i128 = self.secs as i128 * NANOS_PER_SECOND + self.nanos as i128;
        match start.checked_add(d.nanos) {
            None => None,
            Some(instant) => {
                let secs = instant.checked_div_euclid(NANOS_PER_SECOND);
                let nanos = instant.checked_rem_euclid(NANOS_PER_SECOND);
                match (secs, nanos) {
                    (Some(secs), Some(nanos)) => {
                        if secs < i64::MIN as i128 || secs > i64::MAX as i128 {
                            None
                        } else {
                            Some(Timestamp { secs: secs as i64, nanos: nanos as u32, offset: self.offset })
                        }
                    },
                    _ => vstd::pervasive::unreached(),
                }
            },
        }
    }

    /// The instant `d` later, at the same offset.
    pub fn plus(&self, d: Span) -> (t: Timestamp)
        requires
            self@.can_shift(d@),
        ensures
            t@ == self@.shifted(d@),
    {
        match self.checked_add(d) {
            Some(t) => t,
            None => vstd::pervasive::unreached(),
        }
    }

    /// The time from `earlier` to this instant, negative where this one
    /// comes first.
    pub fn since(&self, earlier: &Timestamp) -> (d: Span)
        ensures
            d@ == self@.instant() - earlier@.instant(),
    {
        proof {
            use_type_invariant(self);
            use_type_invariant(earlier);
        }
        let to: i128 = self.secs as i128 * NANOS_PER_SECOND + self.nanos as i128;
        let from: i128 = earlier.secs as i128 * NANOS_PER_SECOND + earlier.nanos as i128;
        Span { nanos: to - from }
    }
}

} // verus!
