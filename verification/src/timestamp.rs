//! Naive local date-times as plain numbers, and the calendar work that is
//! left to `chrono`.

use chrono::{Datelike, Duration, Local, NaiveDate, NaiveDateTime, NaiveTime, Timelike};
use vstd::prelude::*;

verus! {

/// Day number of the earliest date `chrono` represents (January 1 of the
/// year -262143), counted so that January 1 of the year 1 is day 1.
pub const MIN_DAYS: i32 = -95_746_129;

/// Day number of the latest date `chrono` represents (December 31 of the
/// year 262142).
pub const MAX_DAYS: i32 = 95_745_399;

/// Day number of January 1, 1970.
pub const EPOCH_DAYS: i32 = 719_163;

/// Seconds in a day.
pub const SECS_PER_DAY: u32 = 86_400;

/// Nanoseconds in a second.
pub const NANOS_PER_SEC: u32 = 1_000_000_000;

/// A naive date-time as three integers: the day number, the second of the
/// day, and the nanosecond within that second. A nanosecond count of one
/// billion or more stands for a leap second, as in `chrono`.
pub struct Moment {
    pub days: int,
    pub secs: int,
    pub frac: int,
}

impl Moment {
    /// The moments that `chrono` can represent.
    pub open spec fn is_valid(self) -> bool {
        &&& MIN_DAYS <= self.days <= MAX_DAYS
        &&& 0 <= self.secs < SECS_PER_DAY
        &&& 0 <= self.frac < 2 * NANOS_PER_SEC
        &&& (self.frac >= NANOS_PER_SEC ==> self.secs % 60 == 59)
    }

    /// One integer that orders valid moments as the calendar does: by day,
    /// then by second, then by nanosecond.
    pub open spec fn key(self) -> int {
        (self.days * SECS_PER_DAY + self.secs) * (2 * NANOS_PER_SEC) + self.frac
    }

    /// The later of two moments; `self` where they are equal.
    pub open spec fn later_of(self, other: Moment) -> Moment {
        if self.key() < other.key() {
            other
        } else {
            self
        }
    }

    /// The earlier of two moments; `self` where they are equal.
    pub open spec fn earlier_of(self, other: Moment) -> Moment {
        if self.key() > other.key() {
            other
        } else {
            self
        }
    }
}

/// The key of valid moments orders them by day, then second, then
/// nanosecond.
pub proof fn lemma_key_is_lexicographic(a: Moment, b: Moment)
    requires
        a.is_valid(),
        b.is_valid(),
    ensures
        a.key() <= b.key() <==> (a.days < b.days || (a.days == b.days && (a.secs < b.secs || (
        a.secs == b.secs && a.frac <= b.frac)))),
        a.key() == b.key() <==> a == b,
{
    let day_a: int = a.days * 86_400 + a.secs;
    let day_b: int = b.days * 86_400 + b.secs;
    assert(a.key() == day_a * 2_000_000_000 + a.frac);
    assert(b.key() == day_b * 2_000_000_000 + b.frac);
}

/// The second that `chrono` counts for a leap second lying between two
/// times of day: one more where the later time of day follows a leap
/// second, one less where the earlier time of day is itself a leap second.
pub open spec fn leap_adjust(end: Moment, start: Moment) -> int {
    if end.secs > start.secs && start.frac >= NANOS_PER_SEC {
        1
    } else if end.secs < start.secs && end.frac >= NANOS_PER_SEC {
        -1
    } else {
        0
    }
}

/// The signed distance from `start` to `end` in nanoseconds.
pub open spec fn nanos_between(end: Moment, start: Moment) -> int {
    ((end.days - start.days) * SECS_PER_DAY + (end.secs - start.secs) + leap_adjust(end, start))
        * NANOS_PER_SEC + (end.frac - start.frac)
}

/// A count of nanoseconds as whole seconds, rounded toward zero.
pub open spec fn whole_seconds(nanos: int) -> int {
    if nanos >= 0 {
        nanos / (NANOS_PER_SEC as int)
    } else {
        -((-nanos) / (NANOS_PER_SEC as int))
    }
}

/// The signed distance from `start` to `end` in whole seconds.
pub open spec fn seconds_between(end: Moment, start: Moment) -> int {
    whole_seconds(nanos_between(end, start))
}

/// The moment two weeks before `now`. A leap second first moves on to the
/// second that follows it.
pub open spec fn two_weeks_before(now: Moment) -> Moment {
    if now.frac < NANOS_PER_SEC {
        Moment { days: now.days - 14, secs: now.secs, frac: now.frac }
    } else if now.secs + 1 < SECS_PER_DAY {
        Moment { days: now.days - 14, secs: now.secs + 1, frac: now.frac - NANOS_PER_SEC }
    } else {
        Moment { days: now.days - 13, secs: 0, frac: now.frac - NANOS_PER_SEC }
    }
}

/// A naive local date-time held as plain numbers. Every value is one that
/// `chrono` can represent.
#[derive(Debug, Clone, Copy, PartialEq, Eq)]
pub struct Timestamp {
    days: i32,
    secs: u32,
    frac: u32,
}

impl View for Timestamp {
    type V = Moment;

    closed spec fn view(&self) -> Moment {
        Moment { days: self.days as int, secs: self.secs as int, frac: self.frac as int }
    }
}

impl Timestamp {
    /// Every timestamp is a valid moment.
    #[verifier::type_invariant]
    pub open spec fn well_formed(self) -> bool {
        self@.is_valid()
    }

    /// The timestamp with the given day number, second of the day and
    /// nanosecond, where these make a valid moment.
    pub fn new(days: i32, secs: u32, frac: u32) -> (made: Option<Timestamp>)
        ensures
            made is Some <==> (Moment {
                days: days as int,
                secs: secs as int,
                frac: frac as int,
            }).is_valid(),
            made matches Some(t) ==> t@ == (Moment {
                days: days as int,
                secs: secs as int,
                frac: frac as int,
            }),
    {
        if MIN_DAYS <= days && days <= MAX_DAYS && secs < SECS_PER_DAY && frac < 2 * NANOS_PER_SEC
            && (frac < NANOS_PER_SEC || secs % 60 == 59) {
            Some(Timestamp { days, secs, frac })
        } else {
            None
        }
    }

    /// The first instant of the day with the given number.
    pub fn start_of_day(days: i32) -> (at: Timestamp)
        requires
            MIN_DAYS <= days <= MAX_DAYS,
        ensures
            at@ == (Moment { days: days as int, secs: 0, frac: 0 }),
    {
        Timestamp { days, secs: 0, frac: 0 }
    }

    /// The last whole second of the day with the given number.
    pub fn end_of_day(days: i32) -> (at: Timestamp)
        requires
            MIN_DAYS <= days <= MAX_DAYS,
        ensures
            at@ == (Moment { days: days as int, secs: SECS_PER_DAY - 1, frac: 0 }),
    {
        Timestamp { days, secs: SECS_PER_DAY - 1, frac: 0 }
    }

    /// The day number.
    pub fn days(&self) -> (d: i32)
        ensures
            d == self@.days,
    {
        self.days
    }

    /// The second of the day.
    pub fn secs(&self) -> (s: u32)
        ensures
            s == self@.secs,
    {
        self.secs
    }

    /// The nanosecond within the second.
    pub fn frac(&self) -> (f: u32)
        ensures
            f == self@.frac,
    {
        self.frac
    }

    /// Whether `self` is at or before `other`.
    pub fn at_or_before(&self, other: &Timestamp) -> (holds: bool)
        ensures
            holds == (self@.key() <= other@.key()),
    {
        proof {
            use_type_invariant(self);
            use_type_invariant(other);
            lemma_key_is_lexicographic(self@, other@);
        }
        if self.days != other.days {
            self.days < other.days
        } else if self.secs != other.secs {
            self.secs < other.secs
        } else {
            self.frac <= other.frac
        }
    }

    /// The later of `self` and `other`; `self` where they are equal.
    pub fn later_of(self, other: Timestamp) -> (pick: Timestamp)
        ensures
            pick@ == self@.later_of(other@),
    {
        if other.at_or_before(&self) {
            self
        } else {
            other
        }
    }

    /// The earlier of `self` and `other`; `self` where they are equal.
    pub fn earlier_of(self, other: Timestamp) -> (pick: Timestamp)
        ensures
            pick@ == self@.earlier_of(other@),
    {
        if self.at_or_before(&other) {
            self
        } else {
            other
        }
    }
}

/// What `chrono` reads from the time text of a clock entry, where it can
/// read one.
pub uninterp spec fn parsed_timestamp(text: Seq<char>) -> Option<Moment>;

/// What `chrono` reads from a `yyyy-mm-dd` date text, where it can read
/// one: the day number.
pub uninterp spec fn parsed_date(text: Seq<char>) -> Option<int>;

/// Calls `chrono::NaiveDateTime::parse_from_str` with the pattern of the
/// stored time texts (date, `T`, time, optional fraction, offset with a
/// colon) and hands back the parts of the date-time read; the offset is
/// read and dropped. The contract names the result and claims that the
/// same text always reads the same.
#[verifier::external_body]
pub(crate) fn parse_timestamp(text: &str) -> (read: Option<Timestamp>)
    ensures
        match read {
            Some(t) => parsed_timestamp(text@) == Some(t@),
            None => parsed_timestamp(text@) is None,
        },
{
    match NaiveDateTime::parse_from_str(text, "%Y-%m-%dT%H:%M:%S%.f%:z") {
        Ok(at) => Some(
            Timestamp {
                days: at.num_days_from_ce(),
                secs: at.num_seconds_from_midnight(),
                frac: at.nanosecond(),
            },
        ),
        Err(_) => None,
    }
}

/// Calls `chrono::NaiveDate::parse_from_str` with the pattern `%Y-%m-%d`
/// and hands back the day number of the date read. The contract names the
/// result, claims that the same text always reads the same, and that the
/// day number is one of a date that `chrono` represents.
#[verifier::external_body]
pub(crate) fn parse_date(text: &str) -> (read: Option<i32>)
    ensures
        match read {
            Some(d) => parsed_date(text@) == Some(d as int) && MIN_DAYS <= d <= MAX_DAYS,
            None => parsed_date(text@) is None,
        },
{
    match NaiveDate::parse_from_str(text, "%Y-%m-%d") {
        Ok(date) => Some(date.num_days_from_ce()),
        Err(_) => None,
    }
}

/// Subtracts two `chrono::NaiveDateTime` values made of the given parts and
/// takes `num_seconds` of the difference. The contract claims what the
/// source of that subtraction computes: the days apart, the seconds of day
/// apart and the nanoseconds apart, with one second more or less where a
/// leap second lies between the two times of day, rounded toward zero.
#[verifier::external_body]
pub(crate) fn chrono_seconds_between(end: &Timestamp, start: &Timestamp) -> (secs: i64)
    ensures
        secs == seconds_between(end@, start@),
{
    let end_date = NaiveDate::from_num_days_from_ce_opt(end.days).unwrap();
    let end_time = NaiveTime::from_num_seconds_from_midnight_opt(end.secs, end.frac).unwrap();
    let start_date = NaiveDate::from_num_days_from_ce_opt(start.days).unwrap();
    let start_time = NaiveTime::from_num_seconds_from_midnight_opt(start.secs, start.frac).unwrap();
    (end_date.and_time(end_time) - start_date.and_time(start_time)).num_seconds()
}

/// Subtracts `chrono::Duration::weeks(2)` from the `chrono::NaiveDateTime`
/// made of the given parts. The contract claims what the source of that
/// subtraction computes: the same time of day fourteen days earlier, where
/// a leap second is first moved on to the second after it. `chrono` panics
/// where the result would lie before its earliest date, which the
/// precondition leaves out.
#[verifier::external_body]
pub(crate) fn chrono_two_weeks_before(now: &Timestamp) -> (then: Timestamp)
    requires
        now@.days - 14 >= MIN_DAYS,
    ensures
        then@ == two_weeks_before(now@),
{
    let date = NaiveDate::from_num_days_from_ce_opt(now.days).unwrap();
    let time = NaiveTime::from_num_seconds_from_midnight_opt(now.secs, now.frac).unwrap();
    let then = date.and_time(time) - Duration::weeks(2);
    Timestamp {
        days: then.num_days_from_ce(),
        secs: then.num_seconds_from_midnight(),
        frac: then.nanosecond(),
    }
}

/// Calls `chrono::Local::now` and takes `naive_local` of it: the wall-clock
/// date and time of this machine. Nothing is claimed of the value but that
/// its day is not before the last day of 1969: `chrono` reads the system
/// clock as a time since January 1, 1970 (and panics on a clock set before
/// that), and a local offset is less than a day.
#[verifier::external_body]
pub(crate) fn local_now() -> (now: Timestamp)
    ensures
        now@.days >= EPOCH_DAYS - 1,
{
    let at = Local::now().naive_local();
    Timestamp {
        days: at.num_days_from_ce(),
        secs: at.num_seconds_from_midnight(),
        frac: at.nanosecond(),
    }
}

/// Calls `chrono::Local::now` and writes it with `to_rfc3339`: the local
/// date and time with its offset, as text. Nothing is claimed of the text
/// but that it is not empty.
#[verifier::external_body]
pub(crate) fn local_now_rfc3339() -> (text: String)
    ensures
        text@.len() > 0,
{
    Local::now().to_rfc3339()
}

} // verus!
