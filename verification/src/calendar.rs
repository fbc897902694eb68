//! Days of the week, times of day and calendar dates as plain values.
//!
//! A `Date` is a day number in the proleptic Gregorian calendar with
//! January 1 of year 1 as day 1, the numbering that chrono uses; chrono
//! does the date arithmetic.

use chrono::Datelike;
use chrono::Timelike;
use vstd::prelude::*;

verus! {

/// Smallest day number that chrono can represent (January 1, 262144 BCE).
pub const MIN_DAYS: i32 = -95746129i32;

/// Largest day number that chrono can represent (December 31, 262142 CE).
pub const MAX_DAYS: i32 = 95745399i32;

/// A day of the week.
#[derive(Clone, Copy, Debug, PartialEq, Eq, Structural)]
pub enum Weekday {
    Mon,
    Tue,
    Wed,
    Thu,
    Fri,
    Sat,
    Sun,
}

impl Weekday {
    /// Days since Monday: 0 for Monday up to 6 for Sunday.
    pub open spec fn index(self) -> int {
        match self {
            Weekday::Mon => 0,
            Weekday::Tue => 1,
            Weekday::Wed => 2,
            Weekday::Thu => 3,
            Weekday::Fri => 4,
            Weekday::Sat => 5,
            Weekday::Sun => 6,
        }
    }

    /// The weekday `i` days after Monday, counted modulo a week.
    pub open spec fn at(i: int) -> Weekday {
        let r = i % 7;
        if r == 0 {
            Weekday::Mon
        } else if r == 1 {
            Weekday::Tue
        } else if r == 2 {
            Weekday::Wed
        } else if r == 3 {
            Weekday::Thu
        } else if r == 4 {
            Weekday::Fri
        } else if r == 5 {
            Weekday::Sat
        } else {
            Weekday::Sun
        }
    }

    /// Days since Monday.
    pub fn num_days_from_monday(&self) -> (n: u32)
        ensures
            n == self.index(),
            n < 7,
    {
        match self {
            Weekday::Mon => 0,
            Weekday::Tue => 1,
            Weekday::Wed => 2,
            Weekday::Thu => 3,
            Weekday::Fri => 4,
            Weekday::Sat => 5,
            Weekday::Sun => 6,
        }
    }

    /// The weekday `n` days after Monday, counted modulo a week.
    pub fn from_days_from_monday(n: u32) -> (w: Weekday)
        ensures
            w == Weekday::at(n as int),
            w.index() == n % 7,
    {
        let r = n % 7;
        if r == 0 {
            Weekday::Mon
        } else if r == 1 {
            Weekday::Tue
        } else if r == 2 {
            Weekday::Wed
        } else if r == 3 {
            Weekday::Thu
        } else if r == 4 {
            Weekday::Fri
        } else if r == 5 {
            Weekday::Sat
        } else {
            Weekday::Sun
        }
    }
}

/// A time of day: seconds since midnight and a fraction of a second in
/// nanoseconds; the fraction reaches past one second only during a leap
/// second, in the last second of a minute.
#[derive(Clone, Copy, Debug, PartialEq, Eq, Structural)]
pub struct TimeOfDay {
    pub secs: u32,
    pub frac: u32,
}

impl TimeOfDay {
    pub open spec fn wf(self) -> bool {
        &&& self.secs < 86_400
        &&& self.frac < 2_000_000_000
        &&& self.frac >= 1_000_000_000 ==> self.secs % 60 == 59
    }

    /// Strictly earlier in the day: by seconds first, then by the fraction.
    pub open spec fn precedes(self, other: TimeOfDay) -> bool {
        self.secs < other.secs || (self.secs == other.secs && self.frac < other.frac)
    }

    /// Whether `self` comes strictly before `other` in the day.
    pub fn is_before(&self, other: &TimeOfDay) -> (r: bool)
        ensures
            r == self.precedes(*other),
    {
        self.secs < other.secs || (self.secs == other.secs && self.frac < other.frac)
    }

    /// The time `hour:min:sec`, or `None` where one of them is out of range.
    pub fn from_hms(hour: u32, min: u32, sec: u32) -> (r: Option<TimeOfDay>)
        ensures
            r is Some <==> (hour < 24 && min < 60 && sec < 60),
            r matches Some(t) ==> t.wf() && t.secs == hour * 3600 + min * 60 + sec && t.frac == 0,
    {
        chrono_time_from_hms(hour, min, sec)
    }
}

/// A calendar date, as its day number (January 1 of year 1 is day 1).
#[derive(Clone, Copy, Debug, PartialEq, Eq, Structural)]
pub struct Date {
    pub days: i32,
}

/// Days since Monday of the weekday of day number `days`: day 1 (January 1
/// of year 1 in the proleptic Gregorian calendar) was a Monday.
pub open spec fn weekday_index_of_day(days: int) -> int {
    (days + 6) % 7
}

impl Date {
    pub open spec fn wf(self) -> bool {
        MIN_DAYS <= self.days <= MAX_DAYS
    }

    /// The day of the week of this date.
    pub fn weekday(&self) -> (w: Weekday)
        requires
            self.wf(),
        ensures
            w.index() == weekday_index_of_day(self.days as int),
    {
        chrono_weekday_of(*self)
    }
}

/// A date and a time of day.
#[derive(Clone, Copy, Debug, PartialEq, Eq, Structural)]
pub struct DateTime {
    pub date: Date,
    pub time: TimeOfDay,
}

impl DateTime {
    pub open spec fn wf(self) -> bool {
        self.date.wf() && self.time.wf()
    }

    /// Strictly earlier: by date first, then by time of day.
    pub open spec fn precedes(self, other: DateTime) -> bool {
        self.date.days < other.date.days || (self.date.days == other.date.days
            && self.time.precedes(other.time))
    }
}

/// chrono's `NaiveTime::from_hms_opt`: `Some` exactly where the hour, minute
/// and second are in range, holding `hour * 3600 + min * 60 + sec` seconds and
/// no fraction.
#[verifier::external_body]
fn chrono_time_from_hms(hour: u32, min: u32, sec: u32) -> (r: Option<TimeOfDay>)
    ensures
        r is Some <==> (hour < 24 && min < 60 && sec < 60),
        r matches Some(t) ==> t.wf() && t.secs == hour * 3600 + min * 60 + sec && t.frac == 0,
{
    chrono::NaiveTime::from_hms_opt(hour, min, sec).map(
        |t| TimeOfDay { secs: t.num_seconds_from_midnight(), frac: t.nanosecond() },
    )
}

/// chrono's `Datelike::weekday` of the date with the given day number
/// (`NaiveDate::from_num_days_from_ce_opt`): claimed to be the weekday that
/// follows Monday, day 1, by the day number minus one, modulo a week. chrono
/// counts days in the proleptic Gregorian calendar with January 1 of year 1
/// as day 1, its tests step each date's weekday to the next one day after
/// day, and its tests give January 1, 2000 (day 730120) as a Saturday; the
/// claim is the rule those three make.
#[verifier::external_body]
fn chrono_weekday_of(d: Date) -> (w: Weekday)
    requires
        d.wf(),
    ensures
        w.index() == weekday_index_of_day(d.days as int),
{
    match chrono::NaiveDate::from_num_days_from_ce_opt(d.days).unwrap().weekday() {
        chrono::Weekday::Mon => Weekday::Mon,
        chrono::Weekday::Tue => Weekday::Tue,
        chrono::Weekday::Wed => Weekday::Wed,
        chrono::Weekday::Thu => Weekday::Thu,
        chrono::Weekday::Fri => Weekday::Fri,
        chrono::Weekday::Sat => Weekday::Sat,
        chrono::Weekday::Sun => Weekday::Sun,
    }
}

/// chrono's `NaiveDate::checked_add_signed` with `TimeDelta::days(n)`:
/// claimed to give the date `n` days later, and `None` exactly where that
/// date lies outside chrono's range.
#[verifier::external_body]
pub(crate) fn chrono_add_days(d: Date, n: i64) -> (r: Option<Date>)
    requires
        d.wf(),
        -1_000_000_000 <= n <= 1_000_000_000,
    ensures
        r is Some <==> MIN_DAYS <= d.days + n <= MAX_DAYS,
        r matches Some(x) ==> x.days == d.days + n,
{
    chrono::NaiveDate::from_num_days_from_ce_opt(d.days).unwrap().checked_add_signed(
        chrono::TimeDelta::days(n),
    ).map(|x| Date { days: x.num_days_from_ce() })
}

/// chrono's `Local::now().naive_local()`: the wall-clock date and time of the
/// machine's time zone. Only that it is a valid date and time is claimed.
#[verifier::external_body]
pub(crate) fn chrono_local_now() -> (r: DateTime)
    ensures
        r.wf(),
{
    let now = chrono::Local::now().naive_local();
    DateTime {
        date: Date { days: now.date().num_days_from_ce() },
        time: TimeOfDay { secs: now.time().num_seconds_from_midnight(), frac: now.time().nanosecond() },
    }
}

} // verus!
