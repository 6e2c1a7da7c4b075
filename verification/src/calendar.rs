//! Proleptic Gregorian calendar values in UTC, held as plain components.
use vstd::prelude::*;

use chrono::{Datelike, Timelike};

verus! {

/// Earliest year that the calendar accepts.
pub const MIN_YEAR: i32 = -262143;

/// Latest year that the calendar accepts.
pub const MAX_YEAR: i32 = 262142;

pub open spec fn is_leap_year(year: int) -> bool {
    year % 4 == 0 && (year % 100 != 0 || year % 400 == 0)
}

pub open spec fn days_in_month(year: int, month: int) -> int {
    if month == 2 {
        if is_leap_year(year) { 29 } else { 28 }
    } else if month == 4 || month == 6 || month == 9 || month == 11 {
        30
    } else {
        31
    }
}

/// A calendar day exists: the year is in range, the month is 1 to 12 and the
/// day lies within that month.
pub open spec fn is_valid_date(year: int, month: int, day: int) -> bool {
    &&& MIN_YEAR <= year <= MAX_YEAR
    &&& 1 <= month <= 12
    &&& 1 <= day <= days_in_month(year, month)
}

/// A calendar day.
#[derive(Clone, Copy, Debug, PartialEq, Eq, Structural, PartialOrd, Ord, Hash)]
pub struct CivilDate {
    pub year: i32,
    pub month: u32,
    pub day: u32,
}

impl View for CivilDate {
    type V = (int, int, int);

    open spec fn view(&self) -> (int, int, int) {
        (self.year as int, self.month as int, self.day as int)
    }
}

impl CivilDate {
    pub open spec fn wf(self) -> bool {
        is_valid_date(self.year as int, self.month as int, self.day as int)
    }

    /// Strict chronological order of two days.
    pub open spec fn is_before(self, other: CivilDate) -> bool {
        ||| self.year < other.year
        ||| self.year == other.year && self.month < other.month
        ||| self.year == other.year && self.month == other.month && self.day < other.day
    }

    /// The day with these components, if it exists.
    pub fn from_ymd(year: i32, month: u32, day: u32) -> (r: Option<CivilDate>)
        ensures
            r is Some <==> is_valid_date(year as int, month as int, day as int),
            r matches Some(d) ==> d.year == year && d.month == month && d.day == day,
    {
        if date_exists(year, month, day) {
            Some(CivilDate { year, month, day })
        } else {
            None
        }
    }

    /// Whether this day comes strictly after `other`.
    pub fn is_after(&self, other: &CivilDate) -> (r: bool)
        ensures
            r == other.is_before(*self),
    {
        other.year < self.year || (other.year == self.year && (other.month < self.month || (
        other.month == self.month && other.day < self.day)))
    }
}

/// An instant in UTC: a calendar day, the second within that day and the
/// nanosecond within that second (at or above one second for a leap second).
#[derive(Clone, Copy, Debug, PartialEq, Eq, Structural, PartialOrd, Ord, Hash)]
pub struct UtcDateTime {
    pub date: CivilDate,
    pub second_of_day: u32,
    pub nanosecond: u32,
}

impl UtcDateTime {
    /// Strict chronological order of two instants.
    pub open spec fn is_before(self, other: UtcDateTime) -> bool {
        ||| self.date.is_before(other.date)
        ||| self.date == other.date && self.second_of_day < other.second_of_day
        ||| self.date == other.date && self.second_of_day == other.second_of_day && self.nanosecond
            < other.nanosecond
    }

    pub open spec fn wf(self) -> bool {
        &&& self.date.wf()
        &&& self.second_of_day < 86400
        &&& self.nanosecond < 2_000_000_000
    }

    /// The instant at a given day, hour, minute and second.
    pub fn from_ymd_hms(year: i32, month: u32, day: u32, hour: u32, minute: u32, second: u32) -> (r:
        Option<UtcDateTime>)
        ensures
            r is Some <==> (is_valid_date(year as int, month as int, day as int) && hour < 24
                && minute < 60 && second < 60),
            r matches Some(t) ==> t.wf() && t.date@ == (year as int, month as int, day as int)
                && t.second_of_day == hour * 3600 + minute * 60 + second && t.nanosecond == 0,
    {
        if hour >= 24 || minute >= 60 || second >= 60 {
            return None;
        }
        match CivilDate::from_ymd(year, month, day) {
            Some(date) => Some(
                UtcDateTime { date, second_of_day: hour * 3600 + minute * 60 + second, nanosecond: 0 },
            ),
            None => None,
        }
    }
}

/// Whether a calendar day exists.
///
/// Calls `chrono::NaiveDate::from_ymd_opt`, which, as its documentation
/// states, gives a date exactly for an existing day of the proleptic Gregorian
/// calendar within chrono's year range.
#[verifier::external_body]
pub(crate) fn date_exists(year: i32, month: u32, day: u32) -> (r: bool)
    ensures
        r == is_valid_date(year as int, month as int, day as int),
{
    chrono::NaiveDate::from_ymd_opt(year, month, day).is_some()
}

/// The calendar day after a day.
pub open spec fn day_after(d: (int, int, int)) -> (int, int, int) {
    if d.2 < days_in_month(d.0, d.1) {
        (d.0, d.1, d.2 + 1)
    } else if d.1 < 12 {
        (d.0, d.1 + 1, 1)
    } else {
        (d.0 + 1, 1, 1)
    }
}

/// The day a given number of days after a calendar day, where every day on
/// the way lies within the calendar's range.
pub open spec fn civil_date_after_days(date: (int, int, int), days: int) -> Option<(int, int, int)>
    decreases days,
{
    if !is_valid_date(date.0, date.1, date.2) {
        None
    } else if days <= 0 {
        Some(date)
    } else {
        civil_date_after_days(day_after(date), days - 1)
    }
}

/// Strict chronological order of two days given by their parts.
pub open spec fn parts_before(a: (int, int, int), b: (int, int, int)) -> bool {
    ||| a.0 < b.0
    ||| a.0 == b.0 && a.1 < b.1
    ||| a.0 == b.0 && a.1 == b.1 && a.2 < b.2
}

/// Moving forward by at least one day reaches a later day.
pub proof fn lemma_days_move_forward(date: (int, int, int), days: int)
    requires
        days > 0,
        civil_date_after_days(date, days) is Some,
    ensures
        parts_before(date, civil_date_after_days(date, days)->Some_0),
    decreases days,
{
    let next = day_after(date);
    assert(parts_before(date, next));
    if days > 1 {
        lemma_days_move_forward(next, days - 1);
    }
}

/// Adds whole days to a calendar day.
///
/// Calls `chrono::NaiveDate::checked_add_days`, which counts days on the
/// proleptic Gregorian calendar and gives none where the day lies beyond
/// chrono's range: its result is `civil_date_after_days`. The contract claims
/// besides that a result is an existing day.
#[verifier::external_body]
pub(crate) fn checked_add_days(date: CivilDate, days: u64) -> (r: Option<CivilDate>)
    requires
        date.wf(),
    ensures
        match r {
            Some(d) => d.wf() && civil_date_after_days(date@, days as int) == Some(d@),
            None => civil_date_after_days(date@, days as int) is None,
        },
{
    let start = chrono::NaiveDate::from_ymd_opt(date.year, date.month, date.day)?;
    let next = start.checked_add_days(chrono::Days::new(days))?;
    Some(CivilDate { year: next.year(), month: next.month(), day: next.day() })
}

/// The current instant.
///
/// Calls `chrono::Utc::now`; of its result the contract claims only that it is
/// a valid instant.
#[verifier::external_body]
pub(crate) fn utc_now() -> (r: UtcDateTime)
    ensures
        r.wf(),
{
    let now = chrono::Utc::now();
    UtcDateTime {
        date: CivilDate { year: now.year(), month: now.month(), day: now.day() },
        second_of_day: now.num_seconds_from_midnight(),
        nanosecond: now.nanosecond(),
    }
}

/// The parts of an instant: its year, month, day, second of the day and nanosecond.
pub open spec fn instant_parts(t: UtcDateTime) -> (int, int, int, int, int) {
    (t.date.year as int, t.date.month as int, t.date.day as int, t.second_of_day as int, t.nanosecond as int)
}

/// The instant in UTC that an RFC 3339 text stands for, as chrono reads it,
/// by its parts.
pub uninterp spec fn parsed_instant(text: Seq<char>) -> Option<(int, int, int, int, int)>;

/// Reads an RFC 3339 text as an instant in UTC.
///
/// Calls `chrono::DateTime::parse_from_rfc3339` and takes the result to UTC.
/// Its result is named by `parsed_instant`; the contract claims besides only
/// that an instant read, being a chrono value, is a valid one.
#[verifier::external_body]
pub(crate) fn parse_instant(text: &str) -> (r: Option<UtcDateTime>)
    ensures
        match r {
            Some(t) => t.wf() && parsed_instant(text@) == Some(instant_parts(t)),
            None => parsed_instant(text@) is None,
        },
{
    let value = chrono::DateTime::parse_from_rfc3339(text).ok()?.with_timezone(&chrono::Utc);
    Some(UtcDateTime {
        date: CivilDate { year: value.year(), month: value.month(), day: value.day() },
        second_of_day: value.num_seconds_from_midnight(),
        nanosecond: value.nanosecond(),
    })
}

} // verus!
