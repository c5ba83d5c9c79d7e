//! Calendar dates and the day arithmetic that resolving a relative date
//! needs. The date type holds plain year, month and day values; the two
//! operations that need real calendar knowledge — advancing a date by a
//! number of days and finding the day of the week of a date — are delegated
//! to chrono, whose proleptic Gregorian arithmetic this module relies on.

use vstd::prelude::*;

use chrono::Datelike;

use crate::week_index_spec;
use crate::Weekday;

verus! {

/// A proleptic Gregorian calendar date, timezone-less.
#[derive(Clone, Copy, Debug, PartialEq, Eq, Structural)]
pub struct CalendarDate {
    pub year: i32,
    pub month: u8,
    pub day: u8,
}

/// Gregorian leap-year rule.
pub open spec fn is_leap_year(y: int) -> bool {
    y % 4 == 0 && (y % 100 != 0 || y % 400 == 0)
}

/// Number of days in month `m` of year `y`.
pub open spec fn days_in_month(y: int, m: int) -> int
    recommends
        1 <= m <= 12,
{
    if m == 2 {
        if is_leap_year(y) {
            29
        } else {
            28
        }
    } else if m == 4 || m == 6 || m == 9 || m == 11 {
        30
    } else {
        31
    }
}

/// A calendar day that exists and that the day-arithmetic provider can
/// represent (chrono's `NaiveDate` covers years -262143 through 262142).
pub open spec fn valid_ymd(y: int, m: int, d: int) -> bool {
    &&& -262143 <= y <= 262142
    &&& 1 <= m <= 12
    &&& 1 <= d <= days_in_month(y, m)
}

impl CalendarDate {
    /// The date denotes an existing, representable calendar day.
    pub open spec fn is_valid(self) -> bool {
        valid_ymd(self.year as int, self.month as int, self.day as int)
    }

    /// Builds a date after checking that the calendar day exists.
    pub fn new(year: i32, month: u8, day: u8) -> (r: Option<CalendarDate>)
        ensures
            r is Some <==> valid_ymd(year as int, month as int, day as int),
            r matches Some(d) ==> d == (CalendarDate { year, month, day }),
    {
        if -262143 <= year && year <= 262142 && 1 <= month && month <= 12 && 1 <= day
            && day <= days_in_month_exec(year, month) {
            Some(CalendarDate { year, month, day })
        } else {
            None
        }
    }
}

fn leap_year_exec(y: i32) -> (r: bool)
    ensures
        r == is_leap_year(y as int),
{
    y % 4 == 0 && (y % 100 != 0 || y % 400 == 0)
}

fn days_in_month_exec(y: i32, m: u8) -> (r: u8)
    requires
        1 <= m <= 12,
    ensures
        r == days_in_month(y as int, m as int),
{
    if m == 2 {
        if leap_year_exec(y) {
            29
        } else {
            28
        }
    } else if m == 4 || m == 6 || m == 9 || m == 11 {
        30
    } else {
        31
    }
}

/// The date that chrono's day arithmetic yields when a valid date is
/// advanced by `n` days, or `None` past the representable range.
pub uninterp spec fn gregorian_plus_days(y: int, m: int, d: int, n: int) -> Option<(i32, u8, u8)>;

/// Day of the week that the proleptic Gregorian calendar assigns to a
/// date, as an ordinal with Monday = 0 through Sunday = 6.
pub uninterp spec fn gregorian_weekday(y: int, m: int, d: int) -> int;

/// Relies on chrono: `NaiveDate::from_ymd_opt` accepts every existing
/// calendar day in the representable year range, `checked_add_days` advances
/// it in the proleptic Gregorian calendar and returns `None` exactly when
/// the result would fall outside that range, and `Datelike::{year, month,
/// day}` read the resulting date back, with month in 1..=12 and day in
/// 1..=31. The result depends on the arguments alone.
#[verifier::external_body]
fn chrono_add_days(y: i32, m: u8, d: u8, n: u64) -> (r: Option<(i32, u8, u8)>)
    requires
        valid_ymd(y as int, m as int, d as int),
    ensures
        r == gregorian_plus_days(y as int, m as int, d as int, n as int),
        r matches Some((y2, m2, d2)) ==> valid_ymd(y2 as int, m2 as int, d2 as int),
{
    match chrono::NaiveDate::from_ymd_opt(y, m as u32, d as u32) {
        Some(date) => match date.checked_add_days(chrono::Days::new(n)) {
            Some(moved) => Some((moved.year(), moved.month() as u8, moved.day() as u8)),
            None => None,
        },
        None => None,
    }
}

/// Relies on chrono: `Datelike::weekday` on a `NaiveDate` gives the day of
/// the week of the date, one of seven values, a function of year, month and
/// day alone.
#[verifier::external_body]
fn chrono_weekday(y: i32, m: u8, d: u8) -> (r: Weekday)
    requires
        valid_ymd(y as int, m as int, d as int),
    ensures
        week_index_spec(r) == gregorian_weekday(y as int, m as int, d as int),
{
    match chrono::NaiveDate::from_ymd_opt(y, m as u32, d as u32) {
        Some(date) => match date.weekday() {
            chrono::Weekday::Mon => Weekday::Monday,
            chrono::Weekday::Tue => Weekday::Tuesday,
            chrono::Weekday::Wed => Weekday::Wednesday,
            chrono::Weekday::Thu => Weekday::Thursday,
            chrono::Weekday::Fri => Weekday::Friday,
            chrono::Weekday::Sat => Weekday::Saturday,
            chrono::Weekday::Sun => Weekday::Sunday,
        },
        // unreachable: the precondition admits only dates that chrono accepts
        None => Weekday::Monday,
    }
}

/// The valid date `n` days after `date`, or `None` past the representable
/// range.
pub open spec fn plus_days(date: CalendarDate, n: int) -> Option<CalendarDate> {
    match gregorian_plus_days(date.year as int, date.month as int, date.day as int, n) {
        Some((y, m, d)) => Some(CalendarDate { year: y, month: m, day: d }),
        None => None,
    }
}

/// Advances a date by `n` days through the day-arithmetic provider.
pub fn add_days(date: CalendarDate, n: u64) -> (r: Option<CalendarDate>)
    requires
        date.is_valid(),
    ensures
        r == plus_days(date, n as int),
        r matches Some(moved) ==> moved.is_valid(),
{
    match chrono_add_days(date.year, date.month, date.day, n) {
        Some((y, m, d)) => Some(CalendarDate { year: y, month: m, day: d }),
        None => None,
    }
}

/// Day of the week of a valid date.
pub fn weekday_of(date: CalendarDate) -> (r: Weekday)
    requires
        date.is_valid(),
    ensures
        week_index_spec(r) == gregorian_weekday(
            date.year as int,
            date.month as int,
            date.day as int,
        ),
{
    chrono_weekday(date.year, date.month, date.day)
}

} // verus!
