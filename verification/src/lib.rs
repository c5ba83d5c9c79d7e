pub mod calendar;
mod parsed;
pub mod parser;

pub use parsed::Parsed;

use vstd::prelude::*;
use vstd::string::StringSliceAdditionalSpecFns;

verus! {

/// A relative date recognized somewhere in free text.
#[derive(Clone, Debug, PartialEq, Eq, Structural)]
pub enum FlexibleDate {
    Today,
    Tomorrow,
    Weekday(Weekday),
}

/// The seven weekdays, ordered Monday through Sunday.
#[derive(Clone, Debug, PartialEq, Eq, Structural)]
pub enum Weekday {
    Monday,
    Tuesday,
    Wednesday,
    Thursday,
    Friday,
    Saturday,
    Sunday,
}

/// Ordinal of a weekday, Monday = 0 through Sunday = 6; used only for
/// distance computation, never part of the external contract.
pub open spec fn week_index_spec(w: Weekday) -> int {
    match w {
        Weekday::Monday => 0,
        Weekday::Tuesday => 1,
        Weekday::Wednesday => 2,
        Weekday::Thursday => 3,
        Weekday::Friday => 4,
        Weekday::Saturday => 5,
        Weekday::Sunday => 6,
    }
}

/// Cyclic, non-negative number of days from weekday `a` to weekday `b`.
pub open spec fn spec_days_until(a: Weekday, b: Weekday) -> int {
    (week_index_spec(b) - week_index_spec(a)) % 7
}

impl Weekday {
    fn week_index(&self) -> (r: u64)
        ensures
            r == week_index_spec(*self),
    {
        match self {
            Weekday::Monday => 0,
            Weekday::Tuesday => 1,
            Weekday::Wednesday => 2,
            Weekday::Thursday => 3,
            Weekday::Friday => 4,
            Weekday::Saturday => 5,
            Weekday::Sunday => 6,
        }
    }

    /// Days to advance from `self` to reach `day`, cyclically; 0 when the
    /// two weekdays are equal, never more than 6.
    pub fn days_until(&self, day: &Self) -> (r: u64)
        ensures
            r == spec_days_until(*self, *day),
            0 <= r <= 6,
            *self == *day ==> r == 0,
    {
        let day_index = day.week_index();
        let self_index = self.week_index();
        if day_index >= self_index {
            day_index - self_index
        } else {
            7 + day_index - self_index
        }
    }
}

/// Days to advance from the reference date to the date that `fd` denotes:
/// 0 for today, 1 for tomorrow, and for a weekday the cyclic distance from
/// the reference date's day of the week.
pub open spec fn resolve_offset(fd: FlexibleDate, today: calendar::CalendarDate) -> int {
    match fd {
        FlexibleDate::Today => 0,
        FlexibleDate::Tomorrow => 1,
        FlexibleDate::Weekday(w) => (week_index_spec(w) - calendar::gregorian_weekday(
            today.year as int,
            today.month as int,
            today.day as int,
        )) % 7,
    }
}

/// The calendar date that `fd` denotes relative to `today`: `today` itself
/// when the offset is 0, otherwise `today` advanced by the offset through
/// the day-arithmetic provider; `None` only past the representable range.
pub open spec fn resolved_date(fd: FlexibleDate, today: calendar::CalendarDate) -> Option<
    calendar::CalendarDate,
> {
    let k = resolve_offset(fd, today);
    if k == 0 {
        Some(today)
    } else {
        calendar::plus_days(today, k)
    }
}

impl FlexibleDate {
    /// Parses a `FlexibleDate` from a string. Succeeds only when the whole
    /// string — ignoring case and surrounding whitespace — is exactly one
    /// recognized phrase; fails (returns `None`) on any other text.
    pub fn parse_from_str(text: &str) -> (r: Option<FlexibleDate>)
        ensures
            r == parser::parse_exact_spec(text.spec_bytes()),
    {
        parser::parse_exact_str(text)
    }

    /// Finds and parses a `FlexibleDate` from within a string. The returned
    /// `Parsed` value holds the date that was recognized as well as the
    /// byte-offset range of the matching substring in the input: a
    /// non-empty, in-bounds range at whose start the recognized phrase
    /// stands as a whole token of the lowercased input.
    pub fn find_and_parse_in_str(text: &str) -> (r: Option<Parsed<FlexibleDate>>)
        ensures
            match parser::scan_from(parser::lower_bytes(text.spec_bytes()), 0) {
                Some((a, b, d)) => r matches Some(p) && p.data == d && p.range.start == a
                    && p.range.end == b,
                None => r is None,
            },
            r matches Some(p) ==> p.range.start < p.range.end <= text.spec_bytes().len()
                && parser::match_token_at(
                parser::lower_bytes(text.spec_bytes()),
                p.range.start as int,
            ) == Some((((p.range.end - p.range.start) as usize), p.data)),
    {
        parser::parse_flex_date(text)
    }

    /// Converts the relative date into a concrete calendar date, given the
    /// date of "today"; `None` when day arithmetic would leave the
    /// representable range.
    pub fn try_into_naive_date(self, today: calendar::CalendarDate) -> (r: Option<
        calendar::CalendarDate,
    >)
        requires
            today.is_valid(),
        ensures
            r == resolved_date(self, today),
            r matches Some(d) ==> d.is_valid(),
    {
        match self {
            FlexibleDate::Today => Some(today),
            FlexibleDate::Tomorrow => calendar::add_days(today, 1),
            FlexibleDate::Weekday(day) => {
                let weekday = calendar::weekday_of(today);
                let dist = weekday.days_until(&day);
                if dist == 0 {
                    Some(today)
                } else {
                    calendar::add_days(today, dist)
                }
            },
        }
    }

    /// Converts the relative date into a concrete calendar date, given the
    /// date of "today". Day-arithmetic overflow past the representable
    /// range is a caller error, ruled out by the precondition; callers that
    /// cannot rule it out use `try_into_naive_date`.
    pub fn into_naive_date(self, today: calendar::CalendarDate) -> (r: calendar::CalendarDate)
        requires
            today.is_valid(),
            resolved_date(self, today) is Some,
        ensures
            Some(r) == resolved_date(self, today),
            r.is_valid(),
    {
        match self.try_into_naive_date(today) {
            Some(date) => date,
            None => vstd::pervasive::unreached(),
        }
    }
}

} // verus!
