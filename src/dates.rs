//! Calendar dates (UTC days), as the index files name them.
use vstd::prelude::*;
use chrono::{Datelike, TimeZone};

verus! {

/// A calendar day.
#[derive(Clone, Copy, Debug, PartialEq, Eq, Structural)]
pub struct CalendarDate {
    pub year: i32,
    pub month: u32,
    pub day: u32,
}

/// The date that chrono's `NaiveDate::parse_from_str(s, "%Y-%m-%d")` reads from `s`
/// as (year, month, day), or `None` where it refuses `s`.
pub uninterp spec fn parsed_date(s: Seq<char>) -> Option<(i32, u32, u32)>;

/// The UTC day, as (year, month, day), of the instant `secs` seconds after the Unix
/// epoch, or `None` where chrono's `Utc.timestamp_opt(secs, 0)` gives none.
pub uninterp spec fn utc_date_of(secs: int) -> Option<(i32, u32, u32)>;

pub open spec fn as_triple(d: Option<CalendarDate>) -> Option<(i32, u32, u32)> {
    match d {
        Some(d) => Some((d.year, d.month, d.day)),
        None => None,
    }
}

/// `a` is the same day as `b` or a later one.
pub open spec fn on_or_after(a: CalendarDate, b: CalendarDate) -> bool {
    a.year > b.year || (a.year == b.year && (a.month > b.month || (a.month == b.month && a.day >= b.day)))
}

impl CalendarDate {
    /// Whether `self` is the same day as `other` or a later one.
    pub fn is_on_or_after(&self, other: &CalendarDate) -> (r: bool)
        ensures
            r == on_or_after(*self, *other),
    {
        self.year > other.year || (self.year == other.year && (self.month > other.month || (
        self.month == other.month && self.day >= other.day)))
    }
}

/// Relies on chrono's `NaiveDate::parse_from_str` with the format `%Y-%m-%d`; the
/// year, month and day of the parsed date are read back with `Datelike`.
#[verifier::external_body]
pub(crate) fn parse_ymd(s: &str) -> (r: Option<CalendarDate>)
    ensures
        as_triple(r) == parsed_date(s@),
{
    chrono::NaiveDate::parse_from_str(s, "%Y-%m-%d").ok().map(
        |d| CalendarDate { year: d.year(), month: d.month(), day: d.day() },
    )
}

/// Relies on chrono's `Utc.timestamp_opt(secs, 0)`: the UTC instant `secs` seconds
/// after the epoch, whose date is read back with `date_naive` and `Datelike`.
#[verifier::external_body]
pub(crate) fn utc_date_from_seconds(secs: i64) -> (r: Option<CalendarDate>)
    ensures
        as_triple(r) == utc_date_of(secs as int),
{
    chrono::Utc.timestamp_opt(secs, 0).single().map(|t| t.date_naive()).map(
        |d| CalendarDate { year: d.year(), month: d.month(), day: d.day() },
    )
}

} // verus!
