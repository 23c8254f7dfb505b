//! Dates and times, from the `chrono` crate. A date is held as its day number in the
//! proleptic Gregorian calendar, with January 1 of the year 1 as day 1.

use chrono::{Datelike, NaiveDate, Utc};
use vstd::prelude::*;

verus! {

/// How dates are written.
pub const DATE_FORMAT: &'static str = "%Y-%m-%d";

/// A moment in UTC: seconds since 1970, and the nanoseconds after them.
#[derive(Debug, Clone, Copy, PartialEq, Eq, Structural)]
pub struct Timestamp {
    pub secs: i64,
    pub nanos: u32,
}

/// The day number of the date that `NaiveDate::parse_from_str` reads from a text by a
/// format; `None` where it reads none.
pub uninterp spec fn parsed_day(s: Seq<char>, format: Seq<char>) -> Option<i32>;

/// The text of the date with a day number, as `NaiveDate` displays it; `None` where the
/// number is outside the range of `NaiveDate`.
pub uninterp spec fn shown_day(day: i32) -> Option<Seq<char>>;

/// Calls `NaiveDate::parse_from_str`, and gives the day number of what it read. The result
/// depends on the text and the format alone. The day number of a date is in the range of
/// `NaiveDate`, so it can be shown again.
#[verifier::external_body]
pub(crate) fn parse_day(s: &str, format: &str) -> (r: Option<i32>)
    ensures
        r == parsed_day(s@, format@),
        r matches Some(day) ==> shown_day(day) is Some,
{
    NaiveDate::parse_from_str(s, format).ok().map(|d| d.num_days_from_ce())
}

/// Calls `NaiveDate::from_num_days_from_ce_opt`, and displays what it gives. The result
/// depends on the day number alone.
#[verifier::external_body]
pub(crate) fn show_day(day: i32) -> (r: Option<String>)
    ensures
        (r is Some) == (shown_day(day) is Some),
        r matches Some(text) ==> Some(text@) == shown_day(day),
{
    NaiveDate::from_num_days_from_ce_opt(day).map(|d| d.to_string())
}

/// Calls `Utc::now` for the current moment, in seconds and nanoseconds. Nothing is claimed
/// of the moment itself. It needs a system clock that is past 1970.
#[verifier::external_body]
pub(crate) fn now() -> Timestamp {
    let t = Utc::now();
    Timestamp { secs: t.timestamp(), nanos: t.timestamp_subsec_nanos() }
}

/// Whether a text is a date as `NaiveDate` displays it.
pub open spec fn is_date(text: Seq<char>) -> bool {
    exists|day: i32| #[trigger] shown_day(day) == Some(text)
}

/// Calls `Utc::now` for the current UTC date, written as `NaiveDate` displays it. Every
/// outcome is the text of some day; nothing is claimed of which. It needs a system clock that
/// is past 1970.
#[verifier::external_body]
pub(crate) fn today() -> (r: String)
    ensures
        is_date(r@),
{
    Utc::now().date_naive().to_string()
}

/// The day that a date is written for, by [`DATE_FORMAT`].
pub open spec fn day_of(date: Seq<char>) -> Option<i32> {
    parsed_day(date, DATE_FORMAT@)
}

/// Reads a date.
pub fn read_day(date: &str) -> (r: Option<i32>)
    ensures
        r == day_of(date@),
        r matches Some(day) ==> shown_day(day) is Some,
{
    parse_day(date, DATE_FORMAT)
}

} // verus!
