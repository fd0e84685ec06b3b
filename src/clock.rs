//! Calendar and clock readings, done by `chrono` and `chrono-tz`. Instants
//! are seconds since the Unix epoch; a local reading is held the same way,
//! as if it were UTC.

use vstd::prelude::*;
use chrono::Datelike;
use chrono::TimeZone;

verus! {

/// What `NaiveDateTime::parse_from_str(s, fmt)` reads, in seconds.
pub uninterp spec fn naive_seconds_of(s: Seq<char>, fmt: Seq<char>) -> Option<i64>;

/// What `DateTime::parse_from_rfc3339(s)` reads, as a UTC instant.
pub uninterp spec fn rfc3339_seconds_of(s: Seq<char>) -> Option<i64>;

/// What `NaiveDate::parse_from_str(s, fmt)` reads: year, month, day.
pub uninterp spec fn calendar_date_of(s: Seq<char>, fmt: Seq<char>) -> Option<(i32, u32, u32)>;

/// The UTC instant of a US-Central wall-clock reading, when the reading is
/// neither skipped nor repeated by a daylight-saving change.
pub uninterp spec fn chicago_utc_of(local: i64) -> Option<i64>;

/// Relies on `chrono::NaiveDateTime::parse_from_str`: the date and time that
/// `s` spells in format `fmt`, taken as UTC.
#[verifier::external_body]
pub(crate) fn parse_naive_seconds(s: &str, fmt: &str) -> (r: Option<i64>)
    ensures
        r == naive_seconds_of(s@, fmt@),
{
    chrono::NaiveDateTime::parse_from_str(s, fmt).ok().map(|n| n.and_utc().timestamp())
}

/// Relies on `chrono::DateTime::parse_from_rfc3339`: the instant that `s`
/// spells, offset applied.
#[verifier::external_body]
pub(crate) fn parse_rfc3339_seconds(s: &str) -> (r: Option<i64>)
    ensures
        r == rfc3339_seconds_of(s@),
{
    chrono::DateTime::parse_from_rfc3339(s).ok().map(|d| d.timestamp())
}

/// Relies on `chrono::NaiveDate::parse_from_str`: the calendar date that `s`
/// spells in format `fmt`; a date of chrono always has a month in 1..=12
/// and a day in 1..=31.
#[verifier::external_body]
pub(crate) fn parse_calendar_date(s: &str, fmt: &str) -> (r: Option<(i32, u32, u32)>)
    ensures
        r == calendar_date_of(s@, fmt@),
        r matches Some((y, m, d)) ==> 1 <= m <= 12 && 1 <= d <= 31,
{
    chrono::NaiveDate::parse_from_str(s, fmt).ok().map(|d| (d.year(), d.month(), d.day()))
}

/// Relies on `chrono_tz::America::Chicago` through `TimeZone::from_local_datetime`
/// and `LocalResult::single`: the instant of a Central wall-clock reading,
/// none when the reading is ambiguous or does not exist.
#[verifier::external_body]
pub(crate) fn chicago_to_utc(local: i64) -> (r: Option<i64>)
    ensures
        r == chicago_utc_of(local),
{
    let naive = chrono::DateTime::from_timestamp(local, 0)?.naive_utc();
    chrono_tz::America::Chicago.from_local_datetime(&naive).single().map(|d| d.timestamp())
}

} // verus!
