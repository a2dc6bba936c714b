//! Calls into chrono for UTC instants.
//!
//! An instant is held as the number of nanoseconds since the Unix epoch in an
//! `i64`, the range that chrono's `timestamp_nanos_opt` covers. Calendar
//! arithmetic (month and year starts, adding months) and strftime formatting
//! stay with chrono.

use crate::timestamps::is_period_format;
use chrono::{DateTime, Datelike, DurationRound, Months, TimeDelta, TimeZone, Utc};
use vstd::prelude::*;

verus! {

/// The UTC calendar year of `at`, as chrono's `Datelike::year` gives it.
pub uninterp spec fn utc_year_of(at: i64) -> i32;

/// The UTC calendar month (1 to 12) of `at`, as chrono's `Datelike::month`
/// gives it.
pub uninterp spec fn utc_month_of(at: i64) -> u32;

/// The first instant of the given UTC month, as chrono's
/// `Utc.with_ymd_and_hms(year, month, 1, 0, 0, 0).latest()` gives it, in
/// nanoseconds (`None` when chrono gives none or it does not fit an `i64`).
pub uninterp spec fn utc_month_start(year: i32, month: u32) -> Option<i64>;

/// `at` moved forward by `months` calendar months, as chrono's
/// `DateTime::checked_add_months` gives it.
pub uninterp spec fn utc_add_months(at: i64, months: u32) -> Option<i64>;

/// The text that chrono's `DateTime::<Utc>::format(fmt)` writes for `at`.
pub uninterp spec fn utc_strftime(at: i64, fmt: Seq<char>) -> Seq<char>;

/// `at` rounded down to a multiple of `span` nanoseconds since the epoch.
pub open spec fn floor_to_span(at: i64, span: i64) -> Option<i64> {
    let f = at - at % span;
    if f >= i64::MIN {
        Some(f as i64)
    } else {
        None
    }
}

/// chrono's `DurationRound::duration_trunc` on a UTC instant. For a positive
/// span its source takes the timestamp in nanoseconds, subtracts its
/// Euclidean remainder by the span and returns that instant; the result is
/// then read back in nanoseconds, which fails only below the `i64` range.
#[verifier::external_body]
pub(crate) fn utc_trunc(at: i64, span: i64) -> (r: Option<i64>)
    requires
        span > 0,
    ensures
        r == floor_to_span(at, span),
{
    match DateTime::from_timestamp_nanos(at).duration_trunc(TimeDelta::nanoseconds(span)) {
        Ok(d) => d.timestamp_nanos_opt(),
        Err(_) => None,
    }
}

/// chrono's `Datelike::year` of a UTC instant. Besides naming the result,
/// the contract claims one calendar fact: midnight on the first of January of
/// that year, where chrono can give it in nanoseconds, is not after `at`.
#[verifier::external_body]
pub(crate) fn year_of(at: i64) -> (r: i32)
    ensures
        r == utc_year_of(at),
        utc_month_start(r, 1) matches Some(s) ==> s <= at,
{
    DateTime::from_timestamp_nanos(at).year()
}

/// chrono's `Datelike::month` of a UTC instant, which its documentation
/// gives as a month number from 1 to 12. The contract also claims that
/// midnight on the first of that month of `at`'s year, where chrono can give
/// it in nanoseconds, is not after `at`.
#[verifier::external_body]
pub(crate) fn month_of(at: i64) -> (r: u32)
    ensures
        r == utc_month_of(at),
        1 <= r <= 12,
        utc_month_start(utc_year_of(at), r) matches Some(s) ==> s <= at,
{
    DateTime::from_timestamp_nanos(at).month()
}

/// chrono's `TimeZone::with_ymd_and_hms` on `Utc` for midnight on the first
/// day of a month, read back in nanoseconds. Besides naming the result, the
/// contract claims that the instant it gives lies in the requested year and
/// month, as chrono's `Datelike::year` and `Datelike::month` read it back.
#[verifier::external_body]
pub(crate) fn month_start(year: i32, month: u32) -> (r: Option<i64>)
    ensures
        r == utc_month_start(year, month),
        r matches Some(s) ==> utc_year_of(s) == year && utc_month_of(s) == month,
{
    match Utc.with_ymd_and_hms(year, month, 1, 0, 0, 0).latest() {
        Some(s) => s.timestamp_nanos_opt(),
        None => None,
    }
}

/// chrono's `DateTime::checked_add_months`. Its source counts the months on
/// from `at`'s year and month, keeps the day where the new month has it
/// (clamping it otherwise) and keeps the time of day. So the contract claims
/// that a result lands in the year and month that many months on, and that
/// the first instant of a month, moved on by whole months, is the first
/// instant of its new month.
#[verifier::external_body]
pub(crate) fn add_months(at: i64, months: u32) -> (r: Option<i64>)
    ensures
        r == utc_add_months(at, months),
        r matches Some(n) ==> utc_month_of(n) == (utc_month_of(at) - 1 + months) % 12 + 1
            && utc_year_of(n) == utc_year_of(at) + (utc_month_of(at) - 1 + months) / 12,
        utc_month_start(utc_year_of(at), utc_month_of(at)) == Some(at) ==> (r matches Some(n)
            ==> utc_month_start(utc_year_of(n), utc_month_of(n)) == Some(n)),
{
    match DateTime::from_timestamp_nanos(at).checked_add_months(Months::new(months)) {
        Some(d) => d.timestamp_nanos_opt(),
        None => None,
    }
}

/// chrono's `DateTime::format` written out with `to_string`. Only the format
/// strings of the periods are taken: chrono parses them without error, so the
/// write does not fail. The contract names the text and claims nothing else.
#[verifier::external_body]
pub(crate) fn format_utc(at: i64, fmt: &str) -> (r: String)
    requires
        is_period_format(fmt@),
    ensures
        r@ == utc_strftime(at, fmt@),
{
    DateTime::from_timestamp_nanos(at).format(fmt).to_string()
}

} // verus!
