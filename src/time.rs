//! Instants as microseconds since 1970-01-01T00:00:00Z, and their text forms.
use vstd::prelude::*;
use crate::spot::opt_view;

verus! {

pub const MICROS_PER_SECOND: i64 = 1_000_000;

pub const MICROS_PER_MINUTE: i64 = 60_000_000;

/// The instant that text of the form `YYYY-MM-DDTHH:MM:SS` denotes when read as UTC.
pub uninterp spec fn naive_utc_micros(s: Seq<char>) -> Option<i64>;

/// The instant that RFC 3339 text denotes.
pub uninterp spec fn rfc3339_micros(s: Seq<char>) -> Option<i64>;

/// The RFC 3339 text of an instant, where the calendar can show it.
pub uninterp spec fn rfc3339_text(t: i64) -> Option<Seq<char>>;

/// Relies on chrono's `NaiveDateTime::parse_from_str` with the pattern
/// `%Y-%m-%dT%H:%M:%S`, taken as UTC (`and_utc`), then `timestamp_micros`.
#[verifier::external_body]
pub(crate) fn parse_naive_utc(s: &str) -> (r: Option<i64>)
    ensures
        r == naive_utc_micros(s@),
{
    chrono::NaiveDateTime::parse_from_str(s, "%Y-%m-%dT%H:%M:%S").ok().map(
        |n| n.and_utc().timestamp_micros(),
    )
}

/// Relies on chrono's `DateTime::parse_from_rfc3339`, then `timestamp_micros`.
#[verifier::external_body]
pub(crate) fn parse_rfc3339(s: &str) -> (r: Option<i64>)
    ensures
        r == rfc3339_micros(s@),
{
    chrono::DateTime::parse_from_rfc3339(s).ok().map(|d| d.timestamp_micros())
}

/// Relies on chrono's `DateTime::<Utc>::from_timestamp_micros` (`None` outside
/// the calendar's range), then `to_rfc3339`.
#[verifier::external_body]
pub(crate) fn format_rfc3339(t: i64) -> (r: Option<String>)
    ensures
        opt_view(r) == rfc3339_text(t),
{
    chrono::DateTime::<chrono::Utc>::from_timestamp_micros(t).map(|d| d.to_rfc3339())
}

} // verus!
