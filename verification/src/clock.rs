//! Date and time parsing and rendering, provided by the `chrono` crate.
use vstd::prelude::*;
use chrono::TimeZone;

verus! {

/// `chrono::DateTime::parse_from_rfc3339(text).timestamp()` where the text parses.
pub uninterp spec fn rfc3339_seconds(text: Seq<char>) -> Option<i64>;

/// `chrono::DateTime::parse_from_rfc3339(text).timestamp_millis()` where the text parses.
pub uninterp spec fn rfc3339_millis(text: Seq<char>) -> Option<i64>;

/// `chrono::NaiveDateTime::parse_from_str(text, format).and_utc().timestamp()`
/// where the text parses.
pub uninterp spec fn naive_utc_seconds(text: Seq<char>, format: Seq<char>) -> Option<i64>;

/// `Utc.timestamp_millis_opt(millis).single()` rendered by `to_rfc3339`, where
/// the instant is representable.
pub uninterp spec fn rfc3339_of_millis(millis: i64) -> Option<Seq<char>>;

/// Parses an RFC 3339 date-time and returns its Unix time in seconds
/// (`DateTime::parse_from_rfc3339` and `timestamp`).
#[verifier::external_body]
pub fn parse_rfc3339_seconds(text: &str) -> (r: Option<i64>)
    ensures
        r == rfc3339_seconds(text@),
{
    chrono::DateTime::parse_from_rfc3339(text).ok().map(|date| date.timestamp())
}

/// Parses an RFC 3339 date-time and returns its Unix time in milliseconds
/// (`DateTime::parse_from_rfc3339` and `timestamp_millis`).
#[verifier::external_body]
pub fn parse_rfc3339_millis(text: &str) -> (r: Option<i64>)
    ensures
        r == rfc3339_millis(text@),
{
    chrono::DateTime::parse_from_rfc3339(text).ok().map(|date| date.timestamp_millis())
}

/// Parses a naive date-time with `format`, read as UTC, and returns its Unix
/// time in seconds (`NaiveDateTime::parse_from_str`, `and_utc`, `timestamp`).
#[verifier::external_body]
pub fn parse_naive_utc_seconds(text: &str, format: &str) -> (r: Option<i64>)
    ensures
        r == naive_utc_seconds(text@, format@),
{
    chrono::NaiveDateTime::parse_from_str(text, format).ok().map(
        |datetime| datetime.and_utc().timestamp(),
    )
}

/// Renders a Unix time in milliseconds as an RFC 3339 UTC date-time
/// (`Utc.timestamp_millis_opt(..).single()` and `to_rfc3339`).
#[verifier::external_body]
pub fn millis_to_rfc3339(millis: i64) -> (r: Option<String>)
    ensures
        crate::text::opt_view(r) == rfc3339_of_millis(millis),
{
    chrono::Utc.timestamp_millis_opt(millis).single().map(|date| date.to_rfc3339())
}

/// The current Unix time in seconds (`chrono::Utc::now().timestamp()`). It
/// depends on the clock, so nothing is stated of it.
#[verifier::external_body]
pub(crate) fn unix_now() -> (r: i64) {
    chrono::Utc::now().timestamp()
}

} // verus!
