//! Points in time, as the cache stores them.

use vstd::prelude::*;

use crate::text::opt_view;

verus! {

/// A point in time.
#[derive(Debug, Clone, Copy, PartialEq, Eq, Structural)]
pub struct Timestamp {
    /// Whole seconds since the Unix epoch.
    pub secs: i64,
    /// Nanoseconds past the second; a leap second counts beyond the billion.
    pub nanos: u32,
}

/// The point in time that an RFC 3339 text names.
pub uninterp spec fn rfc3339_time(text: Seq<char>) -> Option<Timestamp>;

/// `chrono::DateTime::parse_from_rfc3339`, as the seconds and nanoseconds that the
/// `DateTime` reports; what it reads from a text is called [`rfc3339_time`].
#[verifier::external_body]
fn chrono_rfc3339(text: &str) -> (result: Option<Timestamp>)
    ensures
        result == rfc3339_time(text@),
{
    let parsed = chrono::DateTime::parse_from_rfc3339(text).ok()?;
    Some(Timestamp { secs: parsed.timestamp(), nanos: parsed.timestamp_subsec_nanos() })
}

/// Read an RFC 3339 timestamp.
pub fn parse_rfc3339(text: &str) -> (result: Option<Timestamp>)
    ensures
        result == rfc3339_time(text@),
{
    chrono_rfc3339(text)
}

/// The time a column holds, or `now` when it cannot be read.
pub open spec fn time_or(raw: Seq<char>, now: Timestamp) -> Timestamp {
    match rfc3339_time(raw) {
        Some(time) => time,
        None => now,
    }
}

/// Read a timestamp column, taking `now` when it cannot be read.
pub fn parse_or(raw: &str, now: Timestamp) -> (result: Timestamp)
    ensures
        result == time_or(raw@, now),
{
    match parse_rfc3339(raw) {
        Some(time) => time,
        None => now,
    }
}

/// The time an optional column holds, if it can be read.
pub open spec fn optional_time(raw: Option<String>) -> Option<Timestamp> {
    match raw {
        Some(text) => rfc3339_time(text@),
        None => None,
    }
}

/// Read an optional timestamp column.
pub fn parse_optional(raw: &Option<String>) -> (result: Option<Timestamp>)
    ensures
        result == optional_time(*raw),
{
    match raw {
        Some(text) => parse_rfc3339(text.as_str()),
        None => None,
    }
}

/// How a point in time is shown; `None` for one that no calendar date stands for.
pub uninterp spec fn shown_time(time: Timestamp) -> Option<Seq<char>>;

/// `chrono::DateTime::from_timestamp`, shown by the `Display` of the `DateTime`; the
/// text is called [`shown_time`].
#[verifier::external_body]
pub(crate) fn show_time(time: Timestamp) -> (result: Option<String>)
    ensures
        opt_view(result) == shown_time(time),
{
    chrono::DateTime::from_timestamp(time.secs, time.nanos).map(|time| time.to_string())
}

/// The RFC 3339 text of a point in time; `None` for one that no calendar date stands
/// for.
pub uninterp spec fn rfc3339_text(time: Timestamp) -> Option<Seq<char>>;

/// `chrono::DateTime::from_timestamp`, written by `to_rfc3339`; the text is called
/// [`rfc3339_text`].
#[verifier::external_body]
fn chrono_to_rfc3339(time: Timestamp) -> (result: Option<String>)
    ensures
        opt_view(result) == rfc3339_text(time),
{
    chrono::DateTime::from_timestamp(time.secs, time.nanos).map(|time| time.to_rfc3339())
}

/// Write a point in time as RFC 3339 text.
pub fn to_rfc3339(time: Timestamp) -> (result: Option<String>)
    ensures
        opt_view(result) == rfc3339_text(time),
{
    chrono_to_rfc3339(time)
}

} // verus!
