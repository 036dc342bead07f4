//! Reading the dates of the measurement log.

use vstd::prelude::*;

verus! {

/// The instant that `text` names when read by the pattern `format`, in seconds
/// since 1970-01-01 00:00:00 UTC, as `chrono` reads it; `None` where `chrono`
/// does not accept `text` under `format`.
pub uninterp spec fn date_seconds(text: Seq<char>, format: Seq<char>) -> Option<i64>;

/// Calls `chrono::NaiveDateTime::parse_from_str` on `text` and `format`, takes
/// the date it gives as one in UTC and hands out its `timestamp`. The contract
/// only gives that result its name: the same text under the same pattern is
/// the same instant.
#[verifier::external_body]
pub(crate) fn parse_date(text: &str, format: &str) -> (seconds: Option<i64>)
    ensures
        seconds == date_seconds(text@, format@),
{
    chrono::NaiveDateTime::parse_from_str(text, format).ok().map(|date| date.and_utc().timestamp())
}

/// The pattern of the dates in the log: year, month and day between slashes,
/// then hours, minutes and seconds between colons.
pub open spec fn log_date_format() -> Seq<char> {
    "%Y/%m/%d %H:%M:%S"@
}

/// The instant that a date of the log names, in seconds since the epoch; the
/// date is taken as UTC.
pub open spec fn log_date_seconds(text: Seq<char>) -> Option<i64> {
    date_seconds(text, log_date_format())
}

/// Reads a date of the log, written as `YYYY/MM/DD HH:MM:SS` in UTC. Returns
/// the seconds since the epoch, or `None` where `text` is no such date.
pub fn date_time_from_str(text: &str) -> (seconds: Option<i64>)
    ensures
        seconds == log_date_seconds(text@),
{
    parse_date(text, "%Y/%m/%d %H:%M:%S")
}

} // verus!
