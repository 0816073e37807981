//! Date arithmetic: reading the export's date texts as Unix timestamps and
//! counting the whole days between two moments.

use vstd::prelude::*;

verus! {

/// The number of seconds in one day.
pub const SECONDS_PER_DAY: i64 = 86_400;

/// The layout of every date text in an export: `YYYY-MM-DD HH:MM:SS`.
pub const DATE_FORMAT: &'static str = "%Y-%m-%d %H:%M:%S";

/// The Unix timestamp, in whole seconds, that chrono assigns to `text` when
/// it is read under `format` as a date and time in UTC; `None` where chrono
/// rejects the text or cannot represent the moment.
pub uninterp spec fn utc_seconds(text: Seq<char>, format: Seq<char>) -> Option<i64>;

/// Calls chrono's `NaiveDateTime::parse_from_str`, then takes the parsed
/// value through `and_utc`, `timestamp_millis`, `TimeZone::timestamp_millis_opt`
/// on `Utc` and `timestamp`.
///
/// Nothing is proved of this function. Its contract claims only that the
/// outcome is a function of the two texts: chrono reads no clock, locale or
/// time zone on this path.
#[verifier::external_body]
fn parse_utc_seconds(text: &str, format: &str) -> (seconds: Option<i64>)
    ensures
        seconds == utc_seconds(text@, format@),
{
    let parsed = chrono::NaiveDateTime::parse_from_str(text, format).ok()?;
    let millis = parsed.and_utc().timestamp_millis();
    let moment = chrono::TimeZone::timestamp_millis_opt(&chrono::Utc, millis).single()?;
    Some(moment.timestamp())
}

/// The timestamp of a date text of an export, if it has one.
pub open spec fn timestamp_of(text: Seq<char>) -> Option<i64> {
    utc_seconds(text, DATE_FORMAT@)
}

/// The whole days from `past` up to `reference`: none when `past` is the
/// later of the two.
pub open spec fn elapsed_days(reference: int, past: int) -> nat {
    if reference < past {
        0
    } else {
        ((reference - past) / 86_400) as nat
    }
}

/// The whole days from the moment that `text` names up to `reference`, where
/// the text names a moment.
pub open spec fn days_since(reference: int, text: Seq<char>) -> Option<nat> {
    match timestamp_of(text) {
        Some(past) => Some(elapsed_days(reference, past as int)),
        None => None,
    }
}

/// Reads a date text as seconds since the Unix epoch, in UTC.
pub fn date_to_unix_timestamp(date_str: &str) -> (timestamp: Option<i64>)
    ensures
        timestamp == timestamp_of(date_str@),
{
    parse_utc_seconds(date_str, DATE_FORMAT)
}

/// Counts the whole days from `past_timestamp` up to `reference_timestamp`.
/// A past that lies after the reference counts as no days at all.
pub fn whole_days(reference_timestamp: i64, past_timestamp: i64) -> (days: u64)
    ensures
        days == elapsed_days(reference_timestamp as int, past_timestamp as int),
        reference_timestamp < past_timestamp ==> days == 0,
        reference_timestamp >= past_timestamp ==> days == (reference_timestamp - past_timestamp)
            / 86_400,
{
    if reference_timestamp < past_timestamp {
        return 0;
    }
    let span: i128 = reference_timestamp as i128 - past_timestamp as i128;
    let days: i128 = span / (SECONDS_PER_DAY as i128);
    days as u64
}

/// Counts the whole days from the moment that `date_str` names up to
/// `reference_timestamp`; `None` where the text names no moment.
pub fn days_between(reference_timestamp: i64, date_str: &str) -> (days: Option<u64>)
    ensures
        match timestamp_of(date_str@) {
            Some(past) => days matches Some(d) && d == elapsed_days(
                reference_timestamp as int,
                past as int,
            ),
            None => days is None,
        },
        match days {
            Some(d) => days_since(reference_timestamp as int, date_str@) == Some(d as nat),
            None => days_since(reference_timestamp as int, date_str@) is None,
        },
{
    match date_to_unix_timestamp(date_str) {
        Some(past_timestamp) => Some(whole_days(reference_timestamp, past_timestamp)),
        None => None,
    }
}

} // verus!
