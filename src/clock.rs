//! Local time of day of a Unix timestamp.
use crate::decimal::digit_char;
use chrono::{DateTime, FixedOffset, Utc};
use std::time::{Duration, UNIX_EPOCH};
use vstd::prelude::*;

verus! {

/// Offset of the displayed local time from UTC, in seconds (UTC+3).
pub const UTC_OFFSET_SECONDS: i32 = 10800;

/// Latest timestamp that is formatted: 262142-12-31 23:59:59 UTC, the last
/// second of chrono's date range.
pub const MAX_TIMESTAMP: i64 = 8210266876799;

/// Two decimal digits of `n`, for `n < 100`.
pub open spec fn two_digits(n: int) -> Seq<char> {
    seq![digit_char(n / 10), digit_char(n % 10)]
}

/// `HH:MM:SS` of the second of the day that `t` falls on.
pub open spec fn clock_text(t: int) -> Seq<char> {
    let s = t % 86400;
    two_digits(s / 3600) + seq![':'] + two_digits((s % 3600) / 60) + seq![':'] + two_digits(s % 60)
}

/// Relies on chrono: `DateTime::<Utc>::from` a `SystemTime`, `with_timezone`
/// to a `FixedOffset::east_opt(offset)` and `format("%H:%M:%S")` give the
/// zero-padded hour, minute and second of `timestamp + offset` seconds after
/// the epoch. `east_opt` accepts offsets of less than a day; `from` accepts
/// times up to the end of chrono's last year, and `format` reads the local time
/// without a range check.
#[verifier::external_body]
fn clock_at_offset(timestamp: i64, offset: i32) -> (r: String)
    requires
        0 <= timestamp <= MAX_TIMESTAMP,
        -86400 < offset < 86400,
    ensures
        r@ == clock_text(timestamp + offset),
{
    let utc = DateTime::<Utc>::from(UNIX_EPOCH + Duration::from_secs(timestamp as u64));
    let zone = FixedOffset::east_opt(offset).unwrap();
    utc.with_timezone(&zone).format("%H:%M:%S").to_string()
}

/// Formats a Unix timestamp as `HH:MM:SS` local time (UTC+3).
pub fn format_time(timestamp: i64) -> (r: String)
    requires
        0 <= timestamp <= MAX_TIMESTAMP,
    ensures
        r@ == clock_text(timestamp + UTC_OFFSET_SECONDS),
{
    clock_at_offset(timestamp, UTC_OFFSET_SECONDS)
}

/// The local time shown for a timestamp: `format_time` where the timestamp is
/// in range, empty otherwise.
pub open spec fn time_text(timestamp: int) -> Seq<char> {
    if 0 <= timestamp <= MAX_TIMESTAMP {
        clock_text(timestamp + UTC_OFFSET_SECONDS)
    } else {
        Seq::empty()
    }
}

/// Formats a timestamp as `time_text` describes, for any timestamp.
pub fn display_time(timestamp: i64) -> (r: String)
    ensures
        r@ == time_text(timestamp as int),
{
    if 0 <= timestamp && timestamp <= MAX_TIMESTAMP {
        format_time(timestamp)
    } else {
        String::new()
    }
}

} // verus!
