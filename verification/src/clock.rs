//! Times as text. A time is a number of whole seconds since the Unix epoch.

use vstd::prelude::*;

verus! {

/// The pattern of the context's time line: weekday, month, day, year,
/// then the time on a twelve-hour clock.
pub const TIME_FORMAT: &'static str = "%A, %B %d, %Y at %I:%M %p UTC";

/// The last second of the year 9999.
pub const LAST_COMMON_SECOND: i64 = 253_402_300_799;

/// What chrono's `DateTime::from_timestamp(secs, 0)` and, on the time it
/// gives, `format` with `TIME_FORMAT` return: `None` if chrono cannot
/// represent the time, else the formatted text. It depends on `secs` alone.
pub uninterp spec fn utc_time_text(secs: i64) -> Option<Seq<char>>;

/// What a contract sees of an optional string.
pub open spec fn string_view(r: Option<String>) -> Option<Seq<char>> {
    match r {
        Some(t) => Some(t@),
        None => None,
    }
}

/// Calls chrono's `DateTime::from_timestamp` and formats the time it gives
/// with `DateTime::format`. Trusted: the contract names the result, and
/// claims that a time from 1970 to the end of the year 9999 has one,
/// chrono's range of years being far wider.
#[verifier::external_body]
pub(crate) fn format_utc(secs: i64) -> (r: Option<String>)
    ensures
        string_view(r) == utc_time_text(secs),
        0 <= secs <= LAST_COMMON_SECOND ==> r.is_some(),
{
    match chrono::DateTime::from_timestamp(secs, 0) {
        Some(time) => Some(time.format(TIME_FORMAT).to_string()),
        None => None,
    }
}

} // verus!
