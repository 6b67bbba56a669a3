//! How long ago a moment was, in words, measured against a moment that the
//! caller supplies.

use vstd::prelude::*;
use vstd::string::StringExecFns;
use crate::text::{decimal, push_decimal};

verus! {

/// Seconds in a minute.
pub const MINUTE: i128 = 60;

/// Seconds in an hour.
pub const HOUR: i128 = 3_600;

/// Seconds in a day.
pub const DAY: i128 = 86_400;

/// Seconds in a month of thirty days.
pub const MONTH: i128 = 2_592_000;

/// Seconds in a year of 365 days.
pub const YEAR: i128 = 31_536_000;

/// The length in seconds of the largest unit that fits into `diff` seconds:
/// a year, a month, a day, an hour, a minute, or else one second.
pub open spec fn unit_seconds(diff: int) -> int {
    if diff >= YEAR {
        YEAR as int
    } else if diff >= MONTH {
        MONTH as int
    } else if diff >= DAY {
        DAY as int
    } else if diff >= HOUR {
        HOUR as int
    } else if diff >= MINUTE {
        MINUTE as int
    } else {
        1
    }
}

/// How many whole units of [`unit_seconds`] lie in `diff` seconds.
pub open spec fn unit_count(diff: int) -> int {
    diff / unit_seconds(diff)
}

/// The name of the unit that [`unit_seconds`] picks for `diff`, in the
/// singular when exactly one of it is counted and in the plural otherwise.
pub open spec fn unit_name(diff: int) -> Seq<char> {
    let one = unit_count(diff) == 1;
    if diff >= YEAR {
        if one { "year"@ } else { "years"@ }
    } else if diff >= MONTH {
        if one { "month"@ } else { "months"@ }
    } else if diff >= DAY {
        if one { "day"@ } else { "days"@ }
    } else if diff >= HOUR {
        if one { "hour"@ } else { "hours"@ }
    } else if diff >= MINUTE {
        if one { "minute"@ } else { "minutes"@ }
    } else {
        if one { "second"@ } else { "seconds"@ }
    }
}

/// The seconds that lie between the moment `seconds` and the later moment
/// `now`; zero when `seconds` is not in the past.
pub open spec fn elapsed(seconds: int, now: int) -> int {
    if now > seconds { now - seconds } else { 0 }
}

/// The text for a moment that lies `diff >= 0` seconds back: the count, the
/// unit, and the word `ago`, as in `4 years ago`.
pub open spec fn ago_text(diff: int) -> Seq<char> {
    decimal(unit_count(diff) as nat) + " "@ + unit_name(diff) + " ago"@
}

/// Appends the unit's name for `diff` seconds to `out`.
pub(crate) fn push_unit_name(out: &mut String, diff: i128)
    ensures
        final(out)@ == old(out)@ + unit_name(diff as int),
{
    if diff >= YEAR {
        if diff / YEAR == 1 { out.append("year") } else { out.append("years") }
    } else if diff >= MONTH {
        if diff / MONTH == 1 { out.append("month") } else { out.append("months") }
    } else if diff >= DAY {
        if diff / DAY == 1 { out.append("day") } else { out.append("days") }
    } else if diff >= HOUR {
        if diff / HOUR == 1 { out.append("hour") } else { out.append("hours") }
    } else if diff >= MINUTE {
        if diff / MINUTE == 1 { out.append("minute") } else { out.append("minutes") }
    } else {
        if diff == 1 { out.append("second") } else { out.append("seconds") }
    }
}

/// How many whole units of the largest fitting unit lie in `diff` seconds.
pub(crate) fn count_units(diff: i128) -> (count: i128)
    ensures
        count == unit_count(diff as int),
        diff >= 0 ==> 0 <= count <= diff,
        diff < 0 ==> count == diff,
{
    if diff >= YEAR {
        diff / YEAR
    } else if diff >= MONTH {
        diff / MONTH
    } else if diff >= DAY {
        diff / DAY
    } else if diff >= HOUR {
        diff / HOUR
    } else if diff >= MINUTE {
        diff / MINUTE
    } else {
        diff
    }
}

/// Says how long before `now` the moment `seconds` was, as in `4 years ago`.
///
/// `seconds` and `now` count seconds since the Unix epoch in UTC; `offset` is
/// the time zone offset in seconds under which both are read. Shifting both
/// moments by the same offset leaves their distance unchanged, so the text
/// does not depend on it. A moment that is not in the past reads
/// `0 seconds ago`.
pub fn format_relative_time(seconds: i64, offset: i32, now: u64) -> (text: String)
    ensures
        text@ == ago_text(elapsed(seconds as int, now as int)),
{
    let adjusted_seconds: i128 = seconds as i128 + offset as i128;
    let adjusted_now: i128 = now as i128 + offset as i128;
    let diff: i128 = if adjusted_now > adjusted_seconds {
        adjusted_now - adjusted_seconds
    } else {
        0
    };
    let count: i128 = count_units(diff);
    let mut text = String::new();
    push_decimal(&mut text, count as u128);
    text.append(" ");
    push_unit_name(&mut text, diff);
    text.append(" ago");
    assert(text@ =~= ago_text(diff as int));
    text
}

} // verus!
