//! How far a moment lies from the present, in words, in either direction.

use vstd::prelude::*;
use vstd::string::StringExecFns;
use crate::date::{count_units, push_unit_name, unit_count, unit_name};
use crate::text::{push_signed_decimal, signed_decimal};

verus! {

/// The word after the count and the unit: `ago` for a moment that lies
/// `diff > 0` seconds back, `from now` otherwise.
pub open spec fn direction(diff: int) -> Seq<char> {
    if diff > 0 { "ago"@ } else { "from now"@ }
}

/// The text for a moment that lies `diff` seconds before the present
/// (after it, where `diff` is negative): the count, the unit and the
/// direction, as in `4 years ago`.
///
/// A moment that is not in the past is counted in seconds, with its sign:
/// `-5 seconds from now`.
pub open spec fn relative_text(diff: int) -> Seq<char> {
    signed_decimal(unit_count(diff)) + " "@ + unit_name(diff) + " "@ + direction(diff)
}

/// Says how far the moment `seconds` lies from `now`, as in `4 years ago`.
///
/// `seconds` and `now` count seconds since the Unix epoch in UTC; `offset` is
/// the time zone offset in seconds under which both are read. Shifting both
/// moments by the same offset leaves their distance unchanged, so the text
/// does not depend on it.
pub fn format_relative_time(seconds: i64, offset: i32, now: u64) -> (text: String)
    ensures
        text@ == relative_text(now as int - seconds as int),
{
    let local_seconds: i128 = seconds as i128 + offset as i128;
    let local_now: i128 = now as i128 + offset as i128;
    let diff: i128 = local_now - local_seconds;
    let count: i128 = count_units(diff);
    let mut text = String::new();
    push_signed_decimal(&mut text, count);
    text.append(" ");
    push_unit_name(&mut text, diff);
    text.append(" ");
    if diff > 0 {
        text.append("ago");
    } else {
        text.append("from now");
    }
    assert(text@ =~= relative_text(diff as int));
    text
}

} // verus!
