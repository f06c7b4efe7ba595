//! What a downloaded export is called.

use crate::models::segment::TimeRange;
use crate::util::day::{
    day_text, format_day, is_local_time_of, local_date_time, LOCAL_CALENDAR_LIMIT_MS,
};
use crate::util::text::{
    chars_of, decimal, extend_chars, i64_to_decimal, padded_decimal, signed_decimal,
    string_from_chars, zero_padded,
};
use vstd::prelude::*;

verus! {

/// `YYYY-MM-DD_HH-MM-SS`.
pub open spec fn stamp_text(
    year: int,
    month: int,
    day: int,
    hour: int,
    minute: int,
    second: int,
) -> Seq<char> {
    day_text(year, month, day) + seq!['_'] + zero_padded(decimal(hour as nat), 2) + seq!['-']
        + zero_padded(decimal(minute as nat), 2) + seq!['-'] + zero_padded(decimal(second as nat), 2)
}

/// How a moment is written in an export's name: its local date and time, or, for a moment so far from
/// the epoch that the calendar may have no date for it, possibly its millisecond timestamp.
pub open spec fn is_stamp_of(text: Seq<char>, timestamp_ms: i64) -> bool {
    ||| exists|year: int, month: int, day: int, hour: int, minute: int, second: int|
        #[trigger] is_local_time_of(year, month, day, hour, minute, second, timestamp_ms as int)
            && text == stamp_text(year, month, day, hour, minute, second)
    ||| (!(-LOCAL_CALENDAR_LIMIT_MS <= timestamp_ms <= LOCAL_CALENDAR_LIMIT_MS) && text
        == signed_decimal(timestamp_ms as int))
}

/// `YYYY-MM-DD_HH-MM-SS` for a date and time of day.
pub fn format_stamp(year: i32, month: u32, day: u32, hour: u32, minute: u32, second: u32) -> (text:
    String)
    ensures
        text@ == stamp_text(
            year as int,
            month as int,
            day as int,
            hour as int,
            minute as int,
            second as int,
        ),
{
    let date = format_day(year, month, day);
    let mut text = chars_of(date.as_str());
    text.push('_');
    let h = padded_decimal(hour as u64, 2);
    extend_chars(&mut text, h.as_slice());
    text.push('-');
    let m = padded_decimal(minute as u64, 2);
    extend_chars(&mut text, m.as_slice());
    text.push('-');
    let s = padded_decimal(second as u64, 2);
    extend_chars(&mut text, s.as_slice());
    assert(text@ =~= stamp_text(
        year as int,
        month as int,
        day as int,
        hour as int,
        minute as int,
        second as int,
    ));
    string_from_chars(text.as_slice())
}

fn stamp(timestamp_ms: i64) -> (text: Vec<char>)
    ensures
        is_stamp_of(text@, timestamp_ms),
{
    match local_date_time(timestamp_ms) {
        Some((year, month, day, hour, minute, second)) => {
            let stamp = format_stamp(year, month, day, hour, minute, second);
            let text = chars_of(stamp.as_str());
            assert(is_local_time_of(
                year as int,
                month as int,
                day as int,
                hour as int,
                minute as int,
                second as int,
                timestamp_ms as int,
            ));
            text
        },
        None => {
            let digits = i64_to_decimal(timestamp_ms);
            chars_of(digits.as_str())
        },
    }
}

/// The name of an export of `range`: `on-air-record_<start>_to_<end>.wav`, so a folder of exports
/// stays readable.
pub open spec fn filename_of(start: Seq<char>, end: Seq<char>) -> Seq<char> {
    "on-air-record_"@ + start + "_to_"@ + end + ".wav"@
}

/// A filename that says what the file holds.
pub fn filename(range: TimeRange) -> (name: String)
    ensures
        exists|start: Seq<char>, end: Seq<char>|
            is_stamp_of(start, range.start_ms) && is_stamp_of(end, range.end_ms) && name@
                == #[trigger] filename_of(start, end),
{
    let start = stamp(range.start_ms);
    let end = stamp(range.end_ms);
    let mut name = chars_of("on-air-record_");
    extend_chars(&mut name, start.as_slice());
    let to = chars_of("_to_");
    extend_chars(&mut name, to.as_slice());
    extend_chars(&mut name, end.as_slice());
    let suffix = chars_of(".wav");
    extend_chars(&mut name, suffix.as_slice());
    assert(name@ =~= filename_of(start@, end@));
    string_from_chars(name.as_slice())
}

} // verus!
