//! Calendar days, as recordings are filed under them.
//!
//! A day is written `YYYY-MM-DD` in the machine's local time zone, so a directory listing of the
//! recordings reads like the calendar the operator lives by.

use crate::util::text::{decimal, extend_chars, padded_decimal, string_from_chars, zero_padded};
use chrono::{Datelike, TimeZone, Timelike};
use vstd::prelude::*;

verus! {

/// The year as the calendar writes it: four digits, zero-padded, with a sign before a year that does
/// not fit in four digits or lies before year zero.
pub open spec fn year_text(year: int) -> Seq<char> {
    if 0 <= year && year <= 9999 {
        zero_padded(decimal(year as nat), 4)
    } else if year > 9999 {
        seq!['+'] + decimal(year as nat)
    } else {
        seq!['-'] + zero_padded(decimal((-year) as nat), 4)
    }
}

/// `YYYY-MM-DD`.
pub open spec fn day_text(year: int, month: int, day: int) -> Seq<char> {
    year_text(year) + seq!['-'] + zero_padded(decimal(month as nat), 2) + seq!['-'] + zero_padded(
        decimal(day as nat),
        2,
    )
}

/// Text that names a calendar day.
pub open spec fn is_day_text(text: Seq<char>) -> bool {
    exists|year: int, month: int, day: int|
        1 <= month <= 12 && 1 <= day <= 31 && text == #[trigger] day_text(year, month, day)
}

/// A local date and time of day: year, month, day, hour, minute, second.
pub type LocalDateTime = (i32, u32, u32, u32, u32, u32);

/// A leap year of the proleptic Gregorian calendar.
pub open spec fn is_leap_year(year: int) -> bool {
    year % 4 == 0 && (year % 100 != 0 || year % 400 == 0)
}

/// The number of days in `month` of `year`.
pub open spec fn days_in_month(year: int, month: int) -> int {
    if month == 2 {
        if is_leap_year(year) {
            29
        } else {
            28
        }
    } else if month == 4 || month == 6 || month == 9 || month == 11 {
        30
    } else {
        31
    }
}

/// Days from 1970-01-01 to a date of the proleptic Gregorian calendar, counting from March so that
/// the leap day ends a year.
pub open spec fn days_from_civil(year: int, month: int, day: int) -> int {
    let y = if month <= 2 {
        year - 1
    } else {
        year
    };
    let era = y / 400;
    let year_of_era = y - era * 400;
    let month_from_march = (month + 9) % 12;
    let day_of_year = (153 * month_from_march + 2) / 5 + day - 1;
    let day_of_era = year_of_era * 365 + year_of_era / 4 - year_of_era / 100 + day_of_year;
    era * 146097 + day_of_era - 719468
}

/// Seconds from 1970-01-01 00:00:00 to a date and time of day, with no time zone applied.
pub open spec fn civil_seconds(
    year: int,
    month: int,
    day: int,
    hour: int,
    minute: int,
    second: int,
) -> int {
    days_from_civil(year, month, day) * 86_400 + hour * 3600 + minute * 60 + second
}

/// A date and time that exists on the calendar and on the clock.
pub open spec fn is_date_time(
    year: int,
    month: int,
    day: int,
    hour: int,
    minute: int,
    second: int,
) -> bool {
    &&& 1 <= month <= 12
    &&& 1 <= day <= days_in_month(year, month)
    &&& 0 <= hour <= 23
    &&& 0 <= minute <= 59
    &&& 0 <= second <= 59
}

/// The date and time a clock shows at the Unix timestamp `timestamp_ms` under some time zone: the
/// moment's whole seconds moved by an offset of less than a day either way.
pub open spec fn is_local_time_of(
    year: int,
    month: int,
    day: int,
    hour: int,
    minute: int,
    second: int,
    timestamp_ms: int,
) -> bool {
    &&& is_date_time(year, month, day, hour, minute, second)
    &&& -86_400 < civil_seconds(year, month, day, hour, minute, second) - timestamp_ms / 1000
        < 86_400
}

/// The largest distance from the epoch, in milliseconds, at which the local calendar is sure to have
/// a date: about 250 000 years, well inside the calendar's range even after a day of time zone offset.
pub const LOCAL_CALENDAR_LIMIT_MS: i64 = 8_000_000_000_000_000;

/// chrono: the local date and time of day at a Unix timestamp in milliseconds, by
/// `DateTime::from_timestamp_millis`, the offset `Local::offset_from_utc_datetime` gives for that
/// moment, and `NaiveDateTime::checked_add_offset`.
///
/// `from_timestamp_millis` takes the whole seconds of the moment by Euclidean division, and fails only
/// outside chrono's calendar, which runs to about year 262 000 either side; the local offset is a
/// `FixedOffset`, always strictly within a day; `checked_add_offset` adds it, failing only where the
/// result leaves the calendar. So a result is a real date and time whose seconds since the epoch are
/// the moment's plus that offset, and there is one for every moment within
/// [`LOCAL_CALENDAR_LIMIT_MS`] of the epoch. Which offset applies depends on the machine's time zone
/// and is left unsaid.
#[verifier::external_body]
pub(crate) fn local_date_time(timestamp_ms: i64) -> (moment: Option<LocalDateTime>)
    ensures
        moment matches Some((year, month, day, hour, minute, second)) ==> is_local_time_of(
            year as int,
            month as int,
            day as int,
            hour as int,
            minute as int,
            second as int,
            timestamp_ms as int,
        ),
        -LOCAL_CALENDAR_LIMIT_MS <= timestamp_ms <= LOCAL_CALENDAR_LIMIT_MS ==> moment is Some,
{
    let utc = chrono::DateTime::from_timestamp_millis(timestamp_ms)?.naive_utc();
    let offset = chrono::Local.offset_from_utc_datetime(&utc);
    let local = utc.checked_add_offset(offset)?;
    Some((local.year(), local.month(), local.day(), local.hour(), local.minute(), local.second()))
}

/// `text` names the local calendar day of the moment `timestamp_ms`, in some time zone.
pub open spec fn is_local_day_of(text: Seq<char>, timestamp_ms: int) -> bool {
    exists|year: int, month: int, day: int, hour: int, minute: int, second: int|
        #[trigger] is_local_time_of(year, month, day, hour, minute, second, timestamp_ms) && text
            == day_text(year, month, day)
}

/// The day a recording starting at `timestamp_ms` is filed under: its local calendar day, or, for a
/// moment so far from the epoch that the calendar may have no date for it, possibly the epoch's day.
pub open spec fn is_filing_day_of(text: Seq<char>, timestamp_ms: i64) -> bool {
    ||| is_local_day_of(text, timestamp_ms as int)
    ||| (!(-LOCAL_CALENDAR_LIMIT_MS <= timestamp_ms <= LOCAL_CALENDAR_LIMIT_MS) && text
        == day_text(1970, 1, 1))
}

/// `YYYY-MM-DD` for a calendar date.
pub fn format_day(year: i32, month: u32, day: u32) -> (text: String)
    ensures
        text@ == day_text(year as int, month as int, day as int),
{
    let mut chars: Vec<char> = Vec::new();
    if year >= 0 && year <= 9999 {
        let digits = padded_decimal(year as u64, 4);
        extend_chars(&mut chars, digits.as_slice());
    } else if year > 9999 {
        chars.push('+');
        let digits = padded_decimal(year as u64, 0);
        extend_chars(&mut chars, digits.as_slice());
    } else {
        chars.push('-');
        let magnitude: u64 = (0 - (year as i64)) as u64;
        let digits = padded_decimal(magnitude, 4);
        extend_chars(&mut chars, digits.as_slice());
    }
    assert(chars@ == year_text(year as int));
    chars.push('-');
    let month_digits = padded_decimal(month as u64, 2);
    extend_chars(&mut chars, month_digits.as_slice());
    chars.push('-');
    let day_digits = padded_decimal(day as u64, 2);
    extend_chars(&mut chars, day_digits.as_slice());
    assert(chars@ =~= day_text(year as int, month as int, day as int));
    string_from_chars(chars.as_slice())
}

/// The local calendar day a moment falls on, `YYYY-MM-DD`.
///
/// A moment beyond the end of the calendar is filed under the day of the Unix epoch rather than
/// refused, so a wildly wrong clock still produces a recording somewhere.
pub fn local_day(timestamp_ms: i64) -> (text: String)
    ensures
        is_day_text(text@),
        is_filing_day_of(text@, timestamp_ms),
{
    match local_date_time(timestamp_ms) {
        Some((year, month, day, hour, minute, second)) => {
            let text = format_day(year, month, day);
            assert(is_local_time_of(
                year as int,
                month as int,
                day as int,
                hour as int,
                minute as int,
                second as int,
                timestamp_ms as int,
            ) && text@ == day_text(year as int, month as int, day as int));
            text
        },
        None => format_day(1970, 1, 1),
    }
}

} // verus!
