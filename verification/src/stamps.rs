//! Time stamps in the basic calendar format.
//!
//! A moment is held as the number of its day, with January 1 of the year 1
//! as day 1, and the second of that day. `chrono` reads a moment from a
//! text, takes a moment of the machine's time zone to UTC, and writes a
//! moment by a pattern; which patterns are used is decided here.

use crate::window::{has_date, LAST_DAY};
use chrono::{Datelike, Timelike};
use vstd::prelude::*;

verus! {

/// The number of the day before January 1 of the year 1970. The clock of a
/// machine does not go back before the begin of 1970 in UTC, and a time
/// zone is less than a day off, so no day before this one is today.
pub const EPOCH_EVE: i32 = 719_162;

/// The number of seconds of a day.
pub const DAY_SECONDS: u32 = 86_400;

/// The second `second` of the day `day` is a moment: the day has a date and
/// the second lies within a day.
pub open spec fn is_moment(day: int, second: int) -> bool {
    has_date(day) && 0 <= second < DAY_SECONDS
}

/// The pattern by which the provider writes a minute: year, month and day
/// with hyphens, a `T`, hour and minute.
pub open spec fn minute_pattern() -> Seq<char> {
    "%Y-%m-%dT%H:%M"@
}

/// The pattern of a UTC time in the basic format: year, month and day, a
/// `T`, hour, minute and second, and a `Z`.
pub open spec fn stamp_pattern() -> Seq<char> {
    "%Y%m%dT%H%M%SZ"@
}

/// The moment that `chrono` reads at the start of `text` by `pattern`, as
/// its day and the second of that day; `None` where the text does not
/// begin as the pattern says.
pub uninterp spec fn moment_of(text: Seq<char>, pattern: Seq<char>) -> Option<(int, int)>;

/// The text that `chrono` writes by `pattern` for the second `second` of
/// the day `day`; `None` where there is no such moment or the pattern
/// cannot be written.
pub uninterp spec fn moment_text(day: int, second: int, pattern: Seq<char>) -> Option<Seq<char>>;

/// The text has the length and the two letters of a time in the basic
/// format: at least 16 characters, a `T` as the eighth from the end and a
/// `Z` at the end.
pub open spec fn is_utc_stamp(text: Seq<char>) -> bool {
    &&& text.len() >= 16
    &&& text[text.len() - 8] == 'T'
    &&& text[text.len() - 1] == 'Z'
}

/// The text is the stamp of some moment.
pub open spec fn is_stamp(text: Seq<char>) -> bool {
    &&& is_utc_stamp(text)
    &&& exists|day: int, second: int| moment_text(day, second, stamp_pattern()) == Some(text)
}

/// The text is what the conversion of `source` may give: the stamp of some
/// moment where `source` begins with a minute, and else, or where the
/// minute has no UTC time, the empty text.
pub open spec fn may_stamp(source: Seq<char>, text: Seq<char>) -> bool {
    text.len() == 0 || (moment_of(source, minute_pattern()) is Some && is_stamp(text))
}

/// Reads a moment from the start of a text with
/// `NaiveDateTime::parse_and_remainder`, and gives its day by
/// `Datelike::num_days_from_ce` and its second by
/// `Timelike::num_seconds_from_midnight`. What is read depends on the text
/// and the pattern alone.
#[verifier::external_body]
fn read_moment(text: &str, pattern: &str) -> (res: Option<(i32, u32)>)
    ensures
        res is Some <==> moment_of(text@, pattern@) is Some,
        res matches Some(moment) ==> moment_of(text@, pattern@) == Some(
            (moment.0 as int, moment.1 as int),
        ),
{
    let moment = chrono::NaiveDateTime::parse_and_remainder(text, pattern).ok()?.0;
    Some((moment.date().num_days_from_ce(), moment.time().num_seconds_from_midnight()))
}

/// Takes a moment as a time of the machine's time zone and gives the same
/// moment in UTC: `NaiveDate::from_num_days_from_ce_opt`,
/// `NaiveTime::from_num_seconds_from_midnight_opt`,
/// `NaiveDateTime::and_local_timezone` with `Local`,
/// `MappedLocalTime::earliest` and `DateTime::naive_utc`. The result depends
/// on the time zone of the machine, so nothing is stated of it; it is
/// `None` where the moment or its local time does not exist.
#[verifier::external_body]
fn local_to_utc(day: i32, second: u32) -> (res: Option<(i32, u32)>) {
    let date = chrono::NaiveDate::from_num_days_from_ce_opt(day)?;
    let time = chrono::NaiveTime::from_num_seconds_from_midnight_opt(second, 0)?;
    let utc = date.and_time(time).and_local_timezone(chrono::Local).earliest()?.naive_utc();
    Some((utc.date().num_days_from_ce(), utc.time().num_seconds_from_midnight()))
}

/// Writes a moment by a pattern: `NaiveDate::from_num_days_from_ce_opt`,
/// `NaiveTime::from_num_seconds_from_midnight_opt`, `NaiveDateTime::and_utc`,
/// `DateTime::format` and `DelayedFormat::write_to`. The text depends on the
/// moment and the pattern alone. By the stamp pattern every moment is
/// written, and nothing else is, with a year of four characters or more,
/// two digits for each other number, and the `T` and the `Z` of the
/// pattern.
#[verifier::external_body]
fn write_moment(day: i32, second: u32, pattern: &str) -> (res: Option<String>)
    ensures
        res is Some <==> moment_text(day as int, second as int, pattern@) is Some,
        (pattern@ == stamp_pattern()) ==> ((res is Some) == is_moment(day as int, second as int)),
        res matches Some(text) ==> moment_text(day as int, second as int, pattern@) == Some(text@),
        res matches Some(text) ==> (pattern@ == stamp_pattern() ==> is_utc_stamp(text@)),
{
    let date = chrono::NaiveDate::from_num_days_from_ce_opt(day)?;
    let time = chrono::NaiveTime::from_num_seconds_from_midnight_opt(second, 0)?;
    let mut text = String::new();
    date.and_time(time).and_utc().format(pattern).write_to(&mut text).ok()?;
    Some(text)
}

/// The present moment by the machine's clock and time zone, through
/// `chrono::Local::now` and `DateTime::naive_local`. It differs from call
/// to call; it is a moment, and one that is not before the last day of
/// 1969.
#[verifier::external_body]
pub(crate) fn now_local() -> (moment: (i32, u32))
    ensures
        EPOCH_EVE <= moment.0 <= LAST_DAY,
        moment.1 < DAY_SECONDS,
{
    let now = chrono::Local::now().naive_local();
    (now.date().num_days_from_ce(), now.time().num_seconds_from_midnight())
}

/// The stamp of a moment: its text by the stamp pattern. `None` where the
/// day has no date or the second lies beyond the day.
pub fn stamp_of(day: i32, second: u32) -> (res: Option<String>)
    ensures
        res is Some <==> is_moment(day as int, second as int),
        res is Some <==> moment_text(day as int, second as int, stamp_pattern()) is Some,
        res matches Some(text) ==> moment_text(day as int, second as int, stamp_pattern()) == Some(
            text@,
        ) && is_stamp(text@),
{
    write_moment(day, second, "%Y%m%dT%H%M%SZ")
}

/// Reads the minute at the start of `stamp`, written as year, month, day, a
/// `T`, hour and minute, takes it as a time of the machine's time zone and
/// writes it as a UTC time in the basic format that ends in `Z`.
///
/// A text that does not begin with a minute gives nothing. For one that
/// does, which time comes out depends on the time zone of the machine, and
/// nothing comes out where the local time does not exist; what comes out is
/// the stamp of some moment.
pub fn create_timestamp(stamp: &str) -> (res: Option<String>)
    ensures
        moment_of(stamp@, minute_pattern()) is None ==> res is None,
        res matches Some(text) ==> may_stamp(stamp@, text@) && is_stamp(text@),
{
    let (day, second) = match read_moment(stamp, "%Y-%m-%dT%H:%M") {
        Some(moment) => moment,
        None => { return None; },
    };
    let (day, second) = match local_to_utc(day, second) {
        Some(moment) => moment,
        None => { return None; },
    };
    stamp_of(day, second)
}

/// The stamp of the present moment as the machine's clock and time zone
/// give it.
pub(crate) fn current_stamp() -> (text: String)
    ensures
        is_stamp(text@),
{
    let (day, second) = now_local();
    match stamp_of(day, second) {
        Some(text) => text,
        None => String::new(),
    }
}

} // verus!
