//! The days that one refresh cycle asks the provider for, and what a day
//! query says.
//!
//! A day is held as its number in the proleptic Gregorian calendar, with
//! January 1 of the year 1 as day 1, as `chrono` counts. `chrono` finds the
//! first day of a week and writes a date and time; which day a week begins
//! with and the arithmetic on the day numbers are decided here.

use crate::stamps::{now_local, EPOCH_EVE};
use crate::text::{pair, pair_views, replace, replace_seq};
use chrono::Datelike;
use vstd::prelude::*;

verus! {

/// The number of days before the Monday of the current week at which the
/// window begins.
pub const NEGATIVE_OFFSET: i32 = 14;

/// The number of days from the Monday of the current week at which the
/// window ends.
pub const POSITIVE_OFFSET: i32 = 56;

/// The number of the first day that has a date: January 1 of the year
/// -262143.
pub const FIRST_DAY: i32 = -95_746_129;

/// The number of the last day that has a date: December 31 of the year
/// 262142.
pub const LAST_DAY: i32 = 95_745_399;

/// The number of the weekday with which a week begins here: Monday, the
/// first in the count from Monday to Sunday.
pub const WEEK_BEGINS: u8 = 0;

/// The number of spans of days in which the homework is asked for.
pub const HOMEWORK_WINDOWS: i32 = 12;

/// The day has a date.
pub open spec fn has_date(day: int) -> bool {
    FIRST_DAY <= day <= LAST_DAY
}

/// The first day of the week of the day `day`, for weeks that begin with
/// the weekday `first`, counted from Monday as 0 to Sunday as 6: the latest
/// day on or before `day` that falls on that weekday. Day 1 is a Monday.
/// `None` where the day or that first day has no date, or `first` is no
/// weekday.
pub open spec fn week_start_of(day: int, first: int) -> Option<int> {
    let start = day - ((day - 1 - first) % 7);
    if 0 <= first < 7 && has_date(day) && has_date(start) {
        Some(start)
    } else {
        None
    }
}

/// The Monday on or before the day `day`; `None` where the day or that
/// Monday has no date.
pub open spec fn monday_of(day: int) -> Option<int> {
    week_start_of(day, WEEK_BEGINS as int)
}

/// The text that `chrono` writes for the day `day` at the given hour,
/// minute and second; `None` where it has no such date or time.
pub uninterp spec fn datetime_text(day: int, hour: int, minute: int, second: int) -> Option<
    Seq<char>,
>;

/// The days of the window that begins on the day `start`: that day and
/// the days after it, 70 in all, or fewer where day numbers end before.
pub open spec fn days_from(start: int) -> Seq<int> {
    let wanted = NEGATIVE_OFFSET + POSITIVE_OFFSET;
    let left = i32::MAX - start + 1;
    Seq::new(
        (if left < wanted {
            left
        } else {
            wanted
        }) as nat,
        |i: int| start + i,
    )
}

/// The days of the window around the week that begins on the Monday
/// `monday`: from two weeks before it to eight weeks after it. There is no
/// window where its first day cannot be held.
pub open spec fn window_around(monday: int) -> Seq<int> {
    if monday - NEGATIVE_OFFSET >= i32::MIN {
        days_from(monday - NEGATIVE_OFFSET)
    } else {
        Seq::empty()
    }
}

/// The days of the window of a cycle that runs on the day `today`, in
/// their order; none where the Monday of its week is not known.
pub open spec fn window_of(today: int) -> Seq<int> {
    match monday_of(today) {
        Some(monday) => window_around(monday),
        None => Seq::empty(),
    }
}

/// What a day query says whose first and last second are written as
/// `first` and `last`: the element asked for, and the two moments with a
/// `T` between date and time.
pub open spec fn params_between(first: Seq<char>, last: Seq<char>) -> Seq<(Seq<char>, Seq<char>)> {
    seq![
        ("elementId"@, "1708"@),
        ("elementType"@, "1"@),
        ("startDateTime"@, replace_seq(first, " "@, "T"@)),
        ("endDateTime"@, replace_seq(last, " "@, "T"@)),
    ]
}

/// What a query for the days from `first` to `last` says: the element
/// asked for, the first second of the first day and the last second of the
/// last; `None` where one of the two days has no date.
pub open spec fn span_params(first: int, last: int) -> Option<Seq<(Seq<char>, Seq<char>)>> {
    match (datetime_text(first, 0, 0, 0), datetime_text(last, 23, 59, 59)) {
        (Some(begin), Some(end)) => Some(params_between(begin, end)),
        _ => None,
    }
}

/// What a query for the day `day` says; `None` for a day that has no
/// date.
pub open spec fn params_of(day: int) -> Option<Seq<(Seq<char>, Seq<char>)>> {
    span_params(day, day)
}

/// The first and the last day of the homework span of the index `index`
/// for the week that begins on `monday`: the spans begin one day after the
/// other, and each is one day longer than the one before.
pub open spec fn homework_span(monday: int, index: int) -> (int, int) {
    (monday + index, monday + 2 * index)
}

/// What the homework query of the index `index` says for the week that
/// begins on `monday`.
pub open spec fn homework_params_of(monday: int, index: int) -> Option<
    Seq<(Seq<char>, Seq<char>)>,
> {
    if 0 <= index < HOMEWORK_WINDOWS && monday + 2 * index <= i32::MAX {
        span_params(homework_span(monday, index).0, homework_span(monday, index).1)
    } else {
        None
    }
}

/// The view of a list of days.
pub open spec fn day_views(days: Seq<i32>) -> Seq<int> {
    Seq::new(days.len(), |i: int| days[i] as int)
}

/// The first day of the week of a day, through `chrono`:
/// `NaiveDate::from_num_days_from_ce_opt`, `Weekday::try_from` for the
/// weekday with which weeks begin, `NaiveDate::week`,
/// `NaiveWeek::checked_first_day` and `Datelike::num_days_from_ce`. The
/// first day of a week is the day itself less the days that its weekday
/// lies behind the first weekday, and day 1 is a Monday.
#[verifier::external_body]
fn week_start(day: i32, first: u8) -> (res: Option<i32>)
    ensures
        res is Some <==> week_start_of(day as int, first as int) is Some,
        res matches Some(start) ==> week_start_of(day as int, first as int) == Some(start as int),
{
    let date = chrono::NaiveDate::from_num_days_from_ce_opt(day)?;
    let first = chrono::Weekday::try_from(first).ok()?;
    let start = date.week(first).checked_first_day()?;
    Some(start.num_days_from_ce())
}

/// A date and time as `chrono` writes it: `NaiveDate::from_num_days_from_ce_opt`,
/// `NaiveDate::and_hms_opt` and the `to_string` of the `NaiveDateTime`.
/// There is a text for every day that has a date and every hour below 24,
/// minute below 60 and second below 60.
#[verifier::external_body]
fn day_time_text(day: i32, hour: u32, minute: u32, second: u32) -> (res: Option<String>)
    ensures
        (res is Some) == (has_date(day as int) && hour < 24 && minute < 60 && second < 60),
        res is Some <==> datetime_text(day as int, hour as int, minute as int, second as int)
            is Some,
        res matches Some(text) ==> datetime_text(
            day as int,
            hour as int,
            minute as int,
            second as int,
        ) == Some(text@),
{
    let date = chrono::NaiveDate::from_num_days_from_ce_opt(day)?;
    let moment = date.and_hms_opt(hour, minute, second)?;
    Some(moment.to_string())
}

/// The days of the window around the week that begins on `monday`.
pub fn window_from(monday: i32) -> (days: Vec<i32>)
    ensures
        day_views(days@) == window_around(monday as int),
{
    let mut days: Vec<i32> = Vec::new();
    if monday < i32::MIN + NEGATIVE_OFFSET {
        assert(day_views(days@) =~= window_around(monday as int));
        return days;
    }
    let start: i32 = monday - NEGATIVE_OFFSET;
    let mut i: i32 = 0;
    while i < NEGATIVE_OFFSET + POSITIVE_OFFSET && start <= i32::MAX - i
        invariant
            0 <= i <= NEGATIVE_OFFSET + POSITIVE_OFFSET,
            i <= i32::MAX - start + 1,
            days@.len() == i,
            forall|k: int| 0 <= k < i ==> days@[k] == start + k,
        decreases NEGATIVE_OFFSET + POSITIVE_OFFSET - i,
    {
        days.push(start + i);
        i = i + 1;
    }
    assert(day_views(days@) =~= days_from(start as int));
    days
}

/// The Monday on or before a day; `None` where the day or that Monday has
/// no date.
pub fn monday_before(day: i32) -> (res: Option<i32>)
    ensures
        res is Some <==> monday_of(day as int) is Some,
        res matches Some(monday) ==> monday_of(day as int) == Some(monday as int),
{
    week_start(day, WEEK_BEGINS)
}

/// The days of the window of a cycle that runs on the day `today`: the
/// window around the week of that day. It begins two weeks and at most six
/// days before the day itself.
pub fn window_days(today: i32) -> (days: Vec<i32>)
    ensures
        day_views(days@) == window_of(today as int),
        days@.len() > 0 ==> today - NEGATIVE_OFFSET - 6 <= days@[0] <= today - NEGATIVE_OFFSET,
{
    match monday_before(today) {
        Some(monday) => {
            let days = window_from(monday);
            proof {
                if days@.len() > 0 {
                    let window = window_around(monday as int);
                    assert(window.len() == days@.len());
                    assert(window == days_from(monday - NEGATIVE_OFFSET));
                    assert(window[0] == monday - NEGATIVE_OFFSET);
                    assert(day_views(days@)[0] == days@[0]);
                }
            }
            days
        },
        None => {
            let days: Vec<i32> = Vec::new();
            assert(day_views(days@) =~= window_of(today as int));
            days
        },
    }
}

/// The day of today by the machine's clock and time zone: a day with a
/// date, not before the last day of 1969.
fn today() -> (day: i32)
    ensures
        EPOCH_EVE <= day <= LAST_DAY,
{
    now_local().0
}

/// The Monday of the week of today: that of `monday_of` for the day that
/// the clock gave, which is not before the last day of 1969.
pub fn current_monday() -> (monday: i32)
    ensures
        exists|today: int|
            EPOCH_EVE <= today <= LAST_DAY && #[trigger] monday_of(today) == Some(monday as int),
{
    let day = today();
    match monday_before(day) {
        Some(monday) => {
            assert(monday_of(day as int) == Some(monday as int));
            monday
        },
        None => day,
    }
}

/// The days of the window of a cycle that runs today: the 70 days of
/// `window_of` for the day that the clock gave, which is not before the
/// last day of 1969.
pub fn current_window() -> (days: Vec<i32>)
    ensures
        days@.len() == NEGATIVE_OFFSET + POSITIVE_OFFSET,
        exists|today: int|
            EPOCH_EVE <= today <= LAST_DAY && day_views(days@) == #[trigger] window_of(today),
{
    let day = today();
    let days = window_days(day);
    proof {
        let monday = day - ((day - 1) % 7);
        assert(monday_of(day as int) == Some(monday));
        assert(window_of(day as int) == days_from(monday - NEGATIVE_OFFSET));
        assert(day_views(days@).len() == days@.len());
    }
    days
}

/// What a day query says whose first and last second are written as
/// `first` and `last`.
pub fn params_from(first: &str, last: &str) -> (params: Vec<(String, String)>)
    ensures
        pair_views(params@) == params_between(first@, last@),
{
    let mut params: Vec<(String, String)> = Vec::new();
    params.push(pair("elementId", "1708".to_owned()));
    params.push(pair("elementType", "1".to_owned()));
    params.push(pair("startDateTime", replace(first, " ", "T")));
    params.push(pair("endDateTime", replace(last, " ", "T")));
    assert(pair_views(params@) =~= params_between(first@, last@));
    params
}

/// What a query for the days from `first` to `last` says; `None` where one
/// of the two has no date.
pub fn params_for_span(first: i32, last: i32) -> (res: Option<Vec<(String, String)>>)
    ensures
        res is Some <==> has_date(first as int) && has_date(last as int),
        res is Some <==> span_params(first as int, last as int) is Some,
        res matches Some(params) ==> Some(pair_views(params@)) == span_params(
            first as int,
            last as int,
        ),
{
    let begin = match day_time_text(first, 0, 0, 0) {
        Some(text) => text,
        None => { return None; },
    };
    let end = match day_time_text(last, 23, 59, 59) {
        Some(text) => text,
        None => { return None; },
    };
    Some(params_from(begin.as_str(), end.as_str()))
}

/// What a query for one day says; `None` for a day that has no date.
pub fn generate_params_for_date(date: i32) -> (res: Option<Vec<(String, String)>>)
    ensures
        res is Some <==> has_date(date as int),
        res is Some <==> params_of(date as int) is Some,
        res matches Some(params) ==> Some(pair_views(params@)) == params_of(date as int),
{
    params_for_span(date, date)
}

/// The days of one of the spans in which the homework is asked for: the
/// span of the index `index` begins so many days after `monday` and is so
/// many days longer than one day. `None` for an index outside the spans and
/// where the last day cannot be held.
pub fn homework_days(monday: i32, index: i32) -> (res: Option<(i32, i32)>)
    ensures
        res is Some <==> 0 <= index < HOMEWORK_WINDOWS && monday + 2 * index <= i32::MAX,
        res matches Some(days) ==> (days.0 as int, days.1 as int) == homework_span(
            monday as int,
            index as int,
        ),
{
    if index < 0 || index >= HOMEWORK_WINDOWS || monday > i32::MAX - 2 * index {
        None
    } else {
        Some((monday + index, monday + 2 * index))
    }
}

/// What the homework query of the index `index` says for the week that
/// begins on `monday`; `None` for an index outside the spans and where a
/// day of the span has no date.
pub fn homework_params(monday: i32, index: i32) -> (res: Option<Vec<(String, String)>>)
    ensures
        res is Some <==> homework_params_of(monday as int, index as int) is Some,
        res matches Some(params) ==> Some(pair_views(params@)) == homework_params_of(
            monday as int,
            index as int,
        ),
{
    match homework_days(monday, index) {
        Some((first, last)) => params_for_span(first, last),
        None => None,
    }
}

} // verus!
