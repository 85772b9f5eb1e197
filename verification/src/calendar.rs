//! The calendar of chrono: numbers of days, and dates and times as text.

use crate::model::{Date, DateTime, Time};
use crate::number::digit_char;
use chrono::{Datelike, NaiveDate, NaiveTime};
use vstd::prelude::*;

verus! {

/// The number of the day `year`-`month`-`day` in the calendar of chrono,
/// where day 1 is the first of January of the year 1; none where chrono has
/// no such day.
pub uninterp spec fn day_number_of(year: int, month: int, day: int) -> Option<int>;

/// The year, month and day of the day with the number `n` in the calendar of
/// chrono; none where chrono has no such day.
pub uninterp spec fn civil_of_day_number(n: int) -> Option<(int, int, int)>;

/// `NaiveDate::from_ymd_opt` and `Datelike::num_days_from_ce` of chrono: the
/// number of the given day, counted from the first of January of the year 1
/// as day 1, or nothing where the calendar has no such day.
#[verifier::external_body]
pub(crate) fn days_from_civil(year: i32, month: u32, day: u32) -> (r: Option<i32>)
    ensures
        r is Some <==> day_number_of(year as int, month as int, day as int) is Some,
        r matches Some(n) ==> day_number_of(year as int, month as int, day as int) == Some(
            n as int,
        ) && civil_of_day_number(n as int) == Some((year as int, month as int, day as int)),
{
    NaiveDate::from_ymd_opt(year, month, day).map(|d| d.num_days_from_ce())
}

/// `NaiveDate::from_num_days_from_ce_opt` of chrono, with `Datelike::year`,
/// `month` and `day`: the day with the given number as year, month and day
/// of the month, or nothing where the number is out of chrono's range.
#[verifier::external_body]
pub(crate) fn civil_from_days(n: i32) -> (r: Option<Date>)
    ensures
        r is Some <==> civil_of_day_number(n as int) is Some,
        r matches Some(d) ==> civil_of_day_number(n as int) == Some(
            (d.year as int, d.month as int, d.day as int),
        ) && day_number_of(d.year as int, d.month as int, d.day as int) == Some(n as int),
{
    NaiveDate::from_num_days_from_ce_opt(n).map(
        |d| Date { year: d.year(), month: d.month(), day: d.day() },
    )
}

/// The text that chrono writes for the day `year`-`month`-`day`; none
/// where chrono has no such day.
pub uninterp spec fn date_text(year: int, month: int, day: int) -> Option<Seq<char>>;

/// The text that chrono writes for the day and the time under the pattern
/// `%Y-%m-%d %H:%M:%S`; none where chrono has no such day or time.
pub uninterp spec fn stamp_text(
    year: int,
    month: int,
    day: int,
    hour: int,
    minute: int,
    second: int,
    millisecond: int,
) -> Option<Seq<char>>;

/// The number `n`, below 100, in two digits.
pub open spec fn two_digits(n: int) -> Seq<char> {
    seq![digit_char(n / 10), digit_char(n % 10)]
}

/// The number `n`, below 1000, in three digits.
pub open spec fn three_digits(n: int) -> Seq<char> {
    seq![digit_char(n / 100), digit_char(n / 10 % 10), digit_char(n % 10)]
}

/// A day of a year of four digits at most, as `YYYY-MM-DD`.
pub open spec fn iso_date(year: int, month: int, day: int) -> Seq<char> {
    two_digits(year / 100) + two_digits(year % 100) + seq!['-'] + two_digits(month) + seq!['-']
        + two_digits(day)
}

/// A time of day to the second, as `HH:MM:SS`.
pub open spec fn iso_time(hour: int, minute: int, second: int) -> Seq<char> {
    two_digits(hour) + seq![':'] + two_digits(minute) + seq![':'] + two_digits(second)
}

/// The milliseconds of a time behind its seconds: nothing where there are
/// none, and a point with three digits else.
pub open spec fn iso_millis(millisecond: int) -> Seq<char> {
    if millisecond == 0 {
        Seq::empty()
    } else {
        seq!['.'] + three_digits(millisecond)
    }
}

/// The text that chrono writes for the time of day: `HH:MM:SS`, with a
/// point and the milliseconds in three digits behind it where there are
/// any. There is such a time where the hour is below 24 and the minute and
/// the second below 60; its milliseconds are below 1000, or below 2000 in
/// the 59th second, where they write a leap second as the 60th.
pub open spec fn time_text(hour: int, minute: int, second: int, millisecond: int) -> Option<
    Seq<char>,
> {
    if hour < 24 && minute < 60 && second < 60 && millisecond < 1000 {
        Some(iso_time(hour, minute, second) + iso_millis(millisecond))
    } else if hour < 24 && minute < 60 && second == 59 && millisecond < 2000 {
        Some(iso_time(hour, minute, 60) + iso_millis(millisecond - 1000))
    } else {
        None
    }
}

/// The text of a date.
pub open spec fn text_of_date(d: Date) -> Option<Seq<char>> {
    date_text(d.year as int, d.month as int, d.day as int)
}

/// The text of a time.
pub open spec fn text_of_time(t: Time) -> Option<Seq<char>> {
    time_text(t.hour as int, t.minute as int, t.second as int, t.millisecond as int)
}

/// The text of a date with a time, to the second.
pub open spec fn text_of_stamp(d: DateTime) -> Option<Seq<char>> {
    stamp_text(
        d.date.year as int,
        d.date.month as int,
        d.date.day as int,
        d.time.hour as int,
        d.time.minute as int,
        d.time.second as int,
        d.time.millisecond as int,
    )
}

/// `NaiveDate::from_ymd_opt` of chrono and the `Display` of its result: the
/// date as text, or nothing where the calendar has no such day. A day of a
/// year from 0 to 9999 is written as `YYYY-MM-DD`.
#[verifier::external_body]
pub(crate) fn format_date(date: &Date) -> (r: Option<String>)
    ensures
        r is Some <==> date_text(date.year as int, date.month as int, date.day as int) is Some,
        r matches Some(s) ==> date_text(date.year as int, date.month as int, date.day as int)
            == Some(s@),
        r matches Some(s) ==> (0 <= date.year <= 9999 ==> s@ == iso_date(
            date.year as int,
            date.month as int,
            date.day as int,
        )),
{
    NaiveDate::from_ymd_opt(date.year, date.month, date.day).map(|d| d.to_string())
}

/// `NaiveTime::from_hms_milli_opt` of chrono and the `Display` of its
/// result: the time as text, or nothing where there is no such time of day.
#[verifier::external_body]
pub(crate) fn format_time(time: &Time) -> (r: Option<String>)
    ensures
        r is Some <==> time_text(
            time.hour as int,
            time.minute as int,
            time.second as int,
            time.millisecond as int,
        ) is Some,
        r matches Some(s) ==> time_text(
            time.hour as int,
            time.minute as int,
            time.second as int,
            time.millisecond as int,
        ) == Some(s@),
{
    NaiveTime::from_hms_milli_opt(time.hour, time.minute, time.second, time.millisecond).map(
        |t| t.to_string(),
    )
}

/// `NaiveDate::from_ymd_opt`, `NaiveDate::and_hms_milli_opt` and
/// `NaiveDateTime::format` of chrono, for the one pattern
/// `%Y-%m-%d %H:%M:%S`: the date and the time as text, or nothing where
/// there is no such day or time. A day of a year from 0 to 9999 with a time
/// with milliseconds below 1000 is written as `YYYY-MM-DD HH:MM:SS`.
#[verifier::external_body]
pub(crate) fn format_stamp(stamp: &DateTime, pattern: &str) -> (r: Option<String>)
    requires
        pattern@ == "%Y-%m-%d %H:%M:%S"@,
    ensures
        r is Some <==> stamp_text(
            stamp.date.year as int,
            stamp.date.month as int,
            stamp.date.day as int,
            stamp.time.hour as int,
            stamp.time.minute as int,
            stamp.time.second as int,
            stamp.time.millisecond as int,
        ) is Some,
        r matches Some(s) ==> stamp_text(
            stamp.date.year as int,
            stamp.date.month as int,
            stamp.date.day as int,
            stamp.time.hour as int,
            stamp.time.minute as int,
            stamp.time.second as int,
            stamp.time.millisecond as int,
        ) == Some(s@),
        r matches Some(s) ==> (0 <= stamp.date.year <= 9999 && stamp.time.millisecond < 1000
            ==> s@ == iso_date(
            stamp.date.year as int,
            stamp.date.month as int,
            stamp.date.day as int,
        ) + seq![' '] + iso_time(
            stamp.time.hour as int,
            stamp.time.minute as int,
            stamp.time.second as int,
        )),
{
    let t = stamp.time;
    let date = NaiveDate::from_ymd_opt(stamp.date.year, stamp.date.month, stamp.date.day)?;
    let moment = date.and_hms_milli_opt(t.hour, t.minute, t.second, t.millisecond)?;
    Some(moment.format(pattern).to_string())
}

} // verus!
