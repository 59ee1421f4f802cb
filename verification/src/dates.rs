//! Editing a task's due or scheduled time from the page's date and time
//! inputs: a date input (`YYYY-MM-DD`) sets the day and keeps the time of
//! day, a time input (`HH:MM`) sets the time of day and keeps the day; an
//! input that does not parse clears the time. The calendar arithmetic is
//! `chrono`'s; times are milliseconds since the Unix epoch, in UTC.
use vstd::prelude::*;

use crate::task::stored::utc_in_range;
use crate::time::DateTime;

verus! {

/// What `chrono::NaiveDate::parse_from_str(s, "%Y-%m-%d")` reads a text as:
/// year, month and day, or `None` where it refuses the text.
pub uninterp spec fn parsed_date(s: Seq<char>) -> Option<(i32, u32, u32)>;

/// What `chrono::NaiveTime::parse_from_str(s, "%H:%M")` reads a text as:
/// hour and minute, or `None` where it refuses the text.
pub uninterp spec fn parsed_time(s: Seq<char>) -> Option<(u32, u32)>;

/// The instant, in milliseconds, of midnight UTC on a day, as `chrono`
/// computes it, or `None` where there is no such day.
pub uninterp spec fn utc_midnight(year: i32, month: u32, day: u32) -> Option<i64>;

/// The instant `Datelike::with_year` gives for `t` (milliseconds, UTC).
pub uninterp spec fn year_set(t: i64, year: i32) -> Option<i64>;

/// The instant `Datelike::with_month` gives for `t` (milliseconds, UTC).
pub uninterp spec fn month_set(t: i64, month: u32) -> Option<i64>;

/// The instant `Datelike::with_day` gives for `t` (milliseconds, UTC).
pub uninterp spec fn day_set(t: i64, day: u32) -> Option<i64>;

/// Milliseconds in an hour and in a minute.
pub open spec fn hour_millis() -> int {
    3_600_000
}

pub open spec fn minute_millis() -> int {
    60_000
}

/// The instant `Timelike::with_hour` gives for `t` (milliseconds, UTC): the
/// same day, minute, second and millisecond at hour `hour`; nothing for an
/// hour past 23 or an instant `chrono` cannot represent.
pub open spec fn hour_set(t: i64, hour: u32) -> Option<i64> {
    if !utc_in_range(t) || hour >= 24 {
        None
    } else {
        let x = t as int;
        let into_day = x % (24 * hour_millis());
        Some((x - into_day / hour_millis() * hour_millis() + hour * hour_millis()) as i64)
    }
}

/// The instant `Timelike::with_minute` gives for `t` (milliseconds, UTC):
/// the same hour, second and millisecond at minute `minute`; nothing for a
/// minute past 59 or an instant `chrono` cannot represent.
pub open spec fn minute_set(t: i64, minute: u32) -> Option<i64> {
    if !utc_in_range(t) || minute >= 60 {
        None
    } else {
        let x = t as int;
        let into_hour = x % hour_millis();
        Some((x - into_hour / minute_millis() * minute_millis() + minute * minute_millis()) as i64)
    }
}

/// Calls `chrono::NaiveDate::parse_from_str` with the format `%Y-%m-%d`.
/// Claimed: the outcome is the named function `parsed_date` of the text.
#[verifier::external_body]
fn parse_date(s: &str) -> (r: Option<(i32, u32, u32)>)
    ensures
        r == parsed_date(s@),
{
    match chrono::NaiveDate::parse_from_str(s, "%Y-%m-%d") {
        Ok(d) => Some((chrono::Datelike::year(&d), chrono::Datelike::month(&d), chrono::Datelike::day(&d))),
        Err(_) => None,
    }
}

/// Calls `chrono::NaiveTime::parse_from_str` with the format `%H:%M`.
/// Claimed: the outcome is the named function `parsed_time` of the text.
#[verifier::external_body]
fn parse_time(s: &str) -> (r: Option<(u32, u32)>)
    ensures
        r == parsed_time(s@),
{
    match chrono::NaiveTime::parse_from_str(s, "%H:%M") {
        Ok(t) => Some((chrono::Timelike::hour(&t), chrono::Timelike::minute(&t))),
        Err(_) => None,
    }
}

/// Calls `chrono::NaiveDate::from_ymd_opt`, `and_hms_opt(0, 0, 0)` and
/// `and_utc`. Claimed: the outcome is the named function `utc_midnight` of
/// the day.
#[verifier::external_body]
fn midnight(year: i32, month: u32, day: u32) -> (r: Option<i64>)
    ensures
        r == utc_midnight(year, month, day),
{
    match chrono::NaiveDate::from_ymd_opt(year, month, day).and_then(|d| d.and_hms_opt(0, 0, 0)) {
        Some(t) => Some(t.and_utc().timestamp_millis()),
        None => None,
    }
}

/// Calls `Datelike::with_year` on the instant `t`. Claimed: the outcome is
/// the named function `year_set`.
#[verifier::external_body]
fn with_year(t: i64, year: i32) -> (r: Option<i64>)
    ensures
        r == year_set(t, year),
{
    match chrono::DateTime::from_timestamp_millis(t) {
        Some(d) => chrono::Datelike::with_year(&d, year).map(|x| x.timestamp_millis()),
        None => None,
    }
}

/// Calls `Datelike::with_month` on the instant `t`. Claimed: the outcome is
/// the named function `month_set`.
#[verifier::external_body]
fn with_month(t: i64, month: u32) -> (r: Option<i64>)
    ensures
        r == month_set(t, month),
{
    match chrono::DateTime::from_timestamp_millis(t) {
        Some(d) => chrono::Datelike::with_month(&d, month).map(|x| x.timestamp_millis()),
        None => None,
    }
}

/// Calls `Datelike::with_day` on the instant `t`. Claimed: the outcome is
/// the named function `day_set`.
#[verifier::external_body]
fn with_day(t: i64, day: u32) -> (r: Option<i64>)
    ensures
        r == day_set(t, day),
{
    match chrono::DateTime::from_timestamp_millis(t) {
        Some(d) => chrono::Datelike::with_day(&d, day).map(|x| x.timestamp_millis()),
        None => None,
    }
}

/// Calls `Timelike::with_hour` on the instant `t`. Claimed: the outcome is
/// `hour_set`: the hour of the day replaced, where the hour and the instant
/// are valid.
#[verifier::external_body]
fn with_hour(t: i64, hour: u32) -> (r: Option<i64>)
    ensures
        r == hour_set(t, hour),
{
    match chrono::DateTime::from_timestamp_millis(t) {
        Some(d) => chrono::Timelike::with_hour(&d, hour).map(|x| x.timestamp_millis()),
        None => None,
    }
}

/// Calls `Timelike::with_minute` on the instant `t`. Claimed: the outcome
/// is `minute_set`: the minute of the hour replaced, where the minute and
/// the instant are valid.
#[verifier::external_body]
fn with_minute(t: i64, minute: u32) -> (r: Option<i64>)
    ensures
        r == minute_set(t, minute),
{
    match chrono::DateTime::from_timestamp_millis(t) {
        Some(d) => chrono::Timelike::with_minute(&d, minute).map(|x| x.timestamp_millis()),
        None => None,
    }
}

/// The time after a date input: the input's day at midnight when there was
/// no time yet, the time moved to the input's year, month and day
/// otherwise; nothing when the input or the move fails.
pub open spec fn date_edited(current: Option<DateTime>, input: Seq<char>) -> Option<DateTime> {
    match parsed_date(input) {
        None => None,
        Some((y, m, d)) => match current {
            None => match utc_midnight(y, m, d) {
                Some(t) => Some(DateTime(t)),
                None => None,
            },
            Some(c) => match year_set(c.0, y) {
                Some(a) => match month_set(a, m) {
                    Some(b) => match day_set(b, d) {
                        Some(t) => Some(DateTime(t)),
                        None => None,
                    },
                    None => None,
                },
                None => None,
            },
        },
    }
}

/// The time after a time input: the time (or `now`, when there was none)
/// moved to the input's hour and minute; nothing when the input or the move
/// fails.
pub open spec fn time_edited(current: Option<DateTime>, input: Seq<char>, now: DateTime) -> Option<DateTime> {
    match parsed_time(input) {
        None => None,
        Some((h, mi)) => {
            let base = match current {
                Some(c) => c,
                None => now,
            };
            match hour_set(base.0, h) {
                Some(a) => match minute_set(a, mi) {
                    Some(t) => Some(DateTime(t)),
                    None => None,
                },
                None => None,
            }
        },
    }
}

/// The time after a date input.
pub fn edit_date(current: Option<DateTime>, input: &str) -> (r: Option<DateTime>)
    ensures
        r == date_edited(current, input@),
{
    match parse_date(input) {
        None => None,
        Some((y, m, d)) => match current {
            None => match midnight(y, m, d) {
                Some(t) => Some(DateTime(t)),
                None => None,
            },
            Some(c) => match with_year(c.0, y) {
                Some(a) => match with_month(a, m) {
                    Some(b) => match with_day(b, d) {
                        Some(t) => Some(DateTime(t)),
                        None => None,
                    },
                    None => None,
                },
                None => None,
            },
        },
    }
}

/// The time after a time input, `now` standing in for a missing time.
pub fn edit_time(current: Option<DateTime>, input: &str, now: DateTime) -> (r: Option<DateTime>)
    ensures
        r == time_edited(current, input@, now),
{
    match parse_time(input) {
        None => None,
        Some((h, mi)) => {
            let base = match current {
                Some(c) => c,
                None => now,
            };
            match with_hour(base.0, h) {
                Some(a) => match with_minute(a, mi) {
                    Some(t) => Some(DateTime(t)),
                    None => None,
                },
                None => None,
            }
        },
    }
}

} // verus!
