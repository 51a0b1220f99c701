//! Wall-clock times of day written as "HH:MM".
//!
//! A time of day is modelled as a minute of the day (`0 <= m < 1440`).
//! Parsing and formatting go through chrono; the arithmetic around them
//! (shifting by a number of minutes, wrapping at midnight) is done here.
use chrono::{NaiveTime, Timelike};
use vstd::arithmetic::div_mod::lemma_add_mod_noop;
use vstd::prelude::*;

verus! {

/// Number of minutes in one day.
pub const MINUTES_PER_DAY: u32 = 1440;

pub open spec fn is_digit(c: char) -> bool {
    '0' <= c && c <= '9'
}

pub open spec fn digit_value(c: char) -> int {
    c as int - '0' as int
}

/// The hour written in the first two characters of an "HH:MM" text.
pub open spec fn hhmm_hour(s: Seq<char>) -> int {
    10 * digit_value(s[0]) + digit_value(s[1])
}

/// The minute written in the last two characters of an "HH:MM" text.
pub open spec fn hhmm_minute(s: Seq<char>) -> int {
    10 * digit_value(s[3]) + digit_value(s[4])
}

/// `s` is exactly two digits, a colon and two digits, naming a valid time of day.
pub open spec fn is_hhmm(s: Seq<char>) -> bool {
    &&& s.len() == 5
    &&& is_digit(s[0])
    &&& is_digit(s[1])
    &&& s[2] == ':'
    &&& is_digit(s[3])
    &&& is_digit(s[4])
    &&& hhmm_hour(s) < 24
    &&& hhmm_minute(s) < 60
}

/// Minute of the day named by a well-formed "HH:MM" text.
pub open spec fn hhmm_minutes(s: Seq<char>) -> int {
    60 * hhmm_hour(s) + hhmm_minute(s)
}

/// Hour and minute that chrono's "%H:%M" parser reads from a text, if it accepts it.
pub uninterp spec fn parsed_hour_minute(s: Seq<char>) -> Option<(u32, u32)>;

/// Minute of the day that a text denotes, as the "%H:%M" parser reads it.
pub open spec fn clock_value(s: Seq<char>) -> Option<int> {
    match parsed_hour_minute(s) {
        Some((h, m)) => Some(60 * h + m),
        None => None,
    }
}

/// `m` shifted by `delta` minutes on a 24-hour dial.
pub open spec fn wrap_minutes(m: int, delta: int) -> int {
    (m + delta) % (MINUTES_PER_DAY as int)
}

/// Relies on chrono's `NaiveTime::parse_from_str` with the format "%H:%M":
/// a well-formed "HH:MM" text is read as its hour and minute, and every
/// accepted text yields a valid time (hour below 24, minute below 60).
#[verifier::external_body]
fn parse_hour_minute(s: &str) -> (r: Option<(u32, u32)>)
    ensures
        r == parsed_hour_minute(s@),
        r matches Some((h, m)) ==> h < 24 && m < 60,
        is_hhmm(s@) ==> r == Some((hhmm_hour(s@) as u32, hhmm_minute(s@) as u32)),
{
    match NaiveTime::parse_from_str(s, "%H:%M") {
        Ok(t) => Some((t.hour(), t.minute())),
        Err(_) => None,
    }
}

/// Relies on chrono's `NaiveTime::from_hms_opt` and its "%H:%M" formatting:
/// the hour and the minute, each zero-padded to two digits, joined by a colon.
#[verifier::external_body]
fn format_hour_minute(hour: u32, minute: u32) -> (r: String)
    requires
        hour < 24,
        minute < 60,
    ensures
        is_hhmm(r@),
        hhmm_hour(r@) == hour,
        hhmm_minute(r@) == minute,
{
    NaiveTime::from_hms_opt(hour, minute, 0).unwrap_or(NaiveTime::MIN).format("%H:%M").to_string()
}

/// Reads an "HH:MM" text as a minute of the day.
pub fn parse_clock_time(s: &str) -> (r: Option<u32>)
    ensures
        match clock_value(s@) {
            Some(v) => r == Some(v as u32) && v < MINUTES_PER_DAY,
            None => r.is_none(),
        },
        is_hhmm(s@) ==> r == Some(hhmm_minutes(s@) as u32),
{
    match parse_hour_minute(s) {
        Some((h, m)) => Some(60 * h + m),
        None => None,
    }
}

/// Writes a minute of the day as an "HH:MM" text.
pub fn format_clock_time(minute: u32) -> (r: String)
    requires
        minute < MINUTES_PER_DAY,
    ensures
        is_hhmm(r@),
        hhmm_minutes(r@) == minute,
{
    format_hour_minute(minute / 60, minute % 60)
}

/// Moves a minute of the day by `delta` minutes, wrapping around midnight
/// in either direction.
pub fn shift_clock(minute: u32, delta: i64) -> (r: u32)
    ensures
        r == wrap_minutes(minute as int, delta as int),
        r < MINUTES_PER_DAY,
{
    let day: i64 = MINUTES_PER_DAY as i64;
    let d: i64 = match delta.checked_rem_euclid(day) {
        Some(v) => v,
        None => 0,
    };
    let m: i64 = (minute % MINUTES_PER_DAY) as i64;
    proof {
        lemma_add_mod_noop(minute as int, delta as int, day as int);
    }
    ((m + d) % day) as u32
}

/// The "HH:MM" time `minutes_before` minutes ahead of `time_str`, on a
/// 24-hour dial; `None` when `time_str` is not a time.
pub fn calculate_reminder_time(time_str: &str, minutes_before: i32) -> (r: Option<String>)
    ensures
        match clock_value(time_str@) {
            Some(v) => r matches Some(t) && is_hhmm(t@) && hhmm_minutes(t@) == wrap_minutes(
                v,
                -minutes_before,
            ),
            None => r.is_none(),
        },
        is_hhmm(time_str@) ==> (r matches Some(t) && hhmm_minutes(t@) == wrap_minutes(
            hhmm_minutes(time_str@),
            -minutes_before,
        )),
{
    match parse_clock_time(time_str) {
        Some(m) => Some(format_clock_time(shift_clock(m, -(minutes_before as i64)))),
        None => None,
    }
}

/// The "HH:MM" time `minutes` minutes after `time_str`, on a 24-hour dial;
/// `None` when `time_str` is not a time.
pub fn time_minutes_after(time_str: &str, minutes: i32) -> (r: Option<String>)
    ensures
        match clock_value(time_str@) {
            Some(v) => r matches Some(t) && is_hhmm(t@) && hhmm_minutes(t@) == wrap_minutes(
                v,
                minutes as int,
            ),
            None => r.is_none(),
        },
        is_hhmm(time_str@) ==> (r matches Some(t) && hhmm_minutes(t@) == wrap_minutes(
            hhmm_minutes(time_str@),
            minutes as int,
        )),
{
    match parse_clock_time(time_str) {
        Some(m) => Some(format_clock_time(shift_clock(m, minutes as i64))),
        None => None,
    }
}

} // verus!
