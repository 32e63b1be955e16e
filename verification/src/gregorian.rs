//! The standard calendar: proleptic Gregorian dates through a date library.
//!
//! The library's own value type [`Moment`] holds a wall-clock date and time
//! as plain fields.  What only the date library can compute — shifting a
//! moment by an elapsed duration, and rendering it with strftime-style
//! templates — sits behind trusted wrappers from plain values to plain
//! values; everything around them is verified.

use std::fmt::Write;
use chrono::Datelike;
use chrono::Timelike;
use vstd::prelude::*;

verus! {

/// A calendar-agnostic timestamp: a date and time of day, as plain fields.
#[derive(Clone, Copy, Debug, PartialEq, Eq, Structural)]
pub struct Moment {
    /// Calendar year.
    pub year: i32,
    /// Month of the year, counted from 1.
    pub month: u32,
    /// Day of the month, counted from 1.
    pub day: u32,
    /// Hour of the day, from 0.
    pub hour: u32,
    /// Minute of the hour, from 0.
    pub minute: u32,
    /// Second of the minute, from 0.
    pub second: u32,
}

impl Moment {
    /// Bundles the six components into a moment.
    pub fn new(year: i32, month: u32, day: u32, hour: u32, minute: u32, second: u32) -> (r:
        Moment)
        ensures
            r == (Moment { year, month, day, hour, minute, second }),
    {
        Moment { year, month, day, hour, minute, second }
    }
}

/// What the date library answers when a moment is shifted by a number of
/// milliseconds on the proleptic Gregorian calendar: the shifted
/// components, or nothing where the input or the result is out of its
/// range.  A function of the arguments alone.
pub uninterp spec fn greg_shift_spec(
    year: i32,
    month: u32,
    day: u32,
    hour: u32,
    minute: u32,
    second: u32,
    delta_ms: i64,
) -> Option<(i32, u32, u32, u32, u32, u32)>;

/// What the date library renders for a shifted moment and a strftime-style
/// template: the text, or nothing where the input is out of range or the
/// template invalid.  A function of the arguments alone.
pub uninterp spec fn greg_format_spec(
    year: i32,
    month: u32,
    day: u32,
    hour: u32,
    minute: u32,
    second: u32,
    delta_ms: i64,
    fmt: Seq<char>,
) -> Option<Seq<char>>;

/// The moment `delta_ms` milliseconds after `m`, or `m` unchanged where the
/// date library cannot represent the input or the result.
pub open spec fn spec_greg_shifted(m: Moment, delta_ms: i64) -> Moment {
    match greg_shift_spec(m.year, m.month, m.day, m.hour, m.minute, m.second, delta_ms) {
        Some(t) => Moment { year: t.0, month: t.1, day: t.2, hour: t.3, minute: t.4, second: t.5 },
        None => m,
    }
}

/// The text for the moment `delta_ms` after `m` under template `fmt`, or
/// the empty text where the date library cannot render it.
pub open spec fn spec_greg_formatted(m: Moment, delta_ms: i64, fmt: Seq<char>) -> Seq<char> {
    match greg_format_spec(m.year, m.month, m.day, m.hour, m.minute, m.second, delta_ms, fmt) {
        Some(s) => s,
        None => Seq::empty(),
    }
}

/// Relies on chrono's `NaiveDate::from_ymd_opt`, `NaiveDate::and_hms_opt`,
/// `TimeDelta::try_milliseconds` and `NaiveDateTime::checked_add_signed`:
/// shifts a Gregorian moment by milliseconds, `None` on anything out of the
/// library's range.  The accessors document month in 1..=12, day in 1..=31,
/// hour below 24, minute and second below 60.
#[verifier::external_body]
pub(crate) fn greg_shift(m: &Moment, delta_ms: i64) -> (r: Option<(i32, u32, u32, u32, u32, u32)>)
    ensures
        r == greg_shift_spec(m.year, m.month, m.day, m.hour, m.minute, m.second, delta_ms),
        match r {
            Some(t) => 1 <= t.1 <= 12 && 1 <= t.2 <= 31 && t.3 < 24 && t.4 < 60 && t.5 < 60,
            None => true,
        },
{
    let date = chrono::NaiveDate::from_ymd_opt(m.year, m.month, m.day)?;
    let dt = date.and_hms_opt(m.hour, m.minute, m.second)?;
    let delta = chrono::TimeDelta::try_milliseconds(delta_ms)?;
    let s = dt.checked_add_signed(delta)?;
    Some((s.year(), s.month(), s.day(), s.hour(), s.minute(), s.second()))
}

/// Relies on chrono's strftime formatting (`NaiveDateTime::format`), after
/// the same shift as `greg_shift`: renders the shifted moment, `None` on an
/// out-of-range input or an invalid template.
#[verifier::external_body]
pub(crate) fn greg_format(m: &Moment, delta_ms: i64, fmt: &str) -> (r: Option<String>)
    ensures
        match r {
            Some(s) => greg_format_spec(
                m.year,
                m.month,
                m.day,
                m.hour,
                m.minute,
                m.second,
                delta_ms,
                fmt@,
            ) == Some(s@),
            None => greg_format_spec(
                m.year,
                m.month,
                m.day,
                m.hour,
                m.minute,
                m.second,
                delta_ms,
                fmt@,
            ) is None,
        },
{
    let date = chrono::NaiveDate::from_ymd_opt(m.year, m.month, m.day)?;
    let dt = date.and_hms_opt(m.hour, m.minute, m.second)?;
    let delta = chrono::TimeDelta::try_milliseconds(delta_ms)?;
    let shifted = dt.checked_add_signed(delta)?;
    let mut out = String::new();
    write!(out, "{}", shifted.format(fmt)).ok()?;
    Some(out)
}

/// Relies on chrono's `Utc::now`: the current wall-clock time read from the
/// system clock.  Nothing is assumed of the value beyond the accessors'
/// documented component ranges.
#[verifier::external_body]
pub(crate) fn now_moment() -> (r: Moment)
    ensures
        1 <= r.month <= 12 && 1 <= r.day <= 31 && r.hour < 24 && r.minute < 60 && r.second < 60,
{
    let now = chrono::Utc::now().naive_utc();
    Moment {
        year: now.year(),
        month: now.month(),
        day: now.day(),
        hour: now.hour(),
        minute: now.minute(),
        second: now.second(),
    }
}

/// The standard proleptic Gregorian calendar, with the usual fixed time
/// units; all date arithmetic is delegated to the date library.
#[derive(Clone, Copy, Debug)]
pub struct GregorianCalendar;

impl GregorianCalendar {
    /// The date `elapsed_ms` after `start`, as (year, month, day).
    pub fn get_date(&self, elapsed_ms: i64, start: &Moment) -> (r: (i32, u32, u32))
        ensures
            ({
                let s = spec_greg_shifted(*start, elapsed_ms);
                r == (s.year, s.month, s.day)
            }),
    {
        match greg_shift(start, elapsed_ms) {
            Some(t) => (t.0, t.1, t.2),
            None => (start.year, start.month, start.day),
        }
    }

    /// The time of day `elapsed_ms` after `start`, as (hour, minute, second).
    pub fn get_time(&self, elapsed_ms: i64, start: &Moment) -> (r: (u32, u32, u32))
        ensures
            ({
                let s = spec_greg_shifted(*start, elapsed_ms);
                r == (s.hour, s.minute, s.second)
            }),
    {
        match greg_shift(start, elapsed_ms) {
            Some(t) => (t.3, t.4, t.5),
            None => (start.hour, start.minute, start.second),
        }
    }

    /// Renders the date `elapsed_ms` after `start`; the default template
    /// yields `YYYY-MM-DD`.
    pub fn format_date(&self, elapsed_ms: i64, start: &Moment, format: Option<&str>) -> (r:
        String)
        ensures
            r@ == spec_greg_formatted(
                *start,
                elapsed_ms,
                match format {
                    Some(f) => f@,
                    None => "%Y-%m-%d"@,
                },
            ),
    {
        let fmt = match format {
            Some(f) => f,
            None => "%Y-%m-%d",
        };
        match greg_format(start, elapsed_ms, fmt) {
            Some(s) => s,
            None => String::new(),
        }
    }

    /// Renders the time of day `elapsed_ms` after `start`; the default
    /// template yields `HH:MM:SS`.
    pub fn format_time(&self, elapsed_ms: i64, start: &Moment, format: Option<&str>) -> (r:
        String)
        ensures
            r@ == spec_greg_formatted(
                *start,
                elapsed_ms,
                match format {
                    Some(f) => f@,
                    None => "%H:%M:%S"@,
                },
            ),
    {
        let fmt = match format {
            Some(f) => f,
            None => "%H:%M:%S",
        };
        match greg_format(start, elapsed_ms, fmt) {
            Some(s) => s,
            None => String::new(),
        }
    }

    /// Renders date and time together; the default template yields
    /// `YYYY-MM-DD HH:MM:SS`.
    pub fn format_datetime(&self, elapsed_ms: i64, start: &Moment, format: Option<&str>) -> (r:
        String)
        ensures
            r@ == spec_greg_formatted(
                *start,
                elapsed_ms,
                match format {
                    Some(f) => f@,
                    None => "%Y-%m-%d %H:%M:%S"@,
                },
            ),
    {
        let fmt = match format {
            Some(f) => f,
            None => "%Y-%m-%d %H:%M:%S",
        };
        match greg_format(start, elapsed_ms, fmt) {
            Some(s) => s,
            None => String::new(),
        }
    }
}

} // verus!
