//! Dates and times as plain numbers, and their text forms as the `chrono`
//! crate reads and writes them.

use vstd::prelude::*;
use crate::wire::{ConvertError, ConvertErrorView, DataType, WireKind, WireValue};

verus! {

/// An instant in UTC: whole seconds since 1970-01-01T00:00:00Z and the
/// nanoseconds into that second.
#[derive(Debug, Clone, Copy, PartialEq, Eq, Structural)]
pub struct Timestamp {
    pub secs: i64,
    pub nanos: u32,
}

/// A day of the proleptic Gregorian calendar.
#[derive(Debug, Clone, Copy, PartialEq, Eq, Structural)]
pub struct CalendarDate {
    pub year: i32,
    pub month: u32,
    pub day: u32,
}

/// A time of day: seconds since midnight and the nanoseconds into that second.
#[derive(Debug, Clone, Copy, PartialEq, Eq, Structural)]
pub struct ClockTime {
    pub secs: u32,
    pub nanos: u32,
}

/// A date and time of day without a time zone, counted as the seconds that
/// lie between 1970-01-01 00:00:00 and it, and the nanoseconds into that second.
#[derive(Debug, Clone, Copy, PartialEq, Eq, Structural)]
pub struct CivilDateTime {
    pub secs: i64,
    pub nanos: u32,
}

/// The instant that `chrono` reads from an RFC 3339 text: seconds and
/// nanoseconds since the epoch, or `None` where the text is not RFC 3339.
pub uninterp spec fn rfc3339_instant(raw: Seq<char>) -> Option<(i64, u32)>;

/// The date and time that `chrono` reads from a text by a format of its
/// own notation, counted from 1970-01-01 00:00:00, or `None` where the text
/// does not have that form.
pub uninterp spec fn naive_instant(raw: Seq<char>, format: Seq<char>) -> Option<(i64, u32)>;

/// The RFC 3339 text that `chrono` writes for an instant, or `None` where
/// the instant lies outside the years that `chrono` can hold.
pub uninterp spec fn rfc3339_text(secs: i64, nanos: u32) -> Option<Seq<char>>;

/// The text that `chrono` writes for a calendar day, or `None` where there
/// is no such day.
pub uninterp spec fn date_text(year: i32, month: u32, day: u32) -> Option<Seq<char>>;

/// The text that `chrono` writes for a time of day, or `None` where there is
/// no such time.
pub uninterp spec fn time_text(secs: u32, nanos: u32) -> Option<Seq<char>>;

/// The text that `chrono` writes for a date and time without a zone, or
/// `None` where it lies outside the years that `chrono` can hold.
pub uninterp spec fn civil_text(secs: i64, nanos: u32) -> Option<Seq<char>>;

/// Seconds and nanoseconds as a timestamp.
pub open spec fn instant(parts: Option<(i64, u32)>) -> Option<Timestamp> {
    match parts {
        Some((secs, nanos)) => Some(Timestamp { secs, nanos }),
        None => None,
    }
}

/// The instant that a timestamp text stands for: read as RFC 3339 where that
/// succeeds, else as `%Y-%m-%d %H:%M:%S%.f` taken as UTC.
pub open spec fn timestamp_of_text(raw: Seq<char>) -> Option<Timestamp> {
    match rfc3339_instant(raw) {
        Some(parts) => instant(Some(parts)),
        None => instant(naive_instant(raw, "%Y-%m-%d %H:%M:%S%.f"@)),
    }
}

/// Calls `chrono::DateTime::parse_from_rfc3339` and moves the result to UTC.
/// The contract names what comes back: the call reads nothing but its text.
#[verifier::external_body]
fn parse_rfc3339(raw: &str) -> (r: Option<Timestamp>)
    ensures
        r == instant(rfc3339_instant(raw@)),
{
    match chrono::DateTime::parse_from_rfc3339(raw) {
        Ok(parsed) => {
            let utc = parsed.with_timezone(&chrono::Utc);
            Some(Timestamp { secs: utc.timestamp(), nanos: utc.timestamp_subsec_nanos() })
        },
        Err(_) => None,
    }
}

/// Calls `chrono::NaiveDateTime::parse_from_str` and takes the result as
/// UTC. The contract names what comes back: the call reads nothing but the
/// text and the format.
#[verifier::external_body]
fn parse_naive(raw: &str, format: &str) -> (r: Option<Timestamp>)
    ensures
        r == instant(naive_instant(raw@, format@)),
{
    match chrono::NaiveDateTime::parse_from_str(raw, format) {
        Ok(parsed) => {
            let utc = parsed.and_utc();
            Some(Timestamp { secs: utc.timestamp(), nanos: utc.timestamp_subsec_nanos() })
        },
        Err(_) => None,
    }
}

/// Calls `chrono::DateTime::to_rfc3339` on the instant that
/// `chrono::DateTime::from_timestamp` makes of the two numbers; `None` where
/// that makes none.
#[verifier::external_body]
fn format_rfc3339(secs: i64, nanos: u32) -> (r: Option<String>)
    ensures
        crate::wire::text_view(r) == rfc3339_text(secs, nanos),
{
    match chrono::DateTime::from_timestamp(secs, nanos) {
        Some(utc) => Some(utc.to_rfc3339()),
        None => None,
    }
}

/// Writes the day that `chrono::NaiveDate::from_ymd_opt` makes of the three
/// numbers, as `chrono` displays it; `None` where that makes none.
#[verifier::external_body]
fn format_date(year: i32, month: u32, day: u32) -> (r: Option<String>)
    ensures
        crate::wire::text_view(r) == date_text(year, month, day),
{
    match chrono::NaiveDate::from_ymd_opt(year, month, day) {
        Some(date) => Some(date.to_string()),
        None => None,
    }
}

/// Writes the time that `chrono::NaiveTime::from_num_seconds_from_midnight_opt`
/// makes of the two numbers, as `chrono` displays it; `None` where that
/// makes none.
#[verifier::external_body]
fn format_time(secs: u32, nanos: u32) -> (r: Option<String>)
    ensures
        crate::wire::text_view(r) == time_text(secs, nanos),
{
    match chrono::NaiveTime::from_num_seconds_from_midnight_opt(secs, nanos) {
        Some(time) => Some(time.to_string()),
        None => None,
    }
}

/// Writes the date and time that `chrono::DateTime::from_timestamp` makes of
/// the two numbers, without its zone, as `chrono` displays it; `None` where
/// that makes none.
#[verifier::external_body]
fn format_civil(secs: i64, nanos: u32) -> (r: Option<String>)
    ensures
        crate::wire::text_view(r) == civil_text(secs, nanos),
{
    match chrono::DateTime::from_timestamp(secs, nanos) {
        Some(utc) => Some(utc.naive_utc().to_string()),
        None => None,
    }
}

impl Timestamp {
    /// Reads a timestamp text: RFC 3339 first, then `%Y-%m-%d %H:%M:%S%.f`
    /// taken as UTC.
    pub fn parse(raw: &str) -> (r: Option<Timestamp>)
        ensures
            r == timestamp_of_text(raw@),
    {
        match parse_rfc3339(raw) {
            Some(t) => Some(t),
            None => parse_naive(raw, "%Y-%m-%d %H:%M:%S%.f"),
        }
    }

    /// The RFC 3339 text of the instant, such as `2024-01-15T10:30:45.123+00:00`.
    pub fn to_rfc3339(&self) -> (r: Option<String>)
        ensures
            crate::wire::text_view(r) == rfc3339_text(self.secs, self.nanos),
    {
        format_rfc3339(self.secs, self.nanos)
    }
}

impl CalendarDate {
    /// The text of the day, such as `2024-01-15`.
    pub fn to_text(&self) -> (r: Option<String>)
        ensures
            crate::wire::text_view(r) == date_text(self.year, self.month, self.day),
    {
        format_date(self.year, self.month, self.day)
    }
}

impl ClockTime {
    /// The text of the time of day, such as `10:30:45`.
    pub fn to_text(&self) -> (r: Option<String>)
        ensures
            crate::wire::text_view(r) == time_text(self.secs, self.nanos),
    {
        format_time(self.secs, self.nanos)
    }
}

impl CivilDateTime {
    /// The text of the date and time, such as `2024-01-15 10:30:45`.
    pub fn to_text(&self) -> (r: Option<String>)
        ensures
            crate::wire::text_view(r) == civil_text(self.secs, self.nanos),
    {
        format_civil(self.secs, self.nanos)
    }
}

/// The instant that `value` holds.
///
/// A value that is not a non-null timestamp is a mismatch; a timestamp whose
/// text has neither accepted form is unsupported, and the error holds the text.
pub fn as_timestamp(value: &DataType) -> (r: Result<Timestamp, ConvertError>)
    ensures
        match value@ {
            WireValue::Timestamp(Some(raw)) => match timestamp_of_text(raw) {
                Some(t) => r == Ok::<Timestamp, ConvertError>(t),
                None => r is Err && r->Err_0@ == ConvertErrorView::UnsupportedTimestamp(raw),
            },
            other => r is Err && r->Err_0@ == (ConvertErrorView::Mismatch {
                expected: WireKind::Timestamp,
                got: other.kind(),
            }),
        },
{
    match value {
        DataType::Timestamp(Some(raw)) => {
            match Timestamp::parse(raw.as_str()) {
                Some(t) => Ok(t),
                None => Err(ConvertError::UnsupportedTimestamp(raw.clone())),
            }
        },
        _ => Err(ConvertError::Mismatch {
            expected: WireKind::Timestamp,
            got: crate::wire::kind_of(value),
        }),
    }
}

} // verus!
