//! Dates and times of documents, and their reading from text.

use crate::utils::text::{trim, trimmed};
use chrono::{Datelike, Timelike};
use vstd::prelude::*;
use vstd::utf8::encode_utf8;

verus! {

/// The error type of the crate `chrono` for a text that is no date.
#[verifier::external_type_specification]
#[verifier::external_body]
pub struct ExChronoParseError(chrono::ParseError);

/// A calendar date with a time of day, without a time zone.
#[derive(Clone, Copy, Debug, PartialEq, Eq, Structural)]
pub struct DateTime {
    pub year: i32,
    pub month: u32,
    pub day: u32,
    pub hour: u32,
    pub minute: u32,
    pub second: u32,
    pub nanosecond: u32,
}

impl DateTime {
    /// Every field lies in its range. A leap second shows as second 59 with
    /// a thousand million nanoseconds or more.
    pub open spec fn wf(&self) -> bool {
        &&& 1 <= self.month <= 12
        &&& 1 <= self.day <= 31
        &&& self.hour <= 23
        &&& self.minute <= 59
        &&& self.second <= 59
        &&& self.nanosecond < 2_000_000_000
    }

    /// `self` is earlier than `other`.
    pub open spec fn before(&self, other: &DateTime) -> bool {
        ||| self.year < other.year
        ||| self.year == other.year && self.month < other.month
        ||| self.year == other.year && self.month == other.month && self.day < other.day
        ||| self.year == other.year && self.month == other.month && self.day == other.day
            && self.hour < other.hour
        ||| self.year == other.year && self.month == other.month && self.day == other.day
            && self.hour == other.hour && self.minute < other.minute
        ||| self.year == other.year && self.month == other.month && self.day == other.day
            && self.hour == other.hour && self.minute == other.minute && self.second
            < other.second
        ||| self.year == other.year && self.month == other.month && self.day == other.day
            && self.hour == other.hour && self.minute == other.minute && self.second
            == other.second && self.nanosecond < other.nanosecond
    }

    /// A number that grows with time: of two valid dates the earlier has the
    /// smaller one.
    pub open spec fn instant(&self) -> int {
        ((((((self.year + 0x8000_0000) * 13 + self.month) * 32 + self.day) * 24 + self.hour) * 60
            + self.minute) * 60 + self.second) * 2_000_000_000 + self.nanosecond
    }

    /// Of two valid dates the earlier, and only it, has the smaller `instant`.
    pub proof fn lemma_instant_orders(a: DateTime, b: DateTime)
        requires
            a.wf(),
            b.wf(),
        ensures
            a.before(&b) <==> a.instant() < b.instant(),
            a == b <==> a.instant() == b.instant(),
            0 <= a.instant() < 0x1_0000_0000_0000_0000_0000_0000,
    {
    }

    /// The date and time with the given fields, where each lies in its range.
    pub fn new(year: i32, month: u32, day: u32, hour: u32, minute: u32, second: u32) -> (r: Option<
        DateTime,
    >)
        ensures
            r == if 1 <= month <= 12 && 1 <= day <= 31 && hour <= 23 && minute <= 59 && second
                <= 59 {
                Some(DateTime { year, month, day, hour, minute, second, nanosecond: 0 })
            } else {
                None
            },
            r matches Some(dt) ==> dt.wf(),
    {
        if 1 <= month && month <= 12 && 1 <= day && day <= 31 && hour <= 23 && minute <= 59
            && second <= 59 {
            Some(DateTime { year, month, day, hour, minute, second, nanosecond: 0 })
        } else {
            None
        }
    }

    /// Whether every field lies in its range.
    pub fn is_valid(&self) -> (b: bool)
        ensures
            b == self.wf(),
    {
        1 <= self.month && self.month <= 12 && 1 <= self.day && self.day <= 31 && self.hour <= 23
            && self.minute <= 59 && self.second <= 59 && self.nanosecond < 2_000_000_000
    }

    /// The year.
    pub fn year(&self) -> (r: i32)
        ensures
            r == self.year,
    {
        self.year
    }

    /// The month, from 1.
    pub fn month(&self) -> (r: u32)
        ensures
            r == self.month,
    {
        self.month
    }

    /// The day of the month, from 1.
    pub fn day(&self) -> (r: u32)
        ensures
            r == self.day,
    {
        self.day
    }

    /// The hour.
    pub fn hour(&self) -> (r: u32)
        ensures
            r == self.hour,
    {
        self.hour
    }

    /// The minute.
    pub fn minute(&self) -> (r: u32)
        ensures
            r == self.minute,
    {
        self.minute
    }

    /// The second.
    pub fn second(&self) -> (r: u32)
        ensures
            r == self.second,
    {
        self.second
    }

    /// The number that orders this date among the valid dates.
    pub fn sort_key(&self) -> (k: u128)
        requires
            self.wf(),
        ensures
            k == self.instant(),
    {
        let y: u128 = (self.year as i64 + 0x8000_0000i64) as u128;
        let days: u128 = (y * 13 + self.month as u128) * 32 + self.day as u128;
        let seconds: u128 = ((days * 24 + self.hour as u128) * 60 + self.minute as u128) * 60
            + self.second as u128;
        seconds * 2_000_000_000 + self.nanosecond as u128
    }
}

/// Why a text is no date.
#[derive(Debug)]
pub enum TimeFormatError {
    /// The text has none of the three accepted lengths.
    WrongLength(String),
    /// The text has an accepted length and is no date.
    Invalid(String),
}

impl TimeFormatError {
    /// The text that was refused.
    pub open spec fn text(&self) -> Seq<char> {
        match self {
            TimeFormatError::WrongLength(t) => t@,
            TimeFormatError::Invalid(t) => t@,
        }
    }

    /// The error in words.
    pub fn message(&self) -> (m: String)
        ensures
            m@ == "time string is not valid: "@ + self.text(),
    {
        let mut m = String::from_str("time string is not valid: ");
        match self {
            TimeFormatError::WrongLength(t) => m.append(t.as_str()),
            TimeFormatError::Invalid(t) => m.append(t.as_str()),
        }
        m
    }
}

/// The number of bytes that the text takes in UTF-8.
pub open spec fn byte_len(s: Seq<char>) -> nat {
    encode_utf8(s).len()
}

/// The text of a date filled up to seconds: a date alone gets midnight, a
/// date with hours and minutes gets zero seconds. `None` where the result
/// is not 19 bytes long.
pub open spec fn full_time_text(s: Seq<char>) -> Option<Seq<char>> {
    let t = trim(s);
    let text = if byte_len(t) == 10 {
        s + " 00:00:00"@
    } else if byte_len(t) == 16 {
        s + ":00"@
    } else {
        t
    };
    if byte_len(text) == 19 {
        Some(text)
    } else {
        None
    }
}

/// The layout in which a full date is written.
pub open spec fn time_layout() -> Seq<char> {
    "%Y-%m-%d %H:%M:%S"@
}

/// What `chrono` reads from `text` under `layout`: the date, or `None` where
/// the text does not fit the layout or names no date.
pub uninterp spec fn parsed_datetime(text: Seq<char>, layout: Seq<char>) -> Option<DateTime>;

/// The date that a text stands for.
pub open spec fn time_of(s: Seq<char>) -> Option<DateTime> {
    match full_time_text(s) {
        Some(text) => parsed_datetime(text, time_layout()),
        None => None,
    }
}

/// `chrono::NaiveDateTime::parse_from_str` reads `text` under `layout`. What
/// it returns depends on the two texts alone. The fields of a date that it
/// returns lie in the ranges that `chrono` documents for them.
#[verifier::external_body]
fn chrono_parse(text: &str, layout: &str) -> (r: Result<DateTime, chrono::ParseError>)
    ensures
        match r {
            Ok(dt) => parsed_datetime(text@, layout@) == Some(dt) && dt.wf(),
            Err(_) => parsed_datetime(text@, layout@) is None,
        },
{
    match chrono::NaiveDateTime::parse_from_str(text, layout) {
        Ok(t) => Ok(
            DateTime {
                year: t.year(),
                month: t.month(),
                day: t.day(),
                hour: t.hour(),
                minute: t.minute(),
                second: t.second(),
                nanosecond: t.nanosecond(),
            },
        ),
        Err(e) => Err(e),
    }
}

/// The text of a date filled up to seconds, where that gives 19 bytes.
pub fn time_text(time_str: &str) -> (r: Option<String>)
    ensures
        match r {
            Some(text) => full_time_text(time_str@) == Some(text@),
            None => full_time_text(time_str@) is None,
        },
{
    let trimmed_text = trimmed(time_str);
    let text = if trimmed_text.as_str().as_bytes().len() == 10 {
        let mut t = String::from_str(time_str);
        t.append(" 00:00:00");
        t
    } else if trimmed_text.as_str().as_bytes().len() == 16 {
        let mut t = String::from_str(time_str);
        t.append(":00");
        t
    } else {
        trimmed_text
    };
    if text.as_str().as_bytes().len() == 19 {
        Some(text)
    } else {
        None
    }
}

/// The outcome of reading the date `time_str`, from what the parser made of
/// its full text.
pub fn time_from_parsed(time_str: &str, parsed: Result<DateTime, chrono::ParseError>) -> (r: Result<
    DateTime,
    TimeFormatError,
>)
    ensures
        match parsed {
            Ok(dt) => r == Ok::<DateTime, TimeFormatError>(dt),
            Err(_) => r matches Err(TimeFormatError::Invalid(t)) && t@ == time_str@,
        },
{
    match parsed {
        Ok(dt) => Ok(dt),
        Err(_) => Err(TimeFormatError::Invalid(String::from_str(time_str))),
    }
}

/// Reads a date written as `YYYY-MM-DD`, `YYYY-MM-DD HH:MM` or
/// `YYYY-MM-DD HH:MM:SS`.
pub fn parse_time(time_str: &str) -> (r: Result<DateTime, TimeFormatError>)
    ensures
        match r {
            Ok(dt) => time_of(time_str@) == Some(dt) && dt.wf(),
            Err(TimeFormatError::WrongLength(t)) => t@ == time_str@ && full_time_text(time_str@)
                is None,
            Err(TimeFormatError::Invalid(t)) => t@ == time_str@ && full_time_text(time_str@)
                is Some && time_of(time_str@) is None,
        },
{
    match time_text(time_str) {
        None => Err(TimeFormatError::WrongLength(String::from_str(time_str))),
        Some(text) => {
            let parsed = chrono_parse(text.as_str(), "%Y-%m-%d %H:%M:%S");
            time_from_parsed(time_str, parsed)
        },
    }
}

} // verus!
