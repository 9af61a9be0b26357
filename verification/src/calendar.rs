//! Calendar dates and date-times, read with chrono.
use crate::errors::{Fault, IResult, Outcome, ParseError, ParseFailure, Problem, yields};
use crate::span::Span;
use chrono::{Datelike, Timelike};
use vstd::prelude::*;

verus! {

/// A calendar date, as chrono's `NaiveDate` gives it.
#[derive(Clone, Copy, PartialEq, Eq, Debug)]
pub struct Date {
    pub year: i32,
    pub month: u32,
    pub day: u32,
}

/// A date and a time of day, as chrono's `NaiveDateTime` gives it. The
/// nanosecond field is at least one second only for a leap second.
#[derive(Clone, Copy, PartialEq, Eq, Debug)]
pub struct DateTime {
    pub date: Date,
    pub hour: u32,
    pub minute: u32,
    pub second: u32,
    pub nanosecond: u32,
}

impl DeepView for Date {
    type V = Date;

    open spec fn deep_view(&self) -> Date {
        *self
    }
}

impl DeepView for DateTime {
    type V = DateTime;

    open spec fn deep_view(&self) -> DateTime {
        *self
    }
}

impl Date {
    pub fn new(year: i32, month: u32, day: u32) -> (r: Date)
        ensures
            r == (Date { year, month, day }),
    {
        Date { year, month, day }
    }
}

/// What `chrono::NaiveDate::parse_from_str` makes of the text `text` read
/// with the format `format`: year, month and day, or the text of chrono's
/// error.
pub uninterp spec fn naive_date_parse(text: Seq<u8>, format: Seq<char>) -> Result<(i32, u32, u32), Seq<char>>;

/// What `chrono::NaiveDateTime::parse_from_str` makes of the text `text` read
/// with the format `format`: year, month, day, hour, minute, second and
/// nanosecond, or the text of chrono's error.
pub uninterp spec fn naive_date_time_parse(text: Seq<u8>, format: Seq<char>) -> Result<(i32, u32, u32, u32, u32, u32, u32), Seq<char>>;

/// chrono's reading of a date, as a [`Date`].
pub open spec fn date_reading(r: Result<(i32, u32, u32), Seq<char>>) -> Result<Date, Seq<char>> {
    match r {
        Ok(t) => Ok(date_of(t)),
        Err(m) => Err(m),
    }
}

/// chrono's reading of a date and time, as a [`DateTime`].
pub open spec fn date_time_reading(r: Result<(i32, u32, u32, u32, u32, u32, u32), Seq<char>>) -> Result<DateTime, Seq<char>> {
    match r {
        Ok(t) => Ok(date_time_of(t)),
        Err(m) => Err(m),
    }
}

pub open spec fn date_of(t: (i32, u32, u32)) -> Date {
    Date { year: t.0, month: t.1, day: t.2 }
}

pub open spec fn date_time_of(t: (i32, u32, u32, u32, u32, u32, u32)) -> DateTime {
    DateTime {
        date: Date { year: t.0, month: t.1, day: t.2 },
        hour: t.3,
        minute: t.4,
        second: t.5,
        nanosecond: t.6,
    }
}

/// The error for a date field at `at` that chrono does not accept, with
/// chrono's message `m` and the help `help`.
pub open spec fn date_problem(at: int, m: Seq<char>, help: Seq<char>) -> Fault {
    Fault::Error(Problem { at, message: "failed to parse date: "@ + m, help: Some(help) })
}

/// What chrono's reading of a date field stands for, with its error's text.
pub open spec fn reading_view<T>(parsed: Result<T, String>) -> Result<T, Seq<char>> {
    match parsed {
        Ok(t) => Ok(t),
        Err(m) => Err(m@),
    }
}

/// The outcome of a date field that starts at `p` and whose text ends at
/// `q`, given chrono's reading `parsed` of the text: the date, or an error
/// at the start of the field with chrono's message and the help `help`.
pub open spec fn date_field_outcome<T>(p: int, q: int, parsed: Result<T, Seq<char>>, help: Seq<char>) -> Outcome<T> {
    match parsed {
        Ok(t) => Ok((q, t)),
        Err(m) => Err(date_problem(p, m, help)),
    }
}

/// The outcome of a date field that starts at `input` and whose text ends at
/// `rest`, given chrono's reading `parsed` of the text.
pub fn date_field<'a, T: DeepView<V = T>>(
    input: Span<'a>,
    rest: Span<'a>,
    parsed: Result<T, String>,
    help: &str,
) -> (r: IResult<'a, T>)
    requires
        input@.input == rest@.input,
        forall|t: T| #[trigger] t.deep_view() == t,
    ensures
        yields(&r, input@.input, date_field_outcome(input@.offset, rest@.offset, reading_view(parsed), help@)),
{
    match parsed {
        Ok(t) => Ok((rest, t)),
        Err(cause) => {
            let mut m = String::from_str("failed to parse date: ");
            m.append(cause.as_str());
            Err(ParseFailure::Error(ParseError::new(m, Some(String::from_str(help)), input)))
        },
    }
}

/// Calls `chrono::NaiveDate::parse_from_str` on the UTF-8 text `text` with
/// the format `format`. Claimed of it: the date it returns, or its error's
/// message, is `naive_date_parse(text, format)`.
#[verifier::external_body]
pub(crate) fn parse_naive_date(text: &[u8], format: &str) -> (r: Result<Date, String>)
    ensures
        match r {
            Ok(d) => naive_date_parse(text@, format@) == Ok::<(i32, u32, u32), Seq<char>>((d.year, d.month, d.day)),
            Err(m) => naive_date_parse(text@, format@) == Err::<(i32, u32, u32), Seq<char>>(m@),
        },
{
    match chrono::NaiveDate::parse_from_str(&String::from_utf8_lossy(text), format) {
        Ok(d) => Ok(Date { year: d.year(), month: d.month(), day: d.day() }),
        Err(e) => Err(e.to_string()),
    }
}

/// Calls `chrono::NaiveDateTime::parse_from_str` on the UTF-8 text `text`
/// with the format `format`. Claimed of it: the date and time it returns, or
/// its error's message, is `naive_date_time_parse(text, format)`.
#[verifier::external_body]
pub(crate) fn parse_naive_date_time(text: &[u8], format: &str) -> (r: Result<DateTime, String>)
    ensures
        match r {
            Ok(t) => naive_date_time_parse(text@, format@) == Ok::<(i32, u32, u32, u32, u32, u32, u32), Seq<char>>(
                (t.date.year, t.date.month, t.date.day, t.hour, t.minute, t.second, t.nanosecond),
            ),
            Err(m) => naive_date_time_parse(text@, format@) == Err::<(i32, u32, u32, u32, u32, u32, u32), Seq<char>>(m@),
        },
{
    match chrono::NaiveDateTime::parse_from_str(&String::from_utf8_lossy(text), format) {
        Ok(t) => Ok(DateTime {
            date: Date { year: t.year(), month: t.month(), day: t.day() },
            hour: t.hour(), minute: t.minute(), second: t.second(), nanosecond: t.nanosecond(),
        }),
        Err(e) => Err(e.to_string()),
    }
}

} // verus!
