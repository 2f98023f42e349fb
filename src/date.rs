//! Calendar dates and the current moment, as plain values.
use chrono::Datelike;
use vstd::prelude::*;

verus! {

/// A calendar date without a time of day.
#[derive(Clone, Copy, Debug, PartialEq, Eq, Structural)]
pub struct Date {
    pub year: i32,
    pub month: u32,
    pub day: u32,
}

/// `a` lies strictly before `b` in the calendar.
pub open spec fn date_before(a: Date, b: Date) -> bool {
    a.year < b.year || (a.year == b.year && (a.month < b.month || (a.month == b.month && a.day
        < b.day)))
}

impl Date {
    pub fn new(year: i32, month: u32, day: u32) -> (r: Date)
        ensures
            r == (Date { year, month, day }),
    {
        Date { year, month, day }
    }

    /// Whether `self` lies strictly before `other`.
    pub fn is_before(&self, other: &Date) -> (r: bool)
        ensures
            r == date_before(*self, *other),
    {
        if self.year != other.year {
            self.year < other.year
        } else if self.month != other.month {
            self.month < other.month
        } else {
            self.day < other.day
        }
    }
}

/// The moment an invocation runs at: seconds since the Unix epoch, and the UTC date of
/// that moment. It is fixed once, so that every comparison of one run agrees.
#[derive(Clone, Copy, Debug, PartialEq, Eq, Structural)]
pub struct Now {
    pub secs: i64,
    pub today: Date,
}

/// What `chrono::NaiveDate::parse_from_str(s, "%Y-%m-%d")` gives for `s`, as
/// year, month and day.
pub uninterp spec fn ymd_parsed(s: Seq<char>) -> Option<(i32, u32, u32)>;

/// Relies on `chrono::NaiveDate::parse_from_str` with the format `%Y-%m-%d`, and on
/// `Datelike::{year, month, day}` to read the date back.
#[verifier::external_body]
fn parse_ymd(s: &str) -> (r: Option<(i32, u32, u32)>)
    ensures
        r == ymd_parsed(s@),
{
    chrono::NaiveDate::parse_from_str(s, "%Y-%m-%d").ok().map(|d| (d.year(), d.month(), d.day()))
}

/// The date that a word names in the form `YYYY-MM-DD`, if it names one.
pub open spec fn date_of_word(w: Seq<char>) -> Option<Date> {
    match ymd_parsed(w) {
        Some(t) => Some(Date { year: t.0, month: t.1, day: t.2 }),
        None => None,
    }
}

/// Reads a word as a date in the form `YYYY-MM-DD`.
pub fn parse_date(word: &str) -> (r: Option<Date>)
    ensures
        r == date_of_word(word@),
{
    match parse_ymd(word) {
        Some(t) => Some(Date { year: t.0, month: t.1, day: t.2 }),
        None => None,
    }
}

} // verus!
