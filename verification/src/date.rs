//! Calendar dates, as `chrono` reads them.

use chrono::{Datelike, NaiveDate};
use vstd::prelude::*;

verus! {

/// A calendar date.
#[derive(Clone, Copy, Debug, PartialEq, Eq, Structural)]
pub struct Date {
    pub year: i32,
    pub month: u32,
    pub day: u32,
}

/// The date that `chrono` reads from a text in the form year, month, day
/// with hyphens between them, as year, month and day; nothing where it
/// rejects the text.
pub uninterp spec fn chrono_ymd(text: Seq<char>) -> Option<(int, int, int)>;

/// The date read from `text`, if any.
pub open spec fn date_of(text: Seq<char>) -> Option<Date> {
    match chrono_ymd(text) {
        Some(d) => Some(Date { year: d.0 as i32, month: d.1 as u32, day: d.2 as u32 }),
        None => None,
    }
}

/// `NaiveDate::parse_from_str` with the format `%Y-%m-%d`, and the date's
/// `year`, `month` and `day`. The month is between 1 and 12 and the day
/// between 1 and 31.
#[verifier::external_body]
fn naive_date_from_text(text: &str) -> (res: Option<(i32, u32, u32)>)
    ensures
        res matches Some(d) ==> 1 <= d.1 <= 12 && 1 <= d.2 <= 31,
        res is Some <==> chrono_ymd(text@) is Some,
        res matches Some(d) ==> chrono_ymd(text@) == Some((d.0 as int, d.1 as int, d.2 as int)),
{
    match NaiveDate::parse_from_str(text, "%Y-%m-%d") {
        Ok(d) => Some((d.year(), d.month(), d.day())),
        Err(_) => None,
    }
}

impl Date {
    /// Whether month and day are within a calendar's limits.
    pub open spec fn wf(self) -> bool {
        1 <= self.month <= 12 && 1 <= self.day <= 31
    }

    /// Reads a date such as `2023-05-01`; nothing where the text is no
    /// date.
    pub fn parse(text: &str) -> (res: Option<Date>)
        ensures
            res == date_of(text@),
            res matches Some(d) ==> d.wf(),
    {
        match naive_date_from_text(text) {
            Some(d) => Some(Date { year: d.0, month: d.1, day: d.2 }),
            None => None,
        }
    }
}

} // verus!
