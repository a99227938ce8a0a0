//! Calendar dates, as far as retention needs them: a date is read from a
//! directory name, moved back by a number of days, and compared.

use vstd::prelude::*;
use crate::bindings::{date_in_text, date_moved_back, move_back, parse_date};

verus! {

/// `a` is an earlier day than `b`, both as year, month and day.
pub open spec fn earlier(a: (int, int, int), b: (int, int, int)) -> bool {
    ||| a.0 < b.0
    ||| a.0 == b.0 && a.1 < b.1
    ||| a.0 == b.0 && a.1 == b.1 && a.2 < b.2
}

/// A day of the proleptic Gregorian calendar.
#[derive(Clone, Copy, Debug, PartialEq, Eq, Structural)]
pub struct CalendarDate {
    pub year: i32,
    pub month: u32,
    pub day: u32,
}

impl CalendarDate {
    /// Year, month and day as mathematical integers.
    pub open spec fn ymd(self) -> (int, int, int) {
        (self.year as int, self.month as int, self.day as int)
    }

    /// The month and the day are in the ranges that a calendar allows.
    pub open spec fn wf(self) -> bool {
        &&& 1 <= self.month <= 12
        &&& 1 <= self.day <= 31
    }

    /// `self` is an earlier day than `other`.
    pub open spec fn earlier_than(self, other: CalendarDate) -> bool {
        earlier(self.ymd(), other.ymd())
    }

    /// Whether `self` is an earlier day than `other`.
    pub fn is_before(&self, other: &CalendarDate) -> (r: bool)
        ensures
            r == self.earlier_than(*other),
    {
        if self.year != other.year {
            self.year < other.year
        } else if self.month != other.month {
            self.month < other.month
        } else {
            self.day < other.day
        }
    }
}

/// Year, month and day of an optional date.
pub open spec fn ymd_of(date: Option<CalendarDate>) -> Option<(int, int, int)> {
    match date {
        Some(d) => Some(d.ymd()),
        None => None,
    }
}

/// The date that a `YYYY-MM-DD` directory name stands for, if it is one.
pub open spec fn date_of_name(name: Seq<char>) -> Option<(int, int, int)> {
    date_in_text(name, "%Y-%m-%d"@)
}

/// Reads `name` as a `YYYY-MM-DD` date. `None` where it is not one.
pub fn parse_dir_date(name: &str) -> (r: Option<CalendarDate>)
    ensures
        r matches Some(d) ==> date_of_name(name@) == Some(d.ymd()) && d.wf(),
        r is None ==> date_of_name(name@) is None,
{
    match parse_date(name, "%Y-%m-%d") {
        Ok(d) => Some(d),
        Err(_) => None,
    }
}

/// The first day that retention keeps: `today` moved back by `days` days.
/// `None` where that day lies outside the calendar's range.
pub fn retention_cutoff(today: &CalendarDate, days: i64) -> (r: Option<CalendarDate>)
    ensures
        r matches Some(d) ==> date_moved_back(today.ymd(), days as int) == Some(d.ymd()) && d.wf(),
        r is None ==> date_moved_back(today.ymd(), days as int) is None,
{
    move_back(today, days)
}

/// No day is earlier than itself, and of two days at most one is earlier
/// than the other.
pub proof fn lemma_earlier_is_strict(a: CalendarDate, b: CalendarDate)
    ensures
        !a.earlier_than(a),
        a.earlier_than(b) ==> !b.earlier_than(a),
{
}

/// Earlier-than is transitive.
pub proof fn lemma_earlier_is_transitive(a: CalendarDate, b: CalendarDate, c: CalendarDate)
    requires
        a.earlier_than(b),
        b.earlier_than(c),
    ensures
        a.earlier_than(c),
{
}

} // verus!
