//! Calendar months, as the buckets that file sizes are added up in.

use vstd::prelude::*;
use chrono::Datelike;
use crate::clock::Timestamp;
use crate::decimal::padded;

verus! {

/// The earliest year that the calendar can hold.
pub const MIN_YEAR: i32 = -262_143;

/// The latest year that the calendar can hold.
pub const MAX_YEAR: i32 = 262_142;

/// A month of a year in the proleptic Gregorian calendar. Year 0 is 1 BCE.
#[derive(Clone, Copy, Debug, PartialEq, Eq, Structural)]
pub struct Month {
    pub year: i32,
    /// 1 for January to 12 for December.
    pub month: u32,
}

/// The year as a date shows it: four digits for the years 0 to 9999, and a
/// sign before at least four digits for any other year.
pub open spec fn year_text(year: int) -> Seq<char> {
    if 0 <= year <= 9999 {
        padded(year as nat, 4)
    } else if year < 0 {
        seq!['-'] + padded((-year) as nat, 4)
    } else {
        seq!['+'] + padded(year as nat, 4)
    }
}

/// The first day of a month as a date, such as "2024-03-01".
pub open spec fn first_day_text(year: int, month: int) -> Seq<char> {
    year_text(year) + seq!['-'] + padded(month as nat, 2) + seq!['-', '0', '1']
}

/// The year and month in which the given point in time falls in UTC, or
/// `None` where the calendar cannot hold it.
pub uninterp spec fn utc_year_month(secs: i64, nanos: u32) -> Option<(i32, u32)>;

/// Calls `chrono::DateTime::from_timestamp`, and `Datelike::year` and
/// `Datelike::month` on what it gives. Nothing is claimed of the answer but
/// that the arguments determine it.
#[verifier::external_body]
fn chrono_year_month(secs: i64, nanos: u32) -> (found: Option<(i32, u32)>)
    ensures
        found == utc_year_month(secs, nanos),
{
    match chrono::DateTime::from_timestamp(secs, nanos) {
        Some(when) => Some((when.year(), when.month())),
        None => None,
    }
}

/// Calls `chrono::NaiveDate::from_ymd_opt` for the day `day` of the month,
/// which is the first, and formats the date with its `Display`.
///
/// Claimed of chrono: the date exists exactly for the months 1 to 12 of the
/// years `MIN_YEAR` to `MAX_YEAR`, and its text is the year (four digits, or
/// a sign and at least four digits outside 0 to 9999), the month and the day
/// in two digits each, with hyphens between.
#[verifier::external_body]
fn chrono_date_label(year: i32, month: u32, day: u32) -> (label: Option<String>)
    requires
        day == 1,
    ensures
        label is Some <==> (MIN_YEAR <= year <= MAX_YEAR && 1 <= month <= 12),
        label matches Some(text) ==> text@ == first_day_text(year as int, month as int),
{
    match chrono::NaiveDate::from_ymd_opt(year, month, day) {
        Some(date) => Some(date.to_string()),
        None => None,
    }
}

impl Month {
    /// Whether this is a month that the calendar can hold.
    pub open spec fn wf(self) -> bool {
        MIN_YEAR <= self.year <= MAX_YEAR && 1 <= self.month <= 12
    }

    /// Whether `self` comes before `other` in time.
    pub open spec fn precedes(self, other: Month) -> bool {
        self.year < other.year || (self.year == other.year && self.month < other.month)
    }

    /// The month's first day as a date, such as "2024-03-01".
    pub open spec fn label_text(self) -> Seq<char> {
        first_day_text(self.year as int, self.month as int)
    }

    /// The month of a point in time, given the year and month that the
    /// calendar found for it.
    pub open spec fn from_year_month(found: Option<(i32, u32)>) -> Option<Month> {
        match found {
            Some(ym) => {
                let month = Month { year: ym.0, month: ym.1 };
                if month.wf() {
                    Some(month)
                } else {
                    None
                }
            },
            None => None,
        }
    }

    /// The month in which `when` falls in UTC.
    pub open spec fn of_spec(when: Timestamp) -> Option<Month> {
        Self::from_year_month(utc_year_month(when.secs, when.nanos))
    }

    /// Tests `wf`.
    pub fn is_valid(&self) -> (valid: bool)
        ensures
            valid == self.wf(),
    {
        MIN_YEAR <= self.year && self.year <= MAX_YEAR && 1 <= self.month && self.month <= 12
    }

    /// Tests `precedes`.
    pub fn is_before(&self, other: &Month) -> (before: bool)
        ensures
            before == self.precedes(*other),
    {
        self.year < other.year || (self.year == other.year && self.month < other.month)
    }

    /// The month that a year and a month number name, where there is one.
    pub fn checked(found: Option<(i32, u32)>) -> (month: Option<Month>)
        ensures
            month == Self::from_year_month(found),
            month matches Some(m) ==> m.wf(),
    {
        match found {
            Some(ym) => {
                let month = Month { year: ym.0, month: ym.1 };
                if month.is_valid() {
                    Some(month)
                } else {
                    None
                }
            },
            None => None,
        }
    }

    /// The month in which `when` falls in UTC, or `None` where the calendar
    /// cannot hold that point in time.
    pub fn of(when: &Timestamp) -> (month: Option<Month>)
        ensures
            month == Self::of_spec(*when),
            month matches Some(m) ==> m.wf(),
    {
        Self::checked(chrono_year_month(when.secs, when.nanos))
    }

    /// The month's first day as a date, such as "2024-03-01"; `None` for a
    /// month that the calendar cannot hold.
    pub fn label(&self) -> (label: Option<String>)
        ensures
            label is Some <==> self.wf(),
            label matches Some(text) ==> text@ == self.label_text(),
    {
        chrono_date_label(self.year, self.month, 1)
    }
}

} // verus!
