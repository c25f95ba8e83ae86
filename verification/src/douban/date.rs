//! Calendar dates, with the arithmetic and the formats of `chrono`.
use chrono::{Datelike, NaiveDate};
use vstd::prelude::*;

use crate::text::decimal;

verus! {

/// A date of the proleptic Gregorian calendar.
#[derive(Clone, Copy, Debug, PartialEq, Eq, Structural)]
pub struct Date {
    year: i32,
    month: u32,
    day: u32,
}

/// The year, the month and the day of a date.
#[verifier::ext_equal]
pub struct DateView {
    pub year: int,
    pub month: int,
    pub day: int,
}

impl View for Date {
    type V = DateView;

    closed spec fn view(&self) -> DateView {
        DateView { year: self.year as int, month: self.month as int, day: self.day as int }
    }
}

/// Whether a year has a 29th of February.
pub open spec fn leap(year: int) -> bool {
    year % 4 == 0 && (year % 100 != 0 || year % 400 == 0)
}

/// The number of days of a month.
pub open spec fn days_in_month(year: int, month: int) -> int {
    if month == 2 {
        if leap(year) {
            29
        } else {
            28
        }
    } else if month == 4 || month == 6 || month == 9 || month == 11 {
        30
    } else {
        31
    }
}

/// The number of days from the first of January to the first of a month.
pub open spec fn days_before_month(year: int, month: int) -> int
    decreases month,
{
    if month <= 1 {
        0
    } else {
        days_before_month(year, month - 1) + days_in_month(year, month - 1)
    }
}

/// The number of days from the first of January of the year 1 to that of `year`.
pub open spec fn days_before_year(year: int) -> int {
    365 * (year - 1) + (year - 1) / 4 - (year - 1) / 100 + (year - 1) / 400
}

/// `n` in decimal, with zeros before it up to `width` digits.
pub open spec fn padded(n: nat, width: int) -> Seq<char> {
    Seq::new((if width > decimal(n).len() { width - decimal(n).len() } else { 0 }) as nat, |i: int| '0')
        + decimal(n)
}

impl DateView {
    /// Whether the date exists, in a year that `chrono` knows.
    pub open spec fn exists_in_calendar(self) -> bool {
        &&& -262143 <= self.year <= 262142
        &&& 1 <= self.month <= 12
        &&& 1 <= self.day <= days_in_month(self.year, self.month)
    }

    /// The number of the day, counted from the first of January of the year 1.
    pub open spec fn number(self) -> int {
        days_before_year(self.year) + days_before_month(self.year, self.month) + self.day
    }

    /// The date as year, month and day: four, two and two digits, and a sign
    /// before a year of other than four digits.
    pub open spec fn text(self) -> Seq<char> {
        (if self.year < 0 {
            "-"@ + padded((-self.year) as nat, 4)
        } else if self.year > 9999 {
            "+"@ + padded(self.year as nat, 4)
        } else {
            padded(self.year as nat, 4)
        }) + "-"@ + padded(self.month as nat, 2) + "-"@ + padded(self.day as nat, 2)
    }
}

/// What `NaiveDate::parse_from_str` reads in a text under the format `%Y-%m-%d`.
pub uninterp spec fn date_read(text: Seq<char>) -> Option<DateView>;

/// The date of a year, a month and a day.
pub open spec fn date_of(parts: (i32, u32, u32)) -> DateView {
    DateView { year: parts.0 as int, month: parts.1 as int, day: parts.2 as int }
}

/// The date of its parts, where there are such.
pub open spec fn parts_view(parts: Option<(i32, u32, u32)>) -> Option<DateView> {
    match parts {
        Some(parts) => Some(date_of(parts)),
        None => None,
    }
}

/// Whether the date, where there is one, is in the calendar.
pub open spec fn in_calendar(date: Option<DateView>) -> bool {
    date matches Some(date) ==> date.exists_in_calendar()
}

/// The date that is in the calendar, or none.
pub open spec fn calendar_date(year: int, month: int, day: int) -> Option<DateView> {
    let date = DateView { year, month, day };
    if date.exists_in_calendar() {
        Some(date)
    } else {
        None
    }
}

/// `NaiveDate::from_ymd_opt`: the date of these parts, or nothing where the
/// calendar has no such date or `chrono` does not know the year.
#[verifier::external_body]
fn calendar_parts(year: i32, month: u32, day: u32) -> (r: Option<(i32, u32, u32)>)
    ensures
        parts_view(r) == calendar_date(year as int, month as int, day as int),
{
    NaiveDate::from_ymd_opt(year, month, day).map(|date| (date.year(), date.month(), date.day()))
}

/// `NaiveDate::format` with `%Y-%m-%d`: the text of a date.
#[verifier::external_body]
fn format_parts(year: i32, month: u32, day: u32) -> (r: String)
    requires
        date_of((year, month, day)).exists_in_calendar(),
    ensures
        r@ == date_of((year, month, day)).text(),
{
    NaiveDate::from_ymd_opt(year, month, day).map(|date| date.format("%Y-%m-%d").to_string()).unwrap_or_default()
}

/// `NaiveDate::parse_from_str` with `%Y-%m-%d`: the date that `text` writes, or
/// nothing; it depends on `text` alone and is in the calendar. The text of a date
/// is read back as that date.
#[verifier::external_body]
fn parse_parts(text: &str) -> (r: Option<(i32, u32, u32)>)
    ensures
        parts_view(r) == date_read(text@),
        in_calendar(parts_view(r)),
        forall|date: DateView|
            date.exists_in_calendar() && text@ == #[trigger] date.text() ==> parts_view(r) == Some(date),
{
    NaiveDate::parse_from_str(text, "%Y-%m-%d").ok().map(|date| (date.year(), date.month(), date.day()))
}

/// The subtraction of two `NaiveDate`s and `TimeDelta::num_days`: how many days
/// the first date lies after the second.
#[verifier::external_body]
fn days_apart(later: (i32, u32, u32), earlier: (i32, u32, u32)) -> (r: i64)
    requires
        date_of(later).exists_in_calendar(),
        date_of(earlier).exists_in_calendar(),
    ensures
        r == date_of(later).number() - date_of(earlier).number(),
{
    let later = NaiveDate::from_ymd_opt(later.0, later.1, later.2);
    let earlier = NaiveDate::from_ymd_opt(earlier.0, earlier.1, earlier.2);
    later.zip(earlier).map(|(later, earlier)| (later - earlier).num_days()).unwrap_or_default()
}

/// A date, where there is one.
pub open spec fn opt_date(date: Option<Date>) -> Option<DateView> {
    match date {
        Some(date) => Some(date@),
        None => None,
    }
}

impl Date {
    #[verifier::type_invariant]
    spec fn well_formed(self) -> bool {
        self@.exists_in_calendar()
    }

    /// The date of its parts.
    pub(crate) fn of(parts: (i32, u32, u32)) -> (r: Date)
        requires
            date_of(parts).exists_in_calendar(),
        ensures
            r@ == date_of(parts),
    {
        Date { year: parts.0, month: parts.1, day: parts.2 }
    }

    /// The year, the month and the day.
    pub(crate) fn parts(&self) -> (r: (i32, u32, u32))
        ensures
            date_of(r) == self@,
            self@.exists_in_calendar(),
    {
        proof {
            use_type_invariant(self);
        }
        (self.year, self.month, self.day)
    }

    fn from_parts(parts: Option<(i32, u32, u32)>) -> (r: Option<Date>)
        requires
            in_calendar(parts_view(parts)),
        ensures
            opt_date(r) == parts_view(parts),
    {
        match parts {
            Some(parts) => Some(Self::of(parts)),
            None => None,
        }
    }

    /// The date of these parts, where the calendar has it.
    pub fn from_ymd_opt(year: i32, month: u32, day: u32) -> (r: Option<Date>)
        ensures
            opt_date(r) == calendar_date(year as int, month as int, day as int),
    {
        Self::from_parts(calendar_parts(year, month, day))
    }

    /// The date that `text` writes as year, month and day.
    pub fn parse(text: &str) -> (r: Option<Date>)
        ensures
            opt_date(r) == date_read(text@),
            forall|date: DateView|
                date.exists_in_calendar() && text@ == #[trigger] date.text() ==> opt_date(r)
                    == Some(date),
    {
        Self::from_parts(parse_parts(text))
    }

    /// The date as year, month and day.
    pub fn text(&self) -> (r: String)
        ensures
            r@ == self@.text(),
            self@.exists_in_calendar(),
    {
        let (year, month, day) = self.parts();
        format_parts(year, month, day)
    }

    /// How many days this date lies after `other`.
    pub fn days_after(&self, other: &Date) -> (r: i64)
        ensures
            r == self@.number() - other@.number(),
    {
        days_apart(self.parts(), other.parts())
    }
}

/// The number of days until a date.
pub open spec fn days_to(date: Option<DateView>, today: DateView) -> Option<int> {
    match date {
        Some(date) => Some(date.number() - today.number()),
        None => None,
    }
}

/// An `i64` as an integer, where there is one.
pub open spec fn opt_int(n: Option<i64>) -> Option<int> {
    match n {
        Some(n) => Some(n as int),
        None => None,
    }
}

/// The number of days from `today` until the date that `value` writes; none where
/// it writes none.
pub fn days_until(value: &str, today: &Date) -> (r: Option<i64>)
    ensures
        opt_int(r) == days_to(date_read(value@), today@),
        forall|date: DateView|
            date.exists_in_calendar() && value@ == #[trigger] date.text() ==> opt_int(r) == Some(
                date.number() - today@.number(),
            ),
{
    match Date::parse(value) {
        Some(date) => Some(date.days_after(today)),
        None => None,
    }
}

} // verus!
