//! The date and the time where the user is.
use chrono::{Datelike, Local, NaiveDate};
use vstd::prelude::*;

use super::date::{date_of, date_read, days_in_month, opt_int, padded, Date, DateView};

verus! {

/// Whether a clock after the Unix epoch can show this date somewhere.
pub open spec fn can_be_today(date: DateView) -> bool {
    &&& date.exists_in_calendar()
    &&& date.year >= 1969
    &&& date.number() >= epoch().number() - 1
}

/// `Local::now` and `DateTime::date_naive`: the date where the user is. It is in
/// the calendar and not before the eve of the Unix epoch; which one it is depends
/// on the clock and on the time zone. Like the two calls below it takes a clock
/// for granted that does not stand before the Unix epoch.
#[verifier::external_body]
fn local_date() -> (r: (i32, u32, u32))
    ensures
        can_be_today(date_of(r)),
{
    let today = Local::now().date_naive();
    (today.year(), today.month(), today.day())
}

/// The last date that `chrono` knows.
pub open spec fn last_date() -> DateView {
    DateView { year: 262142, month: 12, day: 31 }
}

/// The seconds from the beginning of one date to that of another.
pub open spec fn seconds_between(from: DateView, to: DateView) -> int {
    (to.number() - from.number()) * 86400
}

/// The first date of the Unix epoch.
pub open spec fn epoch() -> DateView {
    DateView { year: 1970, month: 1, day: 1 }
}

/// Whether `left` can be what is left in seconds until `date` begins somewhere,
/// by a clock between the Unix epoch and the last date: a time zone moves the
/// beginning by less than a day.
pub open spec fn can_be_left(left: Option<int>, date: DateView) -> bool {
    left matches Some(n) ==> seconds_between(last_date(), date) - 172800 < n < seconds_between(
        epoch(),
        date,
    ) + 86400
}

/// `NaiveDateTime::and_local_timezone`, and the subtraction of `Local::now`: the
/// seconds that are left until a date begins where the user is; nothing where
/// the clocks there show its first instant twice or never, or where that lies
/// beyond the calendar of `chrono` in UTC. How many there are
/// depends on the clock and on the time zone, within what a clock of `chrono` and
/// an offset of less than a day allow for the date.
#[verifier::external_body]
fn seconds_to_midnight(year: i32, month: u32, day: u32) -> (r: Option<i64>)
    requires
        date_of((year, month, day)).exists_in_calendar(),
    ensures
        can_be_left(opt_int(r), date_of((year, month, day))),
{
    let midnight = NaiveDate::from_ymd_opt(year, month, day)?.and_hms_opt(0, 0, 0)?;
    let begins = midnight.and_local_timezone(Local).single()?;
    Some((begins - Local::now()).num_seconds())
}

/// A date and a time of day in a time zone.
pub struct TimeView {
    pub date: DateView,
    pub hour: int,
    pub minute: int,
    pub second: int,
    pub nanosecond: int,
    /// How many seconds the time zone is ahead of UTC.
    pub ahead: int,
}

/// A part of a second after its point: in thousandths, millionths or
/// billionths, whichever is the first to be exact; nothing for a whole second.
pub open spec fn fraction_text(nanosecond: int) -> Seq<char> {
    if nanosecond == 0 {
        Seq::empty()
    } else if nanosecond % 1_000_000 == 0 {
        "."@ + padded((nanosecond / 1_000_000) as nat, 3)
    } else if nanosecond % 1_000 == 0 {
        "."@ + padded((nanosecond / 1_000) as nat, 6)
    } else {
        "."@ + padded(nanosecond as nat, 9)
    }
}

/// A time zone as a sign, hours and minutes, rounded to the nearest minute.
pub open spec fn zone_text(ahead: int) -> Seq<char> {
    let minutes = ((if ahead < 0 { -ahead } else { ahead }) + 30) / 60;
    (if ahead < 0 { "-"@ } else { "+"@ }) + padded((minutes / 60) as nat, 2) + ":"@ + padded(
        (minutes % 60) as nat,
        2,
    )
}

impl TimeView {
    /// Whether a clock after the Unix epoch can show this time somewhere.
    pub open spec fn can_be_shown(self) -> bool {
        &&& 1969 <= self.date.year
        &&& 1 <= self.date.month <= 12
        &&& 1 <= self.date.day <= days_in_month(self.date.year, self.date.month)
        &&& 0 <= self.hour < 24
        &&& 0 <= self.minute < 60
        &&& 0 <= self.second < 60
        &&& 0 <= self.nanosecond < 1_000_000_000
        &&& -86400 < self.ahead < 86400
    }

    /// This time as RFC 3339 writes it.
    pub open spec fn text(self) -> Seq<char> {
        self.date.text() + "T"@ + padded(self.hour as nat, 2) + ":"@ + padded(
            self.minute as nat,
            2,
        ) + ":"@ + padded(self.second as nat, 2) + fraction_text(self.nanosecond) + zone_text(
            self.ahead,
        )
    }
}

/// Whether `text` is a time, as RFC 3339 writes it, that a clock can show.
pub open spec fn writes_a_time(text: Seq<char>) -> bool {
    exists|time: TimeView| #[trigger] time.text() == text && time.can_be_shown()
}

/// `Local::now` and `DateTime::to_rfc3339`: the time where the user is, as RFC
/// 3339 writes it. Which time it is depends on the clock and on the time zone.
#[verifier::external_body]
fn local_time() -> (r: String)
    ensures
        writes_a_time(r@),
{
    Local::now().to_rfc3339()
}

/// The date where the user is.
pub fn today() -> (r: Date)
    ensures
        can_be_today(r@),
{
    Date::of(local_date())
}

/// The seconds that are left until the date that `value` writes begins where the
/// user is: none where `value` writes no date, or where the clocks there do not
/// show its first instant exactly once.
pub fn seconds_until(value: &str) -> (r: Option<i64>)
    ensures
        match date_read(value@) {
            Some(date) => can_be_left(opt_int(r), date),
            None => r is None,
        },
{
    match Date::parse(value) {
        Some(date) => {
            let (year, month, day) = date.parts();
            seconds_to_midnight(year, month, day)
        },
        None => None,
    }
}

/// The time where the user is, as it is recorded: as RFC 3339 writes it.
pub fn timestamp() -> (r: String)
    ensures
        writes_a_time(r@),
{
    local_time()
}

} // verus!
