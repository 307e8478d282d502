//! Calendar days, counted as chrono counts them: day 1 is 0001-01-01 of the
//! proleptic Gregorian calendar.

use vstd::prelude::*;
use chrono::Datelike;
use chrono::NaiveDate;

verus! {

/// Day number of the earliest day that `chrono::NaiveDate` can hold.
pub const MIN_DAYS: i32 = -95_746_129;

/// Day number of the latest day that `chrono::NaiveDate` can hold.
pub const MAX_DAYS: i32 = 95_745_399;

/// One calendar day.
#[derive(Clone, Copy, Debug, PartialEq, Eq, Structural, Hash)]
pub struct Date {
    days: i32,
}

impl Date {
    #[verifier::type_invariant]
    spec fn in_range(self) -> bool {
        MIN_DAYS <= self.days <= MAX_DAYS
    }

    /// The number of the day: 1 for 0001-01-01.
    pub closed spec fn ord(self) -> int {
        self.days as int
    }

    /// The day with the given number, if there is one.
    pub fn from_days(days: i32) -> (r: Option<Date>)
        ensures
            r is Some <==> MIN_DAYS <= days <= MAX_DAYS,
            r matches Some(d) ==> d.ord() == days,
    {
        if MIN_DAYS <= days && days <= MAX_DAYS {
            Some(Date { days })
        } else {
            None
        }
    }

    /// The number of the day.
    pub fn days(&self) -> (n: i32)
        ensures
            n == self.ord(),
            MIN_DAYS <= n <= MAX_DAYS,
    {
        proof {
            use_type_invariant(self);
        }
        self.days
    }
}

/// The number of the day with the given year, month and day of the month in
/// the proleptic Gregorian calendar, as `chrono` counts it; `None` where the
/// calendar has no such day or `chrono` cannot hold it.
pub uninterp spec fn days_from_civil(year: int, month: int, day: int) -> Option<int>;

/// The text of a day in the form year-month-day, as `chrono` writes it for
/// the format `%Y-%m-%d`.
pub uninterp spec fn iso_date_text(days: int) -> Seq<char>;

/// The English name of the day of the week with the given number, 0 for
/// Monday.
pub open spec fn weekday_name(index: int) -> Seq<char> {
    if index == 0 {
        seq!['M', 'o', 'n', 'd', 'a', 'y']
    } else if index == 1 {
        seq!['T', 'u', 'e', 's', 'd', 'a', 'y']
    } else if index == 2 {
        seq!['W', 'e', 'd', 'n', 'e', 's', 'd', 'a', 'y']
    } else if index == 3 {
        seq!['T', 'h', 'u', 'r', 's', 'd', 'a', 'y']
    } else if index == 4 {
        seq!['F', 'r', 'i', 'd', 'a', 'y']
    } else if index == 5 {
        seq!['S', 'a', 't', 'u', 'r', 'd', 'a', 'y']
    } else {
        seq!['S', 'u', 'n', 'd', 'a', 'y']
    }
}

/// The place in the week of the day with the given number, 0 for Monday:
/// day 1 is a Monday.
pub open spec fn weekday_index(days: int) -> int {
    (days - 1) % 7
}

/// The day number of a calendar date.
///
/// Trusted: calls `chrono::NaiveDate::from_ymd_opt` and, on the date it
/// gives, `Datelike::num_days_from_ce`. The contract only gives the result
/// its name: it depends on the three arguments alone.
#[verifier::external_body]
fn civil_to_days(year: i32, month: u32, day: u32) -> (r: Option<i32>)
    ensures
        r is Some <==> days_from_civil(year as int, month as int, day as int) is Some,
        r matches Some(n) ==> days_from_civil(year as int, month as int, day as int) == Some(
            n as int,
        ),
{
    NaiveDate::from_ymd_opt(year, month, day).map(|d| d.num_days_from_ce())
}

/// The year-month-day text of the day with the given number.
///
/// Trusted: calls `chrono::NaiveDate::from_num_days_from_ce_opt`, which gives
/// a date for every number from `MIN_DAYS` to `MAX_DAYS`, and formats that
/// date with `NaiveDate::format` and `%Y-%m-%d`. The contract only gives the
/// text its name: it depends on the day number alone.
#[verifier::external_body]
fn days_to_iso_text(days: i32) -> (r: String)
    requires
        MIN_DAYS <= days <= MAX_DAYS,
    ensures
        r@ == iso_date_text(days as int),
{
    NaiveDate::from_num_days_from_ce_opt(days).unwrap().format("%Y-%m-%d").to_string()
}

/// The English name of the weekday of the day with the given number.
///
/// Trusted: calls `chrono::NaiveDate::from_num_days_from_ce_opt`, which gives
/// a date for every number from `MIN_DAYS` to `MAX_DAYS`, and formats that
/// date with `NaiveDate::format` and `%A`, the full English weekday name.
/// The contract says which name: day 1 of the calendar is a Monday, and the
/// names repeat every seven days.
#[verifier::external_body]
fn days_to_weekday_text(days: i32) -> (r: String)
    requires
        MIN_DAYS <= days <= MAX_DAYS,
    ensures
        r@ == weekday_name(weekday_index(days as int)),
{
    NaiveDate::from_num_days_from_ce_opt(days).unwrap().format("%A").to_string()
}

impl Date {
    /// The day with the given year, month and day of the month, if the
    /// calendar has one.
    pub fn from_ymd(year: i32, month: u32, day: u32) -> (r: Option<Date>)
        ensures
            r is Some <==> Self::ymd_in_range(year as int, month as int, day as int),
            r matches Some(d) ==> Some(d.ord()) == days_from_civil(
                year as int,
                month as int,
                day as int,
            ),
    {
        match civil_to_days(year, month, day) {
            Some(n) => Date::from_days(n),
            None => None,
        }
    }

    /// Whether year, month and day name a day that a `Date` can hold.
    pub open spec fn ymd_in_range(year: int, month: int, day: int) -> bool {
        match days_from_civil(year, month, day) {
            Some(n) => MIN_DAYS <= n <= MAX_DAYS,
            None => false,
        }
    }

    /// The day `n` days after this one, if a `Date` can hold it.
    pub fn plus_days(&self, n: u32) -> (r: Option<Date>)
        ensures
            r is Some <==> self.ord() + n <= MAX_DAYS,
            r matches Some(d) ==> d.ord() == self.ord() + n,
    {
        let sum: i64 = self.days() as i64 + n as i64;
        if sum <= MAX_DAYS as i64 {
            Date::from_days(sum as i32)
        } else {
            None
        }
    }

    /// The day `n` days before this one, if a `Date` can hold it.
    pub fn minus_days(&self, n: u32) -> (r: Option<Date>)
        ensures
            r is Some <==> self.ord() - n >= MIN_DAYS,
            r matches Some(d) ==> d.ord() == self.ord() - n,
    {
        let difference: i64 = self.days() as i64 - n as i64;
        if difference >= MIN_DAYS as i64 {
            Date::from_days(difference as i32)
        } else {
            None
        }
    }

    /// The day after this one, if a `Date` can hold it.
    pub fn next_day(&self) -> (r: Option<Date>)
        ensures
            r is Some <==> self.ord() < MAX_DAYS,
            r matches Some(d) ==> d.ord() == self.ord() + 1,
    {
        self.plus_days(1)
    }

    /// Whether this day comes before `other`.
    pub fn is_before(&self, other: &Date) -> (r: bool)
        ensures
            r == (self.ord() < other.ord()),
    {
        self.days() < other.days()
    }

    /// The day as text, year-month-day.
    pub fn iso_text(&self) -> (r: String)
        ensures
            r@ == iso_date_text(self.ord()),
    {
        days_to_iso_text(self.days())
    }

    /// The English name of the day's weekday.
    pub fn weekday_text(&self) -> (r: String)
        ensures
            r@ == weekday_name(weekday_index(self.ord())),
    {
        days_to_weekday_text(self.days())
    }
}

/// Two days with the same number are the same day.
pub proof fn lemma_date_by_number(a: Date, b: Date)
    requires
        a.ord() == b.ord(),
    ensures
        a == b,
{
}

} // verus!
