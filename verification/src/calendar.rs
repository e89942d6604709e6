//! Calendar dates and times of day as plain integers.
//!
//! Dates are those of the proleptic Gregorian calendar. Every date has a day
//! number: 0001-01-01 is day 1, and each following day is one more. Order,
//! weekday and the distance between two dates are all read off that number.

use vstd::arithmetic::div_mod::{lemma_hoist_over_denominator, lemma_mod_multiples_vanish};
use vstd::prelude::*;

verus! {

/// Whether `year` is a leap year.
pub open spec fn is_leap_year(year: int) -> bool {
    year % 4 == 0 && (year % 100 != 0 || year % 400 == 0)
}

/// Number of days in `month` of `year`; 0 where `month` is not one of 1 to 12.
pub open spec fn days_in_month(year: int, month: int) -> int {
    if month == 2 {
        if is_leap_year(year) {
            29
        } else {
            28
        }
    } else if month == 4 || month == 6 || month == 9 || month == 11 {
        30
    } else if 1 <= month <= 12 {
        31
    } else {
        0
    }
}

/// Number of days in `year`.
pub open spec fn days_in_year(year: int) -> int {
    if is_leap_year(year) {
        366
    } else {
        365
    }
}

/// Number of leap years from year 1 up to, and without, `year`.
pub open spec fn leap_years_before(year: int) -> int {
    (year - 1) / 4 - (year - 1) / 100 + (year - 1) / 400
}

/// Number of days from 0001-01-01 up to, and without, the first day of `year`.
pub open spec fn days_before_year(year: int) -> int {
    365 * (year - 1) + leap_years_before(year)
}

/// Number of days of `year` that lie before the first day of `month`.
pub open spec fn days_before_month(year: int, month: int) -> int
    decreases month,
{
    if month <= 1 {
        0
    } else {
        days_before_month(year, month - 1) + days_in_month(year, month - 1)
    }
}

/// A calendar date.
#[derive(Clone, Copy, Debug, PartialEq, Eq)]
pub struct Date {
    pub year: i32,
    pub month: u8,
    pub day: u8,
}

/// A time of day.
#[derive(Clone, Copy, Debug, PartialEq, Eq)]
pub struct Time {
    pub hour: u8,
    pub minute: u8,
    pub second: u8,
    pub nanosecond: u32,
}

/// A date together with a time of day.
#[derive(Clone, Copy, Debug, PartialEq, Eq)]
pub struct DateTime {
    pub date: Date,
    pub time: Time,
}

/// Whether `year` is a leap year.
pub fn leap_year(year: i32) -> (leap: bool)
    ensures
        leap == is_leap_year(year as int),
{
    // A shift by a multiple of 400 keeps the remainders and lifts the year
    // above zero.
    let shifted: u64 = (year as i64 + 2_147_484_000) as u64;
    proof {
        lemma_mod_multiples_vanish(536_871_000, year as int, 4);
        lemma_mod_multiples_vanish(21_474_840, year as int, 100);
        lemma_mod_multiples_vanish(5_368_710, year as int, 400);
    }
    shifted % 4 == 0 && (shifted % 100 != 0 || shifted % 400 == 0)
}

/// Number of days in `month` of `year`; 0 where `month` is not one of 1 to 12.
pub fn month_length(year: i32, month: u8) -> (days: u8)
    ensures
        days == days_in_month(year as int, month as int),
{
    if month == 2 {
        if leap_year(year) {
            29
        } else {
            28
        }
    } else if month == 4 || month == 6 || month == 9 || month == 11 {
        30
    } else if 1 <= month && month <= 12 {
        31
    } else {
        0
    }
}

/// Number of days of `year` that lie before the first day of `month`.
pub fn month_offset(year: i32, month: u8) -> (days: u16)
    ensures
        days == days_before_month(year as int, month as int),
{
    if month == 0 {
        return 0;
    }
    let mut m: u8 = 1;
    let mut days: u16 = 0;
    while m < month
        invariant
            1 <= m <= month,
            days == days_before_month(year as int, m as int),
            days <= 31 * (m - 1),
        decreases month - m,
    {
        let length: u8 = month_length(year, m);
        days = days + length as u16;
        m = m + 1;
    }
    days
}

impl Date {
    /// Whether the month and the day exist in the calendar.
    pub open spec fn wf(self) -> bool {
        &&& 1 <= self.month <= 12
        &&& 1 <= self.day <= days_in_month(self.year as int, self.month as int)
    }

    /// The day number: 1 for 0001-01-01, one more for each following day.
    pub open spec fn day_number(self) -> int {
        days_before_year(self.year as int) + days_before_month(self.year as int, self.month as int)
            + self.day
    }

    /// The weekday as a number: 1 for Monday up to 7 for Sunday.
    pub open spec fn weekday_number(self) -> int {
        (self.day_number() - 1) % 7 + 1
    }

    /// Number of month steps from the month of `self` to the month of `later`.
    pub open spec fn months_until(self, later: Date) -> int {
        (later.year - self.year) * 12 + (later.month - self.month)
    }

    /// Number of whole weeks from `self` to `later`.
    pub open spec fn weeks_until(self, later: Date) -> int {
        (later.day_number() - self.day_number()) / 7
    }

    /// Whether `self` is `other` or an earlier day.
    pub open spec fn on_or_before(self, other: Date) -> bool {
        self.day_number() <= other.day_number()
    }

    /// The date with the given year, month and day, if the calendar has it.
    pub fn new(year: i32, month: u8, day: u8) -> (date: Option<Date>)
        ensures
            date == (if (Date { year, month, day }).wf() {
                Some(Date { year, month, day })
            } else {
                None::<Date>
            }),
    {
        let date = Date { year, month, day };
        if date.is_valid() {
            Some(date)
        } else {
            None
        }
    }

    /// Whether the month and the day exist in the calendar.
    pub fn is_valid(&self) -> (ok: bool)
        ensures
            ok == self.wf(),
    {
        1 <= self.month && self.month <= 12 && 1 <= self.day && self.day <= month_length(
            self.year,
            self.month,
        )
    }

    /// The day number: 1 for 0001-01-01, one more for each following day.
    pub fn to_day_number(&self) -> (n: i64)
        ensures
            n == self.day_number(),
            -800_000_000_000 < n < 800_000_000_000,
    {
        // Shift the year by a multiple of 400 so that the divisions below take a
        // dividend that is not negative; the leap years of the shift are then
        // taken off again.
        let shifted: u64 = (self.year as i64 - 1 + 2_147_484_000) as u64;
        proof {
            lemma_hoist_over_denominator(self.year - 1, 536_871_000, 4);
            lemma_hoist_over_denominator(self.year - 1, 21_474_840, 100);
            lemma_hoist_over_denominator(self.year - 1, 5_368_710, 400);
        }
        let leaps: i64 = (shifted / 4) as i64 - (shifted / 100) as i64 + (shifted / 400) as i64
            - 520_764_870;
        let offset: u16 = month_offset(self.year, self.month);
        365 * (self.year as i64 - 1) + leaps + offset as i64 + self.day as i64
    }

    /// The weekday as a number: 1 for Monday up to 7 for Sunday.
    pub fn to_weekday_number(&self) -> (n: u8)
        ensures
            n == self.weekday_number(),
            1 <= n <= 7,
    {
        let number: i64 = self.to_day_number();
        // 7 * 120_000_000_000 lifts every day number above zero.
        let lifted: u64 = (number - 1 + 840_000_000_000) as u64;
        (lifted % 7) as u8 + 1
    }

    /// Whether both dates are the same day.
    pub fn same_day(&self, other: &Date) -> (same: bool)
        ensures
            same == (*self == *other),
    {
        self.year == other.year && self.month == other.month && self.day == other.day
    }

    /// Whether `self` is `other` or an earlier day.
    pub fn is_on_or_before(&self, other: &Date) -> (ok: bool)
        ensures
            ok == self.on_or_before(*other),
    {
        self.to_day_number() <= other.to_day_number()
    }
}

impl Time {
    /// Whether the fields name a time of day.
    pub open spec fn wf(self) -> bool {
        &&& self.hour < 24
        &&& self.minute < 60
        &&& self.second < 60
        &&& self.nanosecond < 1_000_000_000
    }

    /// The time with the given fields, if they name a time of day.
    pub fn new(hour: u8, minute: u8, second: u8) -> (time: Option<Time>)
        ensures
            time == (if hour < 24 && minute < 60 && second < 60 {
                Some(Time { hour, minute, second, nanosecond: 0 })
            } else {
                None::<Time>
            }),
    {
        if hour < 24 && minute < 60 && second < 60 {
            Some(Time { hour, minute, second, nanosecond: 0 })
        } else {
            None
        }
    }

    /// Whether the fields name a time of day.
    pub fn is_valid(&self) -> (ok: bool)
        ensures
            ok == self.wf(),
    {
        self.hour < 24 && self.minute < 60 && self.second < 60 && self.nanosecond < 1_000_000_000
    }
}

impl DateTime {
    /// Whether both the date and the time are well formed.
    pub open spec fn wf(self) -> bool {
        self.date.wf() && self.time.wf()
    }

    /// Whether both the date and the time are well formed.
    pub fn is_valid(&self) -> (ok: bool)
        ensures
            ok == self.wf(),
    {
        self.date.is_valid() && self.time.is_valid()
    }
}

/// Each year adds its own number of days to the day number of its first day.
pub proof fn year_length(year: int)
    ensures
        days_before_year(year + 1) == days_before_year(year) + days_in_year(year),
{
}

/// The months of a year add up to the year.
pub proof fn months_fill_year(year: int)
    ensures
        days_before_month(year, 13) == days_in_year(year),
{
    reveal_with_fuel(days_before_month, 14);
}

/// Within a year, a later month starts on a later day, by at least the length
/// of every month between.
pub proof fn month_start_grows(year: int, earlier: int, later: int)
    requires
        1 <= earlier < later <= 13,
    ensures
        days_before_month(year, earlier) + days_in_month(year, earlier) <= days_before_month(
            year,
            later,
        ),
    decreases later - earlier,
{
    if earlier + 1 < later {
        month_start_grows(year, earlier, later - 1);
    }
}

/// A later year starts on a later day, by at least the length of every year
/// between.
pub proof fn year_start_grows(earlier: int, later: int)
    requires
        earlier < later,
    ensures
        days_before_year(earlier) + days_in_year(earlier) <= days_before_year(later),
    decreases later - earlier,
{
    year_length(earlier);
    if earlier + 1 < later {
        year_start_grows(earlier, later - 1);
        year_length(later - 1);
    }
}

/// The day number orders well-formed dates as year, month and day do.
pub proof fn day_number_orders(a: Date, b: Date)
    requires
        a.wf(),
        b.wf(),
    ensures
        a.day_number() < b.day_number() <==> (a.year < b.year || (a.year == b.year && (a.month
            < b.month || (a.month == b.month && a.day < b.day)))),
        a.day_number() == b.day_number() <==> a == b,
{
    day_number_in_year(a);
    day_number_in_year(b);
    if a.year < b.year {
        year_start_grows(a.year as int, b.year as int);
    } else if b.year < a.year {
        year_start_grows(b.year as int, a.year as int);
    } else if a.month < b.month {
        month_start_grows(a.year as int, a.month as int, b.month as int);
    } else if b.month < a.month {
        month_start_grows(a.year as int, b.month as int, a.month as int);
    }
}

/// A well-formed date lies within its own year.
pub proof fn day_number_in_year(d: Date)
    requires
        d.wf(),
    ensures
        days_before_year(d.year as int) < d.day_number() <= days_before_year(d.year as int)
            + days_in_year(d.year as int),
        0 <= days_before_month(d.year as int, d.month as int),
{
    months_fill_year(d.year as int);
    month_start_grows(d.year as int, d.month as int, 13);
    reveal_with_fuel(days_before_month, 14);
}

/// The day after a well-formed date, where the year can still be written, has
/// the next day number.
pub proof fn next_day_number(d: Date, next: Date)
    requires
        d.wf(),
        next.wf(),
        ({
            ||| (next.year == d.year && next.month == d.month && next.day == d.day + 1)
            ||| (next.year == d.year && next.month == d.month + 1 && next.day == 1 && d.day
                == days_in_month(d.year as int, d.month as int))
            ||| (next.year == d.year + 1 && next.month == 1 && next.day == 1 && d.month == 12
                && d.day == 31)
        }),
    ensures
        next.day_number() == d.day_number() + 1,
{
    reveal_with_fuel(days_before_month, 14);
    year_length(d.year as int);
    months_fill_year(d.year as int);
}

} // verus!
