//! The billing calendar: month lengths, the day on which a billing period
//! begins, and the rule that says when the counters start over.

use vstd::prelude::*;

verus! {

/// A day of the Gregorian calendar, as the clock reports it.
#[derive(Clone, Copy, Debug, PartialEq, Eq, Structural)]
pub struct CalendarDate {
    pub year: i32,
    /// 1 (January) to 12 (December).
    pub month: u8,
    /// 1 to 31.
    pub day: u8,
}

impl CalendarDate {
    /// The month and the day are in the ranges that a calendar has.
    pub open spec fn well_formed(self) -> bool {
        1 <= self.month <= 12 && 1 <= self.day <= 31
    }

    /// The date with the given parts, if there is such a day.
    pub fn new(year: i32, month: u8, day: u8) -> (r: Option<CalendarDate>)
        ensures
            r is Some <==> 1 <= month <= 12 && 1 <= day <= days_in_month(year as int, month as int),
            r matches Some(date) ==> date.well_formed() && date == (CalendarDate {
                year,
                month,
                day,
            }),
    {
        if 1 <= month && month <= 12 && 1 <= day && day <= month_length(year, month) {
            Some(CalendarDate { year, month, day })
        } else {
            None
        }
    }
}

/// Leap years are those divisible by 4 and not by 100, and those divisible by 400.
pub open spec fn is_leap_year(year: int) -> bool {
    year % 4 == 0 && (year % 100 != 0 || year % 400 == 0)
}

/// The number of days of a month (1 to 12) in a given year. For a number
/// that is no month the answer is 31, which says nothing.
pub open spec fn days_in_month(year: int, month: int) -> int {
    if month == 2 {
        if is_leap_year(year) {
            29
        } else {
            28
        }
    } else if month == 4 || month == 6 || month == 9 || month == 11 {
        30
    } else {
        31
    }
}

/// The day on which the billing period begins in a given month: the
/// configured day, or the last day of the month where the month is shorter.
pub open spec fn effective_day(reset_day: int, year: int, month: int) -> int {
    if reset_day <= days_in_month(year, month) {
        reset_day
    } else {
        days_in_month(year, month)
    }
}

/// How many months lie between the month of the last reset and `month`,
/// counting round the year: 0 to 11. A month of last reset outside 1 to 12
/// counts as long ago.
pub open spec fn months_since(last_reset_month: int, month: int) -> int {
    if 1 <= last_reset_month <= 12 {
        (month - last_reset_month + 12) % 12
    } else {
        11
    }
}

/// Whether a billing reset is due on `today`.
///
/// It is never due in the month of the last reset. It is due whenever more
/// than one month has gone by since, and in the month that follows the last
/// reset it is due from the effective reset day on.
pub open spec fn reset_due(last_reset_month: u8, reset_day: u8, today: CalendarDate) -> bool {
    let elapsed = months_since(last_reset_month as int, today.month as int);
    last_reset_month != today.month && (elapsed > 1 || today.day >= effective_day(
        reset_day as int,
        today.year as int,
        today.month as int,
    ))
}

/// The reset day never lies beyond the end of the month, and it is the
/// configured day whenever the month has that day.
pub proof fn lemma_effective_day_within_month(reset_day: int, year: int, month: int)
    requires
        1 <= month <= 12,
    ensures
        effective_day(reset_day, year, month) <= days_in_month(year, month),
        effective_day(reset_day, year, month) <= reset_day,
        28 <= days_in_month(year, month) <= 31,
        reset_day <= days_in_month(year, month) ==> effective_day(reset_day, year, month)
            == reset_day,
{
}

/// No reset is due in the month in which the last one took place, whatever
/// the day and the configured reset day.
pub proof fn lemma_no_reset_in_same_month(reset_day: u8, today: CalendarDate)
    ensures
        !reset_due(today.month, reset_day, today),
{
}

/// After two or more months without a reset, one is due on any day.
pub proof fn lemma_reset_after_long_absence(last_reset_month: u8, reset_day: u8, today: CalendarDate)
    requires
        1 <= today.month <= 12,
        months_since(last_reset_month as int, today.month as int) >= 2,
    ensures
        reset_due(last_reset_month, reset_day, today),
{
}

/// Whether `year` is a leap year.
pub fn leap_year(year: i32) -> (r: bool)
    ensures
        r == is_leap_year(year as int),
{
    year % 4 == 0 && (year % 100 != 0 || year % 400 == 0)
}

/// The number of days of `month` in `year`.
pub fn month_length(year: i32, month: u8) -> (r: u8)
    ensures
        r == days_in_month(year as int, month as int),
        28 <= r <= 31,
{
    if month == 2 {
        if leap_year(year) {
            29
        } else {
            28
        }
    } else if month == 4 || month == 6 || month == 9 || month == 11 {
        30
    } else {
        31
    }
}

/// The day on which the billing period begins in `month` of `year`.
pub fn effective_reset_day(reset_day: u8, year: i32, month: u8) -> (r: u8)
    ensures
        r == effective_day(reset_day as int, year as int, month as int),
        r <= days_in_month(year as int, month as int),
        r <= reset_day,
{
    let length = month_length(year, month);
    if reset_day <= length {
        reset_day
    } else {
        length
    }
}

/// Whether the counters start over on `today`, given the month of the last
/// reset and the configured reset day.
pub fn should_reset(last_reset_month: u8, reset_day: u8, today: CalendarDate) -> (r: bool)
    ensures
        r == reset_due(last_reset_month, reset_day, today),
        last_reset_month == today.month ==> !r,
        today.well_formed() && months_since(last_reset_month as int, today.month as int) >= 2
            ==> r,
{
    if last_reset_month == today.month {
        return false;
    }
    if !(1 <= last_reset_month && last_reset_month <= 12) {
        return true;
    }
    let elapsed: u16 = (today.month as u16 + 12 - last_reset_month as u16) % 12;
    elapsed > 1 || today.day >= effective_reset_day(reset_day, today.year, today.month)
}

} // verus!
