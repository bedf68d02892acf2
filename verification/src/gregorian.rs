//! The proleptic Gregorian calendar on machine integers: the executable
//! counterparts of the functions of `civil`.

use crate::arith::{floor_div, floor_mod};
use crate::civil::{
    lemma_cycle_ends_in_leap_year,
    civil_of_day, days_before_month, days_in_month, days_in_year, is_leap_year, lemma_civil_of_day,
    lemma_days_before_month, lemma_epoch_day_monotonic, lemma_march_anchor, lemma_march_cycles,
    lemma_march_date, march_date, march_month_length, march_offset, march_year_start,
    weekday_of_day, CivilDate, LEAP_EPOCH_DAY,
};
use vstd::prelude::*;

verus! {

/// The day count of the first day of the earliest year that a 32-bit
/// number can name.
pub const MIN_DAY: i64 = -784353015833;

/// The day count of the last day of the latest year that a 32-bit number
/// can name.
pub const MAX_DAY: i64 = 784351576776;

/// The days from `MIN_DAY` to `MAX_DAY` are those whose year a 32-bit
/// number can name.
pub proof fn lemma_year_fits(d: CivilDate)
    requires
        d.is_calendar_day(),
    ensures
        i32::MIN <= d.year <= i32::MAX <==> MIN_DAY <= d.epoch_day() <= MAX_DAY,
{
    let first = CivilDate { year: i32::MIN as int, month: 1, day: 1 };
    let last = CivilDate { year: i32::MAX as int, month: 12, day: 31 };
    lemma_days_before_month(i32::MIN as int, 1);
    lemma_days_before_month(i32::MAX as int, 12);
    if d.precedes(first) {
        lemma_epoch_day_monotonic(d, first);
    } else if first.precedes(d) {
        lemma_epoch_day_monotonic(first, d);
    }
    if d.precedes(last) {
        lemma_epoch_day_monotonic(d, last);
    } else if last.precedes(d) {
        lemma_epoch_day_monotonic(last, d);
    }
}

/// Whether `year` is a leap year.
pub fn leap_year(year: i64) -> (r: bool)
    ensures
        r == is_leap_year(year as int),
{
    year % 4 == 0 && (year % 100 != 0 || year % 400 == 0)
}

/// The number of days of `year`.
pub fn year_length(year: i64) -> (r: u16)
    ensures
        r == days_in_year(year as int),
{
    if leap_year(year) {
        366
    } else {
        365
    }
}

/// The number of days of the given month.
pub fn month_length(year: i64, month: u8) -> (r: u8)
    requires
        1 <= month <= 12,
    ensures
        r == days_in_month(year as int, month as int),
        28 <= r <= 31,
{
    if month == 2 {
        if leap_year(year) {
            29
        } else {
            28
        }
    } else if month == 4 || month == 6 || month == 9 || month == 11 {
        30
    } else {
        31
    }
}

/// Whether the month is one of the twelve and the day exists in it.
pub fn calendar_day(year: i64, month: u8, day: u8) -> (r: bool)
    ensures
        r == (CivilDate {
            year: year as int,
            month: month as int,
            day: day as int,
        }).is_calendar_day(),
{
    1 <= month && month <= 12 && 1 <= day && day <= month_length(year, month)
}

/// The position of a day in its year: the lengths of the months before it,
/// and the day of the month.
pub fn ordinal_day(year: i64, month: u8, day: u8) -> (r: u16)
    requires
        (CivilDate { year: year as int, month: month as int, day: day as int }).is_calendar_day(),
    ensures
        r == (CivilDate { year: year as int, month: month as int, day: day as int }).ordinal(),
        1 <= r <= days_in_year(year as int),
{
    let mut before: u16 = 0;
    let mut m: u8 = 1;
    while m < month
        invariant
            1 <= m <= month <= 12,
            before == days_before_month(year as int, m as int),
        decreases month - m,
    {
        proof {
            lemma_days_before_month(year as int, m as int);
        }
        before = before + month_length(year, m) as u16;
        m = m + 1;
    }
    proof {
        lemma_days_before_month(year as int, month as int);
    }
    before + day as u16
}

/// The number of days from 1970-01-01 to the given day: 365 for each year,
/// the leap days in between, and the days of the year before this one.
pub fn epoch_day(year: i32, month: u8, day: u8) -> (r: i64)
    requires
        (CivilDate { year: year as int, month: month as int, day: day as int }).is_calendar_day(),
    ensures
        r == (CivilDate { year: year as int, month: month as int, day: day as int }).epoch_day(),
        MIN_DAY <= r <= MAX_DAY,
{
    proof {
        lemma_year_fits(CivilDate { year: year as int, month: month as int, day: day as int });
    }
    let year = year as i64;
    let mut days: i64 = (year - 1970) * 365;
    days = days + floor_div(year - 1969, 4);
    days = days - floor_div(year - 1901, 100);
    days = days + floor_div(year - 1601, 400);
    days = days + ordinal_day(year, month, day) as i64;
    days - 1
}

/// The ISO weekday of the day with the given day count, Monday = 1 to
/// Sunday = 7.
pub fn weekday(day: i64) -> (r: u8)
    ensures
        r == weekday_of_day(day as int),
        1 <= r <= 7,
{
    (floor_mod(floor_mod(day, 7) + 3, 7) + 1) as u8
}

/// The length of a month of the year that starts in March; the last one,
/// February, is given its leap-year length.
fn march_month_days(index: u8) -> (r: i64)
    requires
        index <= 11,
    ensures
        index < 11 ==> r == march_offset(index + 1) - march_offset(index as int),
        index == 11 ==> r == 29,
        28 <= r <= 31,
{
    if index == 11 {
        29
    } else if index == 1 || index == 3 || index == 6 || index == 8 {
        30
    } else {
        31
    }
}

/// Splits a number of days since 2000-03-01 into whole years and the days
/// of the last, unfinished year: cycles of 400, 100 and 4 years and single
/// years, of which at most 3, 24 and 3 fit into the next larger cycle.
fn split_march_years(since: i64) -> (r: (i64, i64))
    requires
        MIN_DAY - LEAP_EPOCH_DAY <= since <= MAX_DAY,
    ensures
        since == march_year_start(r.0 as int) + r.1,
        0 <= r.1 <= 365,
        r.1 == 365 ==> is_leap_year(2000 + r.0 + 1),
        -3_000_000_000 < r.0 < 3_000_000_000,
{
    let cycles_400 = floor_div(since, 146097);
    let in_400 = since - cycles_400 * 146097;
    let mut cycles_100 = in_400 / 36524;
    if cycles_100 == 4 {
        cycles_100 = 3;
    }
    let in_100 = in_400 - cycles_100 * 36524;
    let mut cycles_4 = in_100 / 1461;
    if cycles_4 == 25 {
        cycles_4 = 24;
    }
    let in_4 = in_100 - cycles_4 * 1461;
    let mut years = in_4 / 365;
    if years == 4 {
        years = 3;
    }
    let in_year = in_4 - years * 365;
    let count = years + 4 * cycles_4 + 100 * cycles_100 + 400 * cycles_400;
    proof {
        lemma_march_cycles(cycles_400 as int, cycles_100 as int, cycles_4 as int, years as int);
        if in_year == 365 {
            lemma_cycle_ends_in_leap_year(cycles_400 as int, cycles_100 as int, cycles_4 as int);
        }
    }
    (count, in_year)
}

/// Splits a day of a year that starts in March into the month, counted from
/// March = 0, and the day of that month, counted from 0.
fn split_march_months(march_year: i64, in_year: i64) -> (r: (u8, u8))
    requires
        0 <= in_year <= 365,
        in_year == 365 ==> is_leap_year(march_year + 1),
    ensures
        r.0 <= 11,
        in_year == march_offset(r.0 as int) + r.1,
        r.1 < march_month_length(march_year as int, r.0 as int),
{
    let mut index: u8 = 0;
    let mut rest = in_year;
    while index < 11 && rest >= march_month_days(index)
        invariant
            index <= 11,
            0 <= rest,
            in_year == march_offset(index as int) + rest,
        decreases 11 - index,
    {
        rest = rest - march_month_days(index);
        index = index + 1;
    }
    (index, rest as u8)
}

/// The calendar day with the given day count, as year, month and day.
///
/// The days since 2000-03-01 are split into whole years and a day of a year
/// that starts in March, so that a leap day comes last; that day is then
/// split into month and day.
pub fn date_of_epoch_day(day: i64) -> (r: (i32, u8, u8))
    requires
        MIN_DAY <= day <= MAX_DAY,
    ensures
        (CivilDate { year: r.0 as int, month: r.1 as int, day: r.2 as int }) == civil_of_day(
            day as int,
        ),
        civil_of_day(day as int).is_calendar_day(),
        civil_of_day(day as int).epoch_day() == day,
{
    let (count, in_year) = split_march_years(day - LEAP_EPOCH_DAY);
    let march_year = 2000 + count;
    let (index, rest) = split_march_months(march_year, in_year);
    proof {
        lemma_march_anchor(count as int);
        lemma_march_date(march_year as int, index as int, rest as int);
        lemma_civil_of_day(march_date(march_year as int, index as int, rest as int));
        lemma_year_fits(march_date(march_year as int, index as int, rest as int));
    }
    if index >= 10 {
        ((march_year + 1) as i32, index - 9, rest + 1)
    } else {
        (march_year as i32, index + 3, rest + 1)
    }
}

} // verus!
