//! What holds of the ISO calendar whatever the date.

use crate::calendar::{
    iso_date_add, iso_from_ymd, iso_week_of_year, Calendar, CalendarProtocol, DateOutcome,
    IsoCalendar,
};
use crate::civil::{
    civil_of_day, lemma_civil_of_day, lemma_day_has_date, lemma_days_before_month,
    weekday_of_day, CivilDate,
};
use crate::duration::CalendarUnits;
use vstd::prelude::*;

verus! {

/// A year is a leap year exactly if it is a multiple of 4 and not of 100,
/// or a multiple of 400; those are the years of 366 days.
pub proof fn lemma_leap_year_rule(date: CivilDate)
    ensures
        IsoCalendar.in_leap_year_of(date) <==> date.year % 4 == 0 && (date.year % 100 != 0
            || date.year % 400 == 0),
        IsoCalendar.in_leap_year_of(date) <==> IsoCalendar.days_in_year_of(date) == 366,
        Calendar::Iso8601.in_leap_year_of(date) == IsoCalendar.in_leap_year_of(date),
{
}

/// The day after a day has the next weekday, and the day a week after it
/// the same one.
pub proof fn lemma_weekdays_follow(day: int)
    ensures
        1 <= weekday_of_day(day) <= 7,
        weekday_of_day(day + 1) == weekday_of_day(day) % 7 + 1,
        weekday_of_day(day + 7) == weekday_of_day(day),
{
}

/// A year has 52 or 53 weeks: the week of a date is a number from 1 to 53,
/// and the Thursday of its week is at most three days away.
pub proof fn lemma_week_of_year(date: CivilDate)
    requires
        date.is_calendar_day(),
    ensures
        1 <= iso_week_of_year(date) <= 53,
        -3 <= 4 - date.weekday() <= 3,
{
    let thursday = civil_of_day(date.epoch_day() - date.weekday() + 4);
    lemma_day_has_date(date.epoch_day() - date.weekday() + 4);
    lemma_days_before_month(thursday.year, thursday.month);
}

/// The date that a year, a month and a day are settled on is a calendar
/// day in a representable year, and its own year, month and day are settled on
/// it without being moved.
pub proof fn lemma_from_ymd_settles(year: int, month: int, day: int)
    requires
        month >= 1,
        day >= 1,
    ensures
        iso_from_ymd(year, month, day).date.is_representable(),
        iso_from_ymd(
            iso_from_ymd(year, month, day).date.year,
            iso_from_ymd(year, month, day).date.month,
            iso_from_ymd(year, month, day).date.day,
        ) == (DateOutcome { date: iso_from_ymd(year, month, day).date, constrained: false }),
        Calendar::Iso8601.from_ymd_outcome(year, month, day) == iso_from_ymd(year, month, day),
        IsoCalendar.from_ymd_outcome(year, month, day) == iso_from_ymd(year, month, day),
{
}

/// A year, a month and a day are settled on without being moved exactly if
/// they are a calendar day in a representable year.
pub proof fn lemma_from_ymd_normal(year: int, month: int, day: int)
    requires
        month >= 1,
        day >= 1,
    ensures
        !iso_from_ymd(year, month, day).constrained <==> (CivilDate {
            year,
            month,
            day,
        }).is_representable(),
        !iso_from_ymd(year, month, day).constrained ==> iso_from_ymd(year, month, day).date
            == (CivilDate { year, month, day }),
{
}

/// Adding a duration of no length to a date gives the date itself, and
/// moves nothing.
pub proof fn lemma_date_add_nothing(date: CivilDate)
    requires
        date.is_calendar_day(),
    ensures
        iso_date_add(date, CalendarUnits { years: 0, months: 0, weeks: 0, days: 0 })
            == (DateOutcome { date, constrained: false }),
{
    lemma_civil_of_day(date);
}

/// Adding whole years and months to a day that exists in every month leads
/// to the same day of the month that they lead to, and moves nothing.
pub proof fn lemma_date_add_months(date: CivilDate, years: int, months: int)
    requires
        date.is_calendar_day(),
        date.day <= 28,
    ensures
        iso_date_add(date, CalendarUnits { years, months, weeks: 0, days: 0 }) == (DateOutcome {
            date: CivilDate {
                year: date.year + years + (date.month - 1 + months) / 12,
                month: (date.month - 1 + months) % 12 + 1,
                day: date.day,
            },
            constrained: false,
        }),
{
    lemma_civil_of_day(
        CivilDate {
            year: date.year + years + (date.month - 1 + months) / 12,
            month: (date.month - 1 + months) % 12 + 1,
            day: date.day,
        },
    );
}

/// Adding weeks and days to a date moves nothing, and taking them away
/// again leads back to the date.
pub proof fn lemma_date_add_days_back(date: CivilDate, weeks: int, days: int)
    requires
        date.is_calendar_day(),
    ensures
        !iso_date_add(date, CalendarUnits { years: 0, months: 0, weeks, days }).constrained,
        iso_date_add(
            iso_date_add(date, CalendarUnits { years: 0, months: 0, weeks, days }).date,
            CalendarUnits { years: 0, months: 0, weeks: -weeks, days: -days },
        ) == (DateOutcome { date, constrained: false }),
{
    lemma_day_has_date(date.epoch_day() + 7 * weeks + days);
    lemma_civil_of_day(date);
}

} // verus!
