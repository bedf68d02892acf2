//! Calendars: what a calendar says of a date, and the calendars that there
//! are.

use crate::civil::{civil_of_day, days_in_month, days_in_year, CivilDate, MAX_YEAR, MIN_YEAR};
use crate::duration::{CalendarUnits, NominalDuration};
use crate::iso::IsoDate;
use crate::text::{decimal_text, same_text};
use vstd::prelude::*;

pub mod impls;
pub mod laws;

verus! {

/// The calendars that a date can be read in. Only ISO 8601 is supported so
/// far; the Persian calendar has a name and nothing else.
#[derive(Debug, Clone, Copy)]
pub enum Calendar {
    Iso8601,
    Persian,
}

/// An era of a calendar and the year within it.
pub struct Era {
    pub name: String,
    pub year: u32,
}

/// A date that was made from a year, a month and a day, or by adding to a
/// date: as it was asked for, or moved to the nearest date that exists.
pub enum FromYMDResult {
    Normal(IsoDate),
    OverflowConstrained(IsoDate),
}

/// A date, and whether it had to be moved to exist.
pub struct DateOutcome {
    pub date: CivilDate,
    pub constrained: bool,
}

impl View for FromYMDResult {
    type V = DateOutcome;

    open spec fn view(&self) -> DateOutcome {
        match *self {
            FromYMDResult::Normal(date) => DateOutcome { date: date@, constrained: false },
            FromYMDResult::OverflowConstrained(date) => DateOutcome {
                date: date@,
                constrained: true,
            },
        }
    }
}

/// The name of the ISO 8601 calendar.
pub open spec fn iso8601_id() -> Seq<char> {
    "iso8601"@
}

/// The name of the Persian calendar.
pub open spec fn persian_id() -> Seq<char> {
    "persian"@
}

/// The calendar with the given name. Names are compared letter by letter,
/// capitals and small letters apart.
pub open spec fn calendar_named(id: Seq<char>) -> Option<Calendar> {
    if id == iso8601_id() {
        Some(Calendar::Iso8601)
    } else if id == persian_id() {
        Some(Calendar::Persian)
    } else {
        None
    }
}

impl Calendar {
    /// The calendar with the given name.
    pub fn from_id(id: &str) -> (r: Result<Calendar, ()>)
        ensures
            r is Ok <==> calendar_named(id@) is Some,
            r matches Ok(calendar) ==> calendar_named(id@) == Some(calendar),
    {
        if same_text(id, "iso8601") {
            Ok(Calendar::Iso8601)
        } else if same_text(id, "persian") {
            Ok(Calendar::Persian)
        } else {
            Err(())
        }
    }
}

impl std::str::FromStr for Calendar {
    type Err = ();

    /// The calendar with the given name, as `Calendar::from_id` gives it.
    fn from_str(s: &str) -> (r: Result<Calendar, ()>)
        ensures
            r is Ok <==> calendar_named(s@) is Some,
            r matches Ok(calendar) ==> calendar_named(s@) == Some(calendar),
    {
        Calendar::from_id(s)
    }
}

/// `x`, or the nearer of the two bounds where it lies outside them.
pub open spec fn clamp(x: int, low: int, high: int) -> int {
    if x < low {
        low
    } else if x > high {
        high
    } else {
        x
    }
}

/// What a calendar says of a date. The date is always given as the ISO
/// date; each calendar reads it in its own way.
///
/// Every query has a mathematical counterpart, and an implementation owes
/// the value of that counterpart.
pub trait CalendarProtocol {
    /// Whether the calendar answers queries at all.
    spec fn supported(&self) -> bool;

    /// The name of the calendar.
    spec fn id_text(&self) -> Seq<char>;

    /// The name of the era of the date, and the year within it.
    spec fn era_of(&self, date: CivilDate) -> Option<(Seq<char>, int)>;

    /// The year of the date in this calendar.
    spec fn year_of(&self, date: CivilDate) -> int;

    /// The month of the date in this calendar, counted from 1.
    spec fn month_of(&self, date: CivilDate) -> int;

    /// The code of the month of the date.
    spec fn month_code_of(&self, date: CivilDate) -> Seq<char>;

    /// The day of the month of the date in this calendar.
    spec fn day_of(&self, date: CivilDate) -> int;

    /// The day of the week of the date, counted from 1.
    spec fn day_of_week_of(&self, date: CivilDate) -> int;

    /// The day of the year of the date, counted from 1.
    spec fn day_of_year_of(&self, date: CivilDate) -> int;

    /// The week of the year that the date lies in.
    spec fn week_of_year_of(&self, date: CivilDate) -> int;

    /// The number of days of the week of the date.
    spec fn days_in_week_of(&self, date: CivilDate) -> int;

    /// The number of days of the month of the date.
    spec fn days_in_month_of(&self, date: CivilDate) -> int;

    /// The number of days of the year of the date.
    spec fn days_in_year_of(&self, date: CivilDate) -> int;

    /// The number of months of the year of the date.
    spec fn months_in_year_of(&self, date: CivilDate) -> int;

    /// Whether the date lies in a leap year.
    spec fn in_leap_year_of(&self, date: CivilDate) -> bool;

    /// The date of a year, a month and a day of this calendar, and whether
    /// it had to be moved to exist.
    spec fn from_ymd_outcome(&self, year: int, month: int, day: int) -> DateOutcome;

    /// Whether the sum of a date and a duration is a date in a representable
    /// year.
    spec fn date_add_defined(&self, date: CivilDate, units: CalendarUnits) -> bool;

    /// The sum of a date and a duration, and whether the day had to be moved
    /// to exist in the month that the years and months led to.
    spec fn date_add_outcome(&self, date: CivilDate, units: CalendarUnits) -> DateOutcome;

    /// The name of the calendar.
    fn id(&self) -> (r: String)
        ensures
            r@ == self.id_text(),
    ;

    /// The era of the date and the year within it, where the calendar has eras.
    fn era(&self, iso_date: IsoDate) -> (r: Option<Era>)
        requires
            self.supported(),
        ensures
            r matches Some(era) ==> self.era_of(iso_date@) == Some((era.name@, era.year as int)),
            r is None ==> self.era_of(iso_date@) is None,
    ;

    /// The year of the date in this calendar.
    fn year(&self, iso_date: IsoDate) -> (r: i32)
        requires
            self.supported(),
        ensures
            r == self.year_of(iso_date@),
    ;

    /// The month of the date in this calendar, counted from 1.
    fn month(&self, iso_date: IsoDate) -> (r: u32)
        requires
            self.supported(),
        ensures
            r == self.month_of(iso_date@),
    ;

    /// The code of the month of the date.
    fn month_code(&self, iso_date: IsoDate) -> (r: String)
        requires
            self.supported(),
        ensures
            r@ == self.month_code_of(iso_date@),
    ;

    /// The day of the month of the date in this calendar.
    fn day(&self, iso_date: IsoDate) -> (r: u32)
        requires
            self.supported(),
        ensures
            r == self.day_of(iso_date@),
    ;

    /// The day of the week of the date, counted from 1.
    fn day_of_week(&self, iso_date: IsoDate) -> (r: u32)
        requires
            self.supported(),
        ensures
            r == self.day_of_week_of(iso_date@),
    ;

    /// The day of the year of the date, counted from 1.
    fn day_of_year(&self, iso_date: IsoDate) -> (r: u32)
        requires
            self.supported(),
        ensures
            r == self.day_of_year_of(iso_date@),
    ;

    /// The week of the year that the date lies in.
    fn week_of_year(&self, iso_date: IsoDate) -> (r: u32)
        requires
            self.supported(),
        ensures
            r == self.week_of_year_of(iso_date@),
    ;

    /// The number of days of the week of the date.
    fn days_in_week(&self, iso_date: IsoDate) -> (r: u32)
        requires
            self.supported(),
        ensures
            r == self.days_in_week_of(iso_date@),
    ;

    /// The number of days of the month of the date.
    fn days_in_month(&self, iso_date: IsoDate) -> (r: u32)
        requires
            self.supported(),
        ensures
            r == self.days_in_month_of(iso_date@),
    ;

    /// The number of days of the year of the date.
    fn days_in_year(&self, iso_date: IsoDate) -> (r: u32)
        requires
            self.supported(),
        ensures
            r == self.days_in_year_of(iso_date@),
    ;

    /// The number of months of the year of the date.
    fn months_in_year(&self, iso_date: IsoDate) -> (r: u32)
        requires
            self.supported(),
        ensures
            r == self.months_in_year_of(iso_date@),
    ;

    /// Whether the date lies in a leap year.
    fn in_leap_year(&self, iso_date: IsoDate) -> (r: bool)
        requires
            self.supported(),
        ensures
            r == self.in_leap_year_of(iso_date@),
    ;

    /// The date of a year, a month and a day of this calendar. Neither the
    /// month nor the day may be zero.
    fn from_ymd(&self, year: i32, month: u32, day: u32) -> (r: FromYMDResult)
        requires
            self.supported(),
            month >= 1,
            day >= 1,
        ensures
            r@ == self.from_ymd_outcome(year as int, month as int, day as int),
    ;

    /// The sum of a date and a duration.
    fn date_add(&self, iso_date: IsoDate, dur: NominalDuration) -> (r: FromYMDResult)
        requires
            self.supported(),
            self.date_add_defined(iso_date@, dur@.calendar_units()),
        ensures
            r@ == self.date_add_outcome(iso_date@, dur@.calendar_units()),
    ;
}

/// The ISO 8601 calendar: the proleptic Gregorian calendar, with weeks that
/// start on Monday.
pub struct IsoCalendar;

/// The date of a year, a month and a day in the ISO calendar: the year is
/// moved into the representable years, then the month into the twelve
/// months, then the day into the days of that month.
pub open spec fn iso_from_ymd(year: int, month: int, day: int) -> DateOutcome {
    let y = clamp(year, MIN_YEAR as int, MAX_YEAR as int);
    let m = clamp(month, 1, 12);
    let d = clamp(day, 1, days_in_month(y, m));
    DateOutcome {
        date: CivilDate { year: y, month: m, day: d },
        constrained: y != year || m != month || d != day,
    }
}

/// The ISO week of a date: the weeks of a year are counted from the one
/// that holds its first Thursday, and a date belongs to the week, and with it
/// to the year, of the Thursday of its week.
pub open spec fn iso_week_of_year(date: CivilDate) -> int {
    let thursday = civil_of_day(date.epoch_day() - date.weekday() + 4);
    (thursday.ordinal() - 1) / 7 + 1
}

/// The month that the years and the months of a duration lead to from the
/// month of a date, with the day of the date or, where that month is shorter,
/// its last day.
pub open spec fn iso_add_months(date: CivilDate, units: CalendarUnits) -> CivilDate {
    let months = date.month - 1 + units.months;
    let year = date.year + units.years + months / 12;
    let month = months % 12 + 1;
    let length = days_in_month(year, month);
    CivilDate {
        year,
        month,
        day: if date.day > length {
            length
        } else {
            date.day
        },
    }
}

/// The day count of the sum of a date and a duration in the ISO calendar:
/// the years and months are added first, the weeks and days to the day that
/// they lead to.
pub open spec fn iso_date_add_day(date: CivilDate, units: CalendarUnits) -> int {
    iso_add_months(date, units).epoch_day() + 7 * units.weeks + units.days
}

/// The sum of a date and a duration in the ISO calendar. The outcome is
/// marked as constrained where the day of the date does not exist in the
/// month that the years and months lead to.
pub open spec fn iso_date_add(date: CivilDate, units: CalendarUnits) -> DateOutcome {
    DateOutcome {
        date: civil_of_day(iso_date_add_day(date, units)),
        constrained: date.day != iso_add_months(date, units).day,
    }
}

/// The code of a month: `M` and the number of the month.
pub open spec fn month_code_text(month: int) -> Seq<char> {
    seq!['M'] + decimal_text(month as nat)
}

} // verus!
