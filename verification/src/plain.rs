//! Dates without a time or a time zone, read in a calendar.

use crate::calendar::{Calendar, CalendarProtocol, DateOutcome, FromYMDResult};
use crate::civil::CivilDate;
use crate::iso::grammar::text_parsed;
use crate::iso::parser::parse;
use crate::iso::IsoDate;
use vstd::prelude::*;

verus! {

/// A civil date and the calendar that it is read in. The date is held as
/// the ISO date; what the calendar says of it is worked out when asked for.
pub struct PlainDate<C: CalendarProtocol = Calendar> {
    pub(crate) calendar: C,
    pub(crate) iso_year: i32,
    pub(crate) iso_month: u8,
    pub(crate) iso_day: u16,
}

/// A date that was made from a year, a month and a day, before it is
/// settled whether a date that had to be moved is accepted.
pub struct MaybeOutOfRangePlainDate<C: CalendarProtocol>(FromYMDResult, C);

impl<C: CalendarProtocol> MaybeOutOfRangePlainDate<C> {
    /// The date, and whether it had to be moved to exist.
    pub closed spec fn outcome(&self) -> DateOutcome {
        self.0@
    }

    /// The calendar that the date is read in.
    pub closed spec fn calendar_of(&self) -> C {
        self.1
    }

    /// The date, moved to the nearest date that exists where the one that
    /// was asked for does not.
    pub fn constrain(self) -> (r: PlainDate<C>)
        ensures
            r.civil() == self.outcome().date,
            r.calendar_of() == self.calendar_of(),
    {
        match self.0 {
            FromYMDResult::Normal(x) | FromYMDResult::OverflowConstrained(x) => {
                PlainDate::from_iso_date(x, self.1)
            },
        }
    }
}

impl<C: CalendarProtocol + Clone> Clone for PlainDate<C> {
    fn clone(&self) -> (r: Self)
        ensures
            r.civil() == self.civil(),
    {
        proof {
            use_type_invariant(self);
        }
        PlainDate {
            calendar: self.calendar.clone(),
            iso_year: self.iso_year,
            iso_month: self.iso_month,
            iso_day: self.iso_day,
        }
    }
}

impl<C: CalendarProtocol + Copy> Copy for PlainDate<C> {

}

impl<C: CalendarProtocol + Copy> PlainDate<C> {
    /// The calendar that the date is read in.
    pub fn calendar(self) -> (r: C)
        ensures
            r == self.calendar_of(),
    {
        self.calendar
    }
}

impl<C: CalendarProtocol> PlainDate<C> {
    /// What holds of every plain date: its ISO fields are a calendar day in
    /// a representable year.
    #[verifier::type_invariant]
    pub closed spec fn is_valid(self) -> bool {
        self.civil().is_representable()
    }

    /// The ISO date.
    pub closed spec fn civil(&self) -> CivilDate {
        CivilDate {
            year: self.iso_year as int,
            month: self.iso_month as int,
            day: self.iso_day as int,
        }
    }

    /// The calendar that the date is read in.
    pub closed spec fn calendar_of(&self) -> C {
        self.calendar
    }

    /// The plain date of the given ISO date and calendar.
    pub closed spec fn of(date: CivilDate, calendar: C) -> PlainDate<C> {
        PlainDate {
            calendar,
            iso_year: date.year as i32,
            iso_month: date.month as u8,
            iso_day: date.day as u16,
        }
    }

    /// The date of a year, a month and a day of the given calendar. Neither
    /// the month nor the day may be zero; one that is too large is moved to
    /// the nearest that exists.
    pub fn from_ymd(year: i32, month: u32, day: u32, calendar: C) -> (r: MaybeOutOfRangePlainDate<
        C,
    >)
        requires
            calendar.supported(),
            month >= 1,
            day >= 1,
        ensures
            r.outcome() == calendar.from_ymd_outcome(year as int, month as int, day as int),
            r.calendar_of() == calendar,
    {
        MaybeOutOfRangePlainDate(calendar.from_ymd(year, month, day), calendar)
    }

    /// The plain date of the given ISO date and calendar.
    pub fn from_iso_date(iso_date: IsoDate, calendar: C) -> (r: Self)
        ensures
            r == PlainDate::of(iso_date@, calendar),
            r.civil() == iso_date@,
            r.calendar_of() == calendar,
    {
        proof {
            use_type_invariant(iso_date);
        }
        Self {
            calendar,
            iso_day: iso_date.day(),
            iso_month: iso_date.month(),
            iso_year: iso_date.year(),
        }
    }

    /// The ISO date.
    pub fn iso_date(&self) -> (r: IsoDate)
        ensures
            r@ == self.civil(),
    {
        proof {
            use_type_invariant(self);
        }
        IsoDate::new_unchecked(self.iso_year, self.iso_month, self.iso_day)
    }

    /// The year of the ISO date.
    pub fn iso_year(&self) -> (r: i32)
        ensures
            r == self.civil().year,
    {
        self.iso_year
    }

    /// The month of the ISO date.
    pub fn iso_month(&self) -> (r: u8)
        ensures
            r == self.civil().month,
    {
        self.iso_month
    }

    /// The day of the month of the ISO date.
    pub fn iso_day(&self) -> (r: u16)
        ensures
            r == self.civil().day,
    {
        self.iso_day
    }

    /// The year of the date in its calendar.
    pub fn year(&self) -> (r: i32)
        requires
            self.calendar_of().supported(),
        ensures
            r == self.calendar_of().year_of(self.civil()),
    {
        self.calendar.year(self.iso_date())
    }

    /// The month of the date in its calendar.
    pub fn month(&self) -> (r: u32)
        requires
            self.calendar_of().supported(),
        ensures
            r == self.calendar_of().month_of(self.civil()),
    {
        self.calendar.month(self.iso_date())
    }
}

impl PlainDate {
    /// The date that a date-time text starts with, in the ISO calendar.
    /// What follows the date has to follow the grammar, and is left aside.
    pub fn from_iso_text(text: &str) -> (r: Result<PlainDate, ()>)
        ensures
            r is Ok <==> text_parsed(text@) is Some,
            r matches Ok(date) ==> date.civil() == text_parsed(text@)->0.date && date.calendar_of()
                == Calendar::Iso8601,
    {
        match parse(text) {
            Some(parsed) => Ok(PlainDate::from_iso_date(parsed.date, Calendar::Iso8601)),
            None => Err(()),
        }
    }
}

impl std::str::FromStr for PlainDate {
    type Err = ();

    /// The date that a date-time text starts with, as
    /// `PlainDate::from_iso_text` gives it.
    fn from_str(x: &str) -> (r: Result<PlainDate, ()>)
        ensures
            r is Ok <==> text_parsed(x@) is Some,
            r matches Ok(date) ==> date.civil() == text_parsed(x@)->0.date && date.calendar_of()
                == Calendar::Iso8601,
    {
        PlainDate::from_iso_text(x)
    }
}

} // verus!
