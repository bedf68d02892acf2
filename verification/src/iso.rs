//! Civil dates and wall-clock times as validated values, and what an ISO 8601
//! date-time text was read as.

use crate::arith::floor_div;
use crate::civil::{
    civil_of_day, civil_of_second, lemma_representable_days, CivilDate, MAX_EPOCH_DAY, MAX_YEAR,
    MIN_EPOCH_DAY, MIN_YEAR, SECONDS_PER_DAY,
};
use crate::gregorian::{calendar_day, date_of_epoch_day, epoch_day};
use vstd::prelude::*;

pub mod format;
pub mod grammar;
pub mod parser;

verus! {

/// The first second of the first day of `MIN_YEAR`.
pub const MIN_EPOCH_SECOND: i64 = -8639977881600;

/// The last second of the last day of `MAX_YEAR`.
pub const MAX_EPOCH_SECOND: i64 = 8639977881599;

/// A day of the proleptic Gregorian calendar whose year lies in
/// `MIN_YEAR ..= MAX_YEAR`. Every value is a real calendar day.
#[derive(Debug, Clone, Copy)]
pub struct IsoDate {
    year: i32,
    month: u8,
    day: u8,
}

impl View for IsoDate {
    type V = CivilDate;

    closed spec fn view(&self) -> CivilDate {
        CivilDate { year: self.year as int, month: self.month as int, day: self.day as int }
    }
}

impl IsoDate {
    /// What holds of every date: it is a calendar day in a representable
    /// year.
    #[verifier::type_invariant]
    pub open spec fn is_valid(self) -> bool {
        self@.is_representable()
    }

    /// Two dates with the same year, month and day are the same date.
    pub proof fn lemma_view_injective(self, other: IsoDate)
        requires
            self@ == other@,
        ensures
            self == other,
    {
    }

    /// The date of the given year, month and day, where that is a calendar
    /// day in a representable year.
    pub fn new(year: i32, month: u8, day: u8) -> (r: Option<IsoDate>)
        ensures
            r is Some <==> (CivilDate {
                year: year as int,
                month: month as int,
                day: day as int,
            }).is_representable(),
            r matches Some(d) ==> d@ == (CivilDate {
                year: year as int,
                month: month as int,
                day: day as int,
            }),
    {
        if year < MIN_YEAR || year > MAX_YEAR {
            return None;
        }
        if !calendar_day(year as i64, month, day) {
            return None;
        }
        Some(IsoDate { year, month, day })
    }

    /// The date of a year, month and day that are known to be a calendar day
    /// in a representable year.
    pub fn new_unchecked(year: i32, month: u8, day: u16) -> (r: IsoDate)
        requires
            (CivilDate {
                year: year as int,
                month: month as int,
                day: day as int,
            }).is_representable(),
        ensures
            r@ == (CivilDate { year: year as int, month: month as int, day: day as int }),
    {
        IsoDate { year, month, day: day as u8 }
    }

    /// The year.
    pub fn year(&self) -> (r: i32)
        ensures
            r == self@.year,
            MIN_YEAR <= r <= MAX_YEAR,
    {
        proof {
            use_type_invariant(self);
        }
        self.year
    }

    /// The month, from 1 to 12.
    pub fn month(&self) -> (r: u8)
        ensures
            r == self@.month,
            1 <= r <= 12,
    {
        proof {
            use_type_invariant(self);
        }
        self.month
    }

    /// The day of the month, from 1.
    pub fn day(&self) -> (r: u16)
        ensures
            r == self@.day,
            1 <= r <= 31,
    {
        proof {
            use_type_invariant(self);
        }
        self.day as u16
    }

    /// The number of days from 1970-01-01 to this date.
    pub fn to_epoch_day(&self) -> (r: i64)
        ensures
            r == self@.epoch_day(),
            MIN_EPOCH_DAY <= r <= MAX_EPOCH_DAY,
    {
        proof {
            use_type_invariant(self);
            lemma_representable_days(self@);
        }
        epoch_day(self.year, self.month, self.day)
    }

    /// The number of seconds from 1970-01-01T00:00:00 to the start of this
    /// date.
    pub fn to_epoch_second(&self) -> (r: i64)
        ensures
            r == self@.epoch_second(),
            MIN_EPOCH_SECOND <= r <= MAX_EPOCH_SECOND - 86399,
    {
        self.to_epoch_day() * SECONDS_PER_DAY
    }

    /// The date with the given day count.
    pub fn from_epoch_day(day: i64) -> (r: IsoDate)
        requires
            MIN_EPOCH_DAY <= day <= MAX_EPOCH_DAY,
        ensures
            r@.epoch_day() == day,
            r@ == civil_of_day(day as int),
    {
        let (year, month, day_of_month) = date_of_epoch_day(day);
        proof {
            lemma_representable_days(civil_of_day(day as int));
        }
        IsoDate { year, month, day: day_of_month }
    }

    /// The date that the given second since 1970-01-01T00:00:00 falls on.
    pub fn from_epoch_second(secs: i64) -> (r: IsoDate)
        requires
            MIN_EPOCH_SECOND <= secs <= MAX_EPOCH_SECOND,
        ensures
            r@ == civil_of_second(secs as int),
            r@.epoch_second() <= secs < r@.epoch_second() + 86400,
    {
        IsoDate::from_epoch_day(floor_div(secs, SECONDS_PER_DAY))
    }
}

/// A wall-clock time within a day. A time is valid when the hour is below 24,
/// the minute and the second below 60, and each of the three parts of the
/// fraction of a second below 1000.
#[derive(Debug, Clone, Copy)]
pub struct IsoTime {
    pub hour: u8,
    pub minute: u8,
    pub second: u8,
    pub millisecond: u16,
    pub microsecond: u16,
    pub nanosecond: u16,
}

impl Default for IsoTime {
    /// Midnight.
    fn default() -> (r: IsoTime)
        ensures
            r == IsoTime::midnight(),
    {
        IsoTime { hour: 0, minute: 0, second: 0, millisecond: 0, microsecond: 0, nanosecond: 0 }
    }
}

impl IsoTime {
    /// The start of the day.
    pub open spec fn midnight() -> IsoTime {
        IsoTime { hour: 0, minute: 0, second: 0, millisecond: 0, microsecond: 0, nanosecond: 0 }
    }

    /// Every field lies in its range.
    pub open spec fn is_valid(self) -> bool {
        &&& self.hour <= 23
        &&& self.minute <= 59
        &&& self.second <= 59
        &&& self.millisecond <= 999
        &&& self.microsecond <= 999
        &&& self.nanosecond <= 999
    }

    /// The whole seconds since the start of the day.
    pub open spec fn second_of_day(self) -> int {
        self.hour * 3600 + self.minute * 60 + self.second
    }

    /// The fraction of a second, in nanoseconds.
    pub open spec fn subsecond_nanos(self) -> int {
        self.millisecond * 1_000_000 + self.microsecond * 1000 + self.nanosecond
    }

    /// The nanoseconds since the start of the day.
    pub open spec fn nanosecond_of_day(self) -> int {
        self.second_of_day() * 1_000_000_000 + self.subsecond_nanos()
    }

    /// The whole seconds since the start of the day.
    pub fn to_second(&self) -> (r: i32)
        ensures
            r == self.second_of_day(),
            self.is_valid() ==> 0 <= r < 86400,
    {
        self.hour as i32 * 60 * 60 + self.minute as i32 * 60 + self.second as i32
    }

    /// Whether the time has a fraction of a second.
    pub fn has_nanosecond(&self) -> (r: bool)
        ensures
            r == (self.subsecond_nanos() != 0),
    {
        self.millisecond != 0 || self.microsecond != 0 || self.nanosecond != 0
    }

    /// The nanoseconds since the start of the day.
    pub fn to_nanosecond(&self) -> (r: i64)
        ensures
            r == self.nanosecond_of_day(),
    {
        self.to_second() as i64 * 1000_000_000 + self.millisecond as i64 * 1000_000
            + self.microsecond as i64 * 1000 + self.nanosecond as i64
    }
}

/// A numeric offset from UTC as it was written: a sign and a time.
#[derive(Debug, Clone, Copy)]
pub struct IsoNumericOffset {
    pub is_neg: bool,
    pub time: IsoTime,
}

impl IsoNumericOffset {
    /// The whole seconds of the offset, with its sign.
    pub open spec fn signed_seconds(self) -> int {
        if self.is_neg {
            -self.time.second_of_day()
        } else {
            self.time.second_of_day()
        }
    }

    /// The offset in nanoseconds, with its sign.
    pub open spec fn signed_nanoseconds(self) -> int {
        if self.is_neg {
            -self.time.nanosecond_of_day()
        } else {
            self.time.nanosecond_of_day()
        }
    }

    /// The whole seconds of the offset, with its sign.
    pub fn to_seconds(&self) -> (r: i32)
        ensures
            r == self.signed_seconds(),
    {
        let x = self.time.to_second();
        if self.is_neg {
            -x
        } else {
            x
        }
    }
}

/// The offset from UTC that a text gives: `Z`, or a number.
#[derive(Debug, Clone, Copy)]
pub enum IsoOffset {
    Z,
    Numeric(IsoNumericOffset),
}

/// What an ISO 8601 date-time text was read as.
#[derive(Debug)]
pub struct IsoParsed {
    pub date: IsoDate,
    pub time: Option<IsoTime>,
    pub timezone_offset: Option<IsoOffset>,
    pub timezone_name: Option<String>,
    pub calendar: Option<String>,
}

} // verus!
