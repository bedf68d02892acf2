//! The calendars at work: the ISO 8601 calendar, and the choice among the
//! calendars that there are.

use crate::arith::{floor_div, floor_mod};
use crate::calendar::{
    iso_date_add, iso_date_add_day, iso_from_ymd, iso_week_of_year, month_code_text, Calendar,
    CalendarProtocol, DateOutcome, Era, FromYMDResult, IsoCalendar,
};
use crate::civil::{
    civil_of_day, days_in_month, days_in_year, is_leap_year, lemma_civil_of_day,
    lemma_days_before_month, lemma_days_before_year_monotonic, lemma_representable_days,
    lemma_year_length, CivilDate, MAX_EPOCH_DAY, MAX_YEAR, MIN_EPOCH_DAY, MIN_YEAR,
};
use crate::duration::{CalendarUnits, NominalDuration};
use crate::gregorian::{
    date_of_epoch_day, epoch_day, month_length, ordinal_day, weekday, year_length,
};
use crate::iso::IsoDate;
use crate::text::push_decimal;
use vstd::pervasive::{arbitrary, unreached};
use vstd::prelude::*;

verus! {

/// The first of a month lies as many days behind the first of the month
/// before as that month is long.
proof fn lemma_next_month(year: int, month: int)
    requires
        1 <= month <= 12,
    ensures
        month < 12 ==> (CivilDate { year, month: month + 1, day: 1 }).epoch_day() == (CivilDate {
            year,
            month,
            day: 1,
        }).epoch_day() + days_in_month(year, month),
        month == 12 ==> (CivilDate { year: year + 1, month: 1, day: 1 }).epoch_day() == (CivilDate {
            year,
            month,
            day: 1,
        }).epoch_day() + days_in_month(year, month),
{
    lemma_days_before_month(year, month);
    if month == 12 {
        lemma_year_length(year);
        lemma_days_before_month(year + 1, 1);
    } else {
        lemma_days_before_month(year, month + 1);
    }
}

/// The first of a month lies at least a year's worth of days away from the
/// start of 1970 for each year in between.
proof fn lemma_first_of_month_bounds(year: int, month: int)
    requires
        1 <= month <= 12,
    ensures
        year >= 1970 ==> (CivilDate { year, month, day: 1 }).epoch_day() >= 365 * (year - 1970),
        year <= 1970 ==> (CivilDate { year, month, day: 1 }).epoch_day() <= 365 * (year - 1970)
            + 366,
{
    lemma_days_before_month(year, month);
    if year >= 1970 {
        lemma_days_before_year_monotonic(1970, year);
    } else {
        lemma_days_before_year_monotonic(year, 1970);
    }
}

impl IsoCalendar {
    /// The date that lies `offset` days behind the first of the given
    /// month: months are stepped over forwards while the days reach beyond
    /// the month, and backwards while they lie before it.
    fn balance_days(year: i64, month: u8, offset: i64) -> (r: IsoDate)
        requires
            1 <= month <= 12,
            -30_000_000 <= year <= 30_000_000,
            -20_000_000_000 <= offset <= 20_000_000_000,
            MIN_EPOCH_DAY <= (CivilDate {
                year: year as int,
                month: month as int,
                day: 1,
            }).epoch_day() + offset <= MAX_EPOCH_DAY,
        ensures
            r@ == civil_of_day(
                (CivilDate { year: year as int, month: month as int, day: 1 }).epoch_day() + offset,
            ),
    {
        let ghost target = (CivilDate {
            year: year as int,
            month: month as int,
            day: 1,
        }).epoch_day() + offset;
        let mut r_year = year;
        let mut r_month = month;
        let mut r_day = offset + 1;
        while r_day > month_length(r_year, r_month) as i64
            invariant
                1 <= r_month <= 12,
                -30_000_000 <= r_year <= 90_000_000,
                -20_000_000_000 < r_day <= 20_000_000_001,
                MIN_EPOCH_DAY <= target <= MAX_EPOCH_DAY,
                target == (CivilDate {
                    year: r_year as int,
                    month: r_month as int,
                    day: 1,
                }).epoch_day() + r_day - 1,
            decreases r_day,
        {
            proof {
                lemma_next_month(r_year as int, r_month as int);
                lemma_first_of_month_bounds(r_year as int, r_month as int);
            }
            r_day = r_day - month_length(r_year, r_month) as i64;
            r_month = r_month + 1;
            if r_month == 13 {
                r_month = 1;
                r_year = r_year + 1;
            }
        }
        while r_day < 1
            invariant
                1 <= r_month <= 12,
                -90_000_000 <= r_year <= 90_000_000,
                -20_000_000_000 <= r_day <= month_length_of(r_year as int, r_month as int),
                MIN_EPOCH_DAY <= target <= MAX_EPOCH_DAY,
                target == (CivilDate {
                    year: r_year as int,
                    month: r_month as int,
                    day: 1,
                }).epoch_day() + r_day - 1,
            decreases
                    (if r_day < 1 {
                        1 - r_day
                    } else {
                        0
                    }),
        {
            proof {
                lemma_first_of_month_bounds(r_year as int, r_month as int);
            }
            r_month = r_month - 1;
            if r_month == 0 {
                r_month = 12;
                r_year = r_year - 1;
            }
            proof {
                lemma_next_month(r_year as int, r_month as int);
            }
            r_day = r_day + month_length(r_year, r_month) as i64;
        }
        proof {
            let found = CivilDate { year: r_year as int, month: r_month as int, day: r_day as int };
            lemma_civil_of_day(found);
            lemma_representable_days(found);
        }
        IsoDate::new_unchecked(r_year as i32, r_month, r_day as u16)
    }
}

impl IsoCalendar {
    /// Whether the sum of the date and the duration is a date in a
    /// representable year, so that `date_add` can be asked for it.
    pub fn date_add_in_range(iso_date: IsoDate, dur: &NominalDuration) -> (r: bool)
        ensures
            r == IsoCalendar.date_add_defined(iso_date@, dur@.calendar_units()),
    {
        proof {
            use_type_invariant(iso_date);
            use_type_invariant(dur);
            dur.lemma_units_bounded();
        }
        let months = iso_date.month() as i64 - 1 + dur.months() as i64;
        let year = iso_date.year() as i64 + dur.years() as i64 + floor_div(months, 12);
        let month = (floor_mod(months, 12) + 1) as u8;
        proof {
            lemma_days_before_month(year as int, month as int);
            lemma_first_of_month_bounds(year as int, month as int);
        }
        if year < -30_000_000 || year > 30_000_000 {
            return false;
        }
        let length = month_length(year, month) as u16;
        let day = if iso_date.day() > length {
            length
        } else {
            iso_date.day()
        };
        let target = epoch_day(year as i32, month, day as u8) + 7 * dur.weeks() as i64
            + dur.days() as i64;
        MIN_EPOCH_DAY <= target && target <= MAX_EPOCH_DAY
    }
}

/// The number of days of a month, as `days_in_month` gives it.
pub open spec fn month_length_of(year: int, month: int) -> int {
    days_in_month(year, month)
}

impl CalendarProtocol for IsoCalendar {
    open spec fn supported(&self) -> bool {
        true
    }

    open spec fn id_text(&self) -> Seq<char> {
        crate::calendar::iso8601_id()
    }

    /// The ISO calendar has no eras.
    open spec fn era_of(&self, date: CivilDate) -> Option<(Seq<char>, int)> {
        None
    }

    open spec fn year_of(&self, date: CivilDate) -> int {
        date.year
    }

    open spec fn month_of(&self, date: CivilDate) -> int {
        date.month
    }

    open spec fn month_code_of(&self, date: CivilDate) -> Seq<char> {
        month_code_text(date.month)
    }

    open spec fn day_of(&self, date: CivilDate) -> int {
        date.day
    }

    /// Monday is 1, Sunday is 7.
    open spec fn day_of_week_of(&self, date: CivilDate) -> int {
        date.weekday()
    }

    open spec fn day_of_year_of(&self, date: CivilDate) -> int {
        date.ordinal()
    }

    open spec fn week_of_year_of(&self, date: CivilDate) -> int {
        iso_week_of_year(date)
    }

    open spec fn days_in_week_of(&self, date: CivilDate) -> int {
        7
    }

    open spec fn days_in_month_of(&self, date: CivilDate) -> int {
        days_in_month(date.year, date.month)
    }

    open spec fn days_in_year_of(&self, date: CivilDate) -> int {
        days_in_year(date.year)
    }

    open spec fn months_in_year_of(&self, date: CivilDate) -> int {
        12
    }

    open spec fn in_leap_year_of(&self, date: CivilDate) -> bool {
        is_leap_year(date.year)
    }

    open spec fn from_ymd_outcome(&self, year: int, month: int, day: int) -> DateOutcome {
        iso_from_ymd(year, month, day)
    }

    open spec fn date_add_defined(&self, date: CivilDate, units: CalendarUnits) -> bool {
        MIN_EPOCH_DAY <= iso_date_add_day(date, units) <= MAX_EPOCH_DAY
    }

    open spec fn date_add_outcome(&self, date: CivilDate, units: CalendarUnits) -> DateOutcome {
        iso_date_add(date, units)
    }

    fn id(&self) -> (r: String) {
        "iso8601".to_owned()
    }

    fn era(&self, iso_date: IsoDate) -> (r: Option<Era>) {
        None
    }

    fn year(&self, iso_date: IsoDate) -> (r: i32) {
        iso_date.year()
    }

    fn month(&self, iso_date: IsoDate) -> (r: u32) {
        iso_date.month() as u32
    }

    fn month_code(&self, iso_date: IsoDate) -> (r: String) {
        let mut code = "M".to_owned();
        proof {
            reveal_strlit("M");
        }
        push_decimal(&mut code, iso_date.month() as u32);
        code
    }

    fn day(&self, iso_date: IsoDate) -> (r: u32) {
        iso_date.day() as u32
    }

    fn day_of_week(&self, iso_date: IsoDate) -> (r: u32)
        ensures
            1 <= r <= 7,
    {
        weekday(iso_date.to_epoch_day()) as u32
    }

    fn day_of_year(&self, iso_date: IsoDate) -> (r: u32)
        ensures
            1 <= r <= days_in_year(iso_date@.year),
    {
        proof {
            use_type_invariant(iso_date);
        }
        ordinal_day(iso_date.year() as i64, iso_date.month(), iso_date.day() as u8) as u32
    }

    fn week_of_year(&self, iso_date: IsoDate) -> (r: u32)
        ensures
            1 <= r <= 53,
    {
        let day = iso_date.to_epoch_day();
        let thursday = day - weekday(day) as i64 + 4;
        let (year, month, day_of_month) = date_of_epoch_day(thursday);
        ((ordinal_day(year as i64, month, day_of_month) - 1) / 7 + 1) as u32
    }

    fn days_in_week(&self, iso_date: IsoDate) -> (r: u32) {
        7
    }

    fn days_in_month(&self, iso_date: IsoDate) -> (r: u32) {
        month_length(iso_date.year() as i64, iso_date.month()) as u32
    }

    fn days_in_year(&self, iso_date: IsoDate) -> (r: u32) {
        year_length(iso_date.year() as i64) as u32
    }

    fn months_in_year(&self, iso_date: IsoDate) -> (r: u32) {
        12
    }

    fn in_leap_year(&self, iso_date: IsoDate) -> (r: bool) {
        self.days_in_year(iso_date) == 366
    }

    fn from_ymd(&self, year: i32, month: u32, day: u32) -> (r: FromYMDResult) {
        if month <= 12 && day <= 31 {
            if let Some(date) = IsoDate::new(year, month as u8, day as u8) {
                return FromYMDResult::Normal(date);
            }
        }
        let year = if year < MIN_YEAR {
            MIN_YEAR
        } else if year > MAX_YEAR {
            MAX_YEAR
        } else {
            year
        };
        let month = if month > 12 {
            12
        } else {
            month as u8
        };
        let max_day = month_length(year as i64, month) as u32;
        let day = if day > max_day {
            max_day
        } else {
            day
        };
        FromYMDResult::OverflowConstrained(IsoDate::new_unchecked(year, month, day as u16))
    }

    fn date_add(&self, iso_date: IsoDate, dur: NominalDuration) -> (r: FromYMDResult) {
        proof {
            use_type_invariant(iso_date);
            use_type_invariant(&dur);
            dur.lemma_units_bounded();
        }
        let months = iso_date.month() as i64 - 1 + dur.months() as i64;
        let year = iso_date.year() as i64 + dur.years() as i64 + floor_div(months, 12);
        let month = (floor_mod(months, 12) + 1) as u8;
        let length = month_length(year, month) as u16;
        let constrained = iso_date.day() > length;
        let day = if constrained {
            length
        } else {
            iso_date.day()
        };
        let offset = day as i64 - 1 + 7 * dur.weeks() as i64 + dur.days() as i64;
        proof {
            lemma_days_before_month(year as int, month as int);
            lemma_first_of_month_bounds(year as int, month as int);
        }
        let date = IsoCalendar::balance_days(year, month, offset);
        if constrained {
            FromYMDResult::OverflowConstrained(date)
        } else {
            FromYMDResult::Normal(date)
        }
    }
}

impl Calendar {
    /// Whether the calendar answers queries: so far only ISO 8601 does.
    pub fn is_supported(&self) -> (r: bool)
        ensures
            r == self.supported(),
    {
        match self {
            Calendar::Iso8601 => true,
            Calendar::Persian => false,
        }
    }
}

impl CalendarProtocol for Calendar {
    open spec fn supported(&self) -> bool {
        *self is Iso8601
    }

    open spec fn id_text(&self) -> Seq<char> {
        match *self {
            Calendar::Iso8601 => crate::calendar::iso8601_id(),
            Calendar::Persian => crate::calendar::persian_id(),
        }
    }

    open spec fn era_of(&self, date: CivilDate) -> Option<(Seq<char>, int)> {
        match *self {
            Calendar::Iso8601 => IsoCalendar.era_of(date),
            Calendar::Persian => arbitrary(),
        }
    }

    open spec fn year_of(&self, date: CivilDate) -> int {
        match *self {
            Calendar::Iso8601 => IsoCalendar.year_of(date),
            Calendar::Persian => arbitrary(),
        }
    }

    open spec fn month_of(&self, date: CivilDate) -> int {
        match *self {
            Calendar::Iso8601 => IsoCalendar.month_of(date),
            Calendar::Persian => arbitrary(),
        }
    }

    open spec fn month_code_of(&self, date: CivilDate) -> Seq<char> {
        match *self {
            Calendar::Iso8601 => IsoCalendar.month_code_of(date),
            Calendar::Persian => arbitrary(),
        }
    }

    open spec fn day_of(&self, date: CivilDate) -> int {
        match *self {
            Calendar::Iso8601 => IsoCalendar.day_of(date),
            Calendar::Persian => arbitrary(),
        }
    }

    open spec fn day_of_week_of(&self, date: CivilDate) -> int {
        match *self {
            Calendar::Iso8601 => IsoCalendar.day_of_week_of(date),
            Calendar::Persian => arbitrary(),
        }
    }

    open spec fn day_of_year_of(&self, date: CivilDate) -> int {
        match *self {
            Calendar::Iso8601 => IsoCalendar.day_of_year_of(date),
            Calendar::Persian => arbitrary(),
        }
    }

    open spec fn week_of_year_of(&self, date: CivilDate) -> int {
        match *self {
            Calendar::Iso8601 => IsoCalendar.week_of_year_of(date),
            Calendar::Persian => arbitrary(),
        }
    }

    open spec fn days_in_week_of(&self, date: CivilDate) -> int {
        match *self {
            Calendar::Iso8601 => IsoCalendar.days_in_week_of(date),
            Calendar::Persian => arbitrary(),
        }
    }

    open spec fn days_in_month_of(&self, date: CivilDate) -> int {
        match *self {
            Calendar::Iso8601 => IsoCalendar.days_in_month_of(date),
            Calendar::Persian => arbitrary(),
        }
    }

    open spec fn days_in_year_of(&self, date: CivilDate) -> int {
        match *self {
            Calendar::Iso8601 => IsoCalendar.days_in_year_of(date),
            Calendar::Persian => arbitrary(),
        }
    }

    open spec fn months_in_year_of(&self, date: CivilDate) -> int {
        match *self {
            Calendar::Iso8601 => IsoCalendar.months_in_year_of(date),
            Calendar::Persian => arbitrary(),
        }
    }

    open spec fn in_leap_year_of(&self, date: CivilDate) -> bool {
        match *self {
            Calendar::Iso8601 => IsoCalendar.in_leap_year_of(date),
            Calendar::Persian => arbitrary(),
        }
    }

    open spec fn from_ymd_outcome(&self, year: int, month: int, day: int) -> DateOutcome {
        match *self {
            Calendar::Iso8601 => IsoCalendar.from_ymd_outcome(year, month, day),
            Calendar::Persian => arbitrary(),
        }
    }

    open spec fn date_add_defined(&self, date: CivilDate, units: CalendarUnits) -> bool {
        match *self {
            Calendar::Iso8601 => IsoCalendar.date_add_defined(date, units),
            Calendar::Persian => false,
        }
    }

    open spec fn date_add_outcome(&self, date: CivilDate, units: CalendarUnits) -> DateOutcome {
        match *self {
            Calendar::Iso8601 => IsoCalendar.date_add_outcome(date, units),
            Calendar::Persian => arbitrary(),
        }
    }

    fn id(&self) -> (r: String) {
        match self {
            Calendar::Iso8601 => IsoCalendar.id(),
            Calendar::Persian => "persian".to_owned(),
        }
    }

    fn era(&self, iso_date: IsoDate) -> (r: Option<Era>) {
        match self {
            Calendar::Iso8601 => IsoCalendar.era(iso_date),
            Calendar::Persian => unreached(),
        }
    }

    fn year(&self, iso_date: IsoDate) -> (r: i32) {
        match self {
            Calendar::Iso8601 => IsoCalendar.year(iso_date),
            Calendar::Persian => unreached(),
        }
    }

    fn month(&self, iso_date: IsoDate) -> (r: u32) {
        match self {
            Calendar::Iso8601 => IsoCalendar.month(iso_date),
            Calendar::Persian => unreached(),
        }
    }

    fn month_code(&self, iso_date: IsoDate) -> (r: String) {
        match self {
            Calendar::Iso8601 => IsoCalendar.month_code(iso_date),
            Calendar::Persian => unreached(),
        }
    }

    fn day(&self, iso_date: IsoDate) -> (r: u32) {
        match self {
            Calendar::Iso8601 => IsoCalendar.day(iso_date),
            Calendar::Persian => unreached(),
        }
    }

    fn day_of_week(&self, iso_date: IsoDate) -> (r: u32) {
        match self {
            Calendar::Iso8601 => IsoCalendar.day_of_week(iso_date),
            Calendar::Persian => unreached(),
        }
    }

    fn day_of_year(&self, iso_date: IsoDate) -> (r: u32) {
        match self {
            Calendar::Iso8601 => IsoCalendar.day_of_year(iso_date),
            Calendar::Persian => unreached(),
        }
    }

    fn week_of_year(&self, iso_date: IsoDate) -> (r: u32) {
        match self {
            Calendar::Iso8601 => IsoCalendar.week_of_year(iso_date),
            Calendar::Persian => unreached(),
        }
    }

    fn days_in_week(&self, iso_date: IsoDate) -> (r: u32) {
        match self {
            Calendar::Iso8601 => IsoCalendar.days_in_week(iso_date),
            Calendar::Persian => unreached(),
        }
    }

    fn days_in_month(&self, iso_date: IsoDate) -> (r: u32) {
        match self {
            Calendar::Iso8601 => IsoCalendar.days_in_month(iso_date),
            Calendar::Persian => unreached(),
        }
    }

    fn days_in_year(&self, iso_date: IsoDate) -> (r: u32) {
        match self {
            Calendar::Iso8601 => IsoCalendar.days_in_year(iso_date),
            Calendar::Persian => unreached(),
        }
    }

    fn months_in_year(&self, iso_date: IsoDate) -> (r: u32) {
        match self {
            Calendar::Iso8601 => IsoCalendar.months_in_year(iso_date),
            Calendar::Persian => unreached(),
        }
    }

    fn in_leap_year(&self, iso_date: IsoDate) -> (r: bool) {
        match self {
            Calendar::Iso8601 => IsoCalendar.in_leap_year(iso_date),
            Calendar::Persian => unreached(),
        }
    }

    fn from_ymd(&self, year: i32, month: u32, day: u32) -> (r: FromYMDResult) {
        match self {
            Calendar::Iso8601 => IsoCalendar.from_ymd(year, month, day),
            Calendar::Persian => unreached(),
        }
    }

    fn date_add(&self, iso_date: IsoDate, dur: NominalDuration) -> (r: FromYMDResult) {
        match self {
            Calendar::Iso8601 => IsoCalendar.date_add(iso_date, dur),
            Calendar::Persian => unreached(),
        }
    }
}

} // verus!
