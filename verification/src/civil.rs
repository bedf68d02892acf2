//! The arithmetic of the proleptic Gregorian calendar, over mathematical
//! integers: leap years, month lengths, ordinal days and the day count since
//! 1970-01-01, together with the facts that make the day count invertible.

use vstd::prelude::*;

verus! {

/// The earliest year a date of this library may lie in.
pub const MIN_YEAR: i32 = -271820;

/// The latest year a date of this library may lie in.
pub const MAX_YEAR: i32 = 275759;

/// The number of seconds in a civil day.
pub const SECONDS_PER_DAY: i64 = 86400;

/// The day count of 2000-03-01, the day after a leap day that ends a
/// 400-year cycle.
pub const LEAP_EPOCH_DAY: i64 = 11017;

/// The day count of the first day of `MIN_YEAR`.
pub const MIN_EPOCH_DAY: i64 = -99999744;

/// The day count of the last day of `MAX_YEAR`.
pub const MAX_EPOCH_DAY: i64 = 99999743;

/// The Gregorian leap-year rule: every fourth year, except centuries that
/// are not multiples of 400.
pub open spec fn is_leap_year(year: int) -> bool {
    year % 4 == 0 && (year % 100 != 0 || year % 400 == 0)
}

/// The number of days of `year`.
pub open spec fn days_in_year(year: int) -> int {
    if is_leap_year(year) {
        366
    } else {
        365
    }
}

/// The number of days of the given month; February follows the leap-year
/// rule.
pub open spec fn days_in_month(year: int, month: int) -> int {
    if month == 2 {
        if is_leap_year(year) {
            29
        } else {
            28
        }
    } else if month == 4 || month == 6 || month == 9 || month == 11 {
        30
    } else {
        31
    }
}

/// The number of days of `year` that lie before the first of `month`: the
/// sum of the lengths of the months before it.
pub open spec fn days_before_month(year: int, month: int) -> int
    decreases month,
{
    if month <= 1 {
        0
    } else {
        days_before_month(year, month - 1) + days_in_month(year, month - 1)
    }
}

/// The number of days from 1970-01-01 to the first of January of `year`:
/// 365 for each year, one more for each leap year in between.
pub open spec fn days_before_year(year: int) -> int {
    (year - 1970) * 365 + (year - 1969) / 4 - (year - 1901) / 100 + (year - 1601) / 400
}

/// A year, a month and a day of the month as mathematical integers.
pub struct CivilDate {
    pub year: int,
    pub month: int,
    pub day: int,
}

impl CivilDate {
    /// The month is one of the twelve and the day exists in it.
    pub open spec fn is_calendar_day(self) -> bool {
        &&& 1 <= self.month <= 12
        &&& 1 <= self.day <= days_in_month(self.year, self.month)
    }

    /// A calendar day whose year lies in `MIN_YEAR ..= MAX_YEAR`.
    pub open spec fn is_representable(self) -> bool {
        &&& self.is_calendar_day()
        &&& MIN_YEAR <= self.year <= MAX_YEAR
    }

    /// The number of days of the month of this date.
    pub open spec fn month_length(self) -> int {
        days_in_month(self.year, self.month)
    }

    /// The position of the day in its year; the first of January is 1.
    pub open spec fn ordinal(self) -> int {
        days_before_month(self.year, self.month) + self.day
    }

    /// The number of days from 1970-01-01 to this day.
    pub open spec fn epoch_day(self) -> int {
        days_before_year(self.year) + self.ordinal() - 1
    }

    /// The number of seconds from 1970-01-01T00:00:00 to the start of this
    /// day.
    pub open spec fn epoch_second(self) -> int {
        self.epoch_day() * 86400
    }

    /// The ISO weekday, Monday = 1 to Sunday = 7.
    pub open spec fn weekday(self) -> int {
        weekday_of_day(self.epoch_day())
    }

    /// Lexicographic order on (year, month, day).
    pub open spec fn precedes(self, other: CivilDate) -> bool {
        self.year < other.year || (self.year == other.year && (self.month < other.month || (
        self.month == other.month && self.day < other.day)))
    }
}

/// The ISO weekday of the day with the given day count; 1970-01-01 was a
/// Thursday.
pub open spec fn weekday_of_day(day: int) -> int {
    (day + 3) % 7 + 1
}

/// The calendar day with the given day count. `lemma_day_has_date` shows
/// that there is one, `lemma_epoch_day_injective` that there is no other.
pub open spec fn civil_of_day(day: int) -> CivilDate {
    choose|d: CivilDate| d.is_calendar_day() && d.epoch_day() == day
}

/// The calendar day that the given second since 1970-01-01T00:00:00 falls
/// on.
pub open spec fn civil_of_second(second: int) -> CivilDate {
    civil_of_day(second / 86400)
}

/// The months of a year that starts in March, as offsets from the first of
/// March; `index` 0 is March, 11 is February of the following year.
pub open spec fn march_offset(index: int) -> int {
    if index <= 0 {
        0
    } else if index == 1 {
        31
    } else if index == 2 {
        61
    } else if index == 3 {
        92
    } else if index == 4 {
        122
    } else if index == 5 {
        153
    } else if index == 6 {
        184
    } else if index == 7 {
        214
    } else if index == 8 {
        245
    } else if index == 9 {
        275
    } else if index == 10 {
        306
    } else {
        337
    }
}

/// The civil date of day `rest` (from 0) of month `index` of the year that
/// starts on the first of March of `year`.
pub open spec fn march_date(year: int, index: int, rest: int) -> CivilDate {
    if index <= 9 {
        CivilDate { year, month: index + 3, day: rest + 1 }
    } else {
        CivilDate { year: year + 1, month: index - 9, day: rest + 1 }
    }
}

/// The length of month `index` of the year that starts in March of `year`.
pub open spec fn march_month_length(year: int, index: int) -> int {
    march_date(year, index, 0).month_length()
}

/// The number of days from 2000-03-01 to the first of March of the year
/// 2000 + `k`.
pub open spec fn march_year_start(k: int) -> int {
    365 * k + k / 4 - k / 100 + k / 400
}

/// The days before each month, month by month.
pub proof fn lemma_days_before_month(year: int, month: int)
    requires
        1 <= month <= 12,
    ensures
        days_before_month(year, month) == if month == 1 {
            0int
        } else if month == 2 {
            31
        } else {
            march_offset(month - 3) + 59 + if is_leap_year(year) {
                1int
            } else {
                0
            }
        },
        0 <= days_before_month(year, month) <= 335,
        days_before_month(year, month) + days_in_month(year, month) <= days_in_year(year),
        month == 12 ==> days_before_month(year, month) + days_in_month(year, month)
            == days_in_year(year),
{
    reveal_with_fuel(days_before_month, 13);
}

/// The ordinal day grows with the month and the day.
pub proof fn lemma_ordinal_monotonic(a: CivilDate, b: CivilDate)
    requires
        a.is_calendar_day(),
        b.is_calendar_day(),
        a.year == b.year,
        a.precedes(b),
    ensures
        a.ordinal() < b.ordinal(),
        1 <= a.ordinal(),
        b.ordinal() <= days_in_year(b.year),
{
    lemma_days_before_month(a.year, a.month);
    lemma_days_before_month(b.year, b.month);
    if a.month < b.month {
        lemma_days_before_month_step(a.year, a.month, b.month);
    }
}

/// The days before a later month include the whole of an earlier one.
proof fn lemma_days_before_month_step(year: int, early: int, late: int)
    requires
        1 <= early < late <= 12,
    ensures
        days_before_month(year, early) + days_in_month(year, early) <= days_before_month(
            year,
            late,
        ),
    decreases late - early,
{
    if early + 1 < late {
        lemma_days_before_month_step(year, early, late - 1);
    }
}

/// The quotient by 4, 100 or 400 grows by one at each multiple of the
/// divisor, and nowhere else.
proof fn lemma_quotient_step(x: int, d: int)
    requires
        d == 4 || d == 100 || d == 400,
    ensures
        (x + 1) / d == x / d + if (x + 1) % d == 0 {
            1int
        } else {
            0
        },
{
}

/// Taking a multiple of the divisor away from a number leaves the remainder
/// as it was.
proof fn lemma_remainder_shift(x: int, d: int, multiple: int)
    requires
        d == 4 || d == 100 || d == 400,
    ensures
        (x - d * multiple) % d == x % d,
{
}

/// A year is as long as the day counts of its neighbours are apart.
pub proof fn lemma_year_length(year: int)
    ensures
        days_before_year(year + 1) == days_before_year(year) + days_in_year(year),
{
    lemma_quotient_step(year - 1969, 4);
    lemma_quotient_step(year - 1901, 100);
    lemma_quotient_step(year - 1601, 400);
    lemma_remainder_shift(year, 4, 492);
    lemma_remainder_shift(year, 100, 19);
    lemma_remainder_shift(year, 400, 4);
    lemma_divisible(year);
}

/// A multiple of 400 is a multiple of 100, and a multiple of 100 is one of
/// 4.
proof fn lemma_divisible(x: int)
    ensures
        x % 400 == 0 ==> x % 100 == 0,
        x % 100 == 0 ==> x % 4 == 0,
{
}

/// The day count of the first of January grows with the year, by at least
/// 365 days a year.
pub proof fn lemma_days_before_year_monotonic(early: int, late: int)
    requires
        early <= late,
    ensures
        days_before_year(early) + 365 * (late - early) <= days_before_year(late),
    decreases late - early,
{
    if early < late {
        lemma_days_before_year_monotonic(early, late - 1);
        lemma_year_length(late - 1);
    }
}

/// The day count is strictly monotonic in the order of the calendar.
pub proof fn lemma_epoch_day_monotonic(a: CivilDate, b: CivilDate)
    requires
        a.is_calendar_day(),
        b.is_calendar_day(),
        a.precedes(b),
    ensures
        a.epoch_day() < b.epoch_day(),
{
    lemma_days_before_month(a.year, a.month);
    lemma_days_before_month(b.year, b.month);
    if a.year == b.year {
        lemma_ordinal_monotonic(a, b);
    } else {
        lemma_year_length(a.year);
        lemma_days_before_year_monotonic(a.year + 1, b.year);
    }
}

/// No two calendar days share a day count.
pub proof fn lemma_epoch_day_injective(a: CivilDate, b: CivilDate)
    requires
        a.is_calendar_day(),
        b.is_calendar_day(),
        a.epoch_day() == b.epoch_day(),
    ensures
        a == b,
{
    if a.precedes(b) {
        lemma_epoch_day_monotonic(a, b);
    } else if b.precedes(a) {
        lemma_epoch_day_monotonic(b, a);
    }
}

/// A calendar day is the calendar day of its own day count.
pub proof fn lemma_civil_of_day(d: CivilDate)
    requires
        d.is_calendar_day(),
    ensures
        civil_of_day(d.epoch_day()) == d,
{
    let e = civil_of_day(d.epoch_day());
    lemma_epoch_day_injective(e, d);
}

/// Converting a calendar day to its epoch second and back gives the same
/// day, and so does any later second of that day.
pub proof fn lemma_epoch_second_round_trip(d: CivilDate, second_of_day: int)
    requires
        d.is_calendar_day(),
        0 <= second_of_day < 86400,
    ensures
        civil_of_second(d.epoch_second()) == d,
        civil_of_second(d.epoch_second() + second_of_day) == d,
{
    lemma_civil_of_day(d);
}

/// The representable years span exactly the day counts from `MIN_EPOCH_DAY`
/// to `MAX_EPOCH_DAY`.
pub proof fn lemma_representable_days(d: CivilDate)
    requires
        d.is_calendar_day(),
    ensures
        d.is_representable() <==> MIN_EPOCH_DAY <= d.epoch_day() <= MAX_EPOCH_DAY,
{
    let first = CivilDate { year: MIN_YEAR as int, month: 1, day: 1 };
    let last = CivilDate { year: MAX_YEAR as int, month: 12, day: 31 };
    lemma_days_before_month(MIN_YEAR as int, 1);
    lemma_days_before_month(MAX_YEAR as int, 12);
    if d.precedes(first) {
        lemma_epoch_day_monotonic(d, first);
    } else if first.precedes(d) {
        lemma_epoch_day_monotonic(first, d);
    }
    if d.precedes(last) {
        lemma_epoch_day_monotonic(d, last);
    } else if last.precedes(d) {
        lemma_epoch_day_monotonic(last, d);
    }
}

/// The days of the years 0 to 9999 have day counts from -719528 to
/// 2932896.
pub proof fn lemma_four_digit_year_days(d: CivilDate)
    requires
        d.is_calendar_day(),
        0 <= d.year <= 9999,
    ensures
        -719528 <= d.epoch_day() <= 2932896,
        d.is_representable(),
{
    let first = CivilDate { year: 0, month: 1, day: 1 };
    let last = CivilDate { year: 9999, month: 12, day: 31 };
    lemma_days_before_month(0, 1);
    lemma_days_before_month(9999, 12);
    if d.precedes(last) {
        lemma_epoch_day_monotonic(d, last);
    }
    if first.precedes(d) {
        lemma_epoch_day_monotonic(first, d);
    }
}

/// The first of March of the year 2000 + `k` lies `march_year_start(k)` days
/// after 2000-03-01.
pub proof fn lemma_march_anchor(k: int)
    ensures
        (CivilDate { year: 2000 + k, month: 3, day: 1 }).epoch_day() == LEAP_EPOCH_DAY
            + march_year_start(k),
{
    let year = 2000 + k;
    lemma_days_before_month(year, 3);
    lemma_ceiling(k, 4);
    lemma_ceiling(k, 100);
    lemma_ceiling(k, 400);
    lemma_remainder_shift(year, 4, 500);
    lemma_remainder_shift(year, 100, 20);
    lemma_remainder_shift(year, 400, 5);
    lemma_quotient_shift(k + 3, 4, 7);
    lemma_divisible(year);
}

/// Adding a multiple of the divisor to a number adds that multiple to the
/// quotient.
proof fn lemma_quotient_shift(x: int, d: int, multiple: int)
    requires
        d == 4 || d == 100 || d == 400,
    ensures
        (x + d * multiple) / d == x / d + multiple,
{
}

/// Rounding a quotient up instead of down adds one, unless the division
/// leaves no remainder.
proof fn lemma_ceiling(k: int, d: int)
    requires
        d == 4 || d == 100 || d == 400,
    ensures
        (k + d - 1) / d == k / d + if k % d == 0 {
            0int
        } else {
            1
        },
{
}

/// A count of years, split into cycles of 400, 100 and 4 years and single
/// years, starts as many days after 2000-03-01 as the cycles are long.
pub proof fn lemma_march_cycles(cycles_400: int, cycles_100: int, cycles_4: int, years: int)
    requires
        0 <= cycles_100 <= 3,
        0 <= cycles_4 <= 24,
        0 <= years <= 3,
    ensures
        march_year_start(400 * cycles_400 + 100 * cycles_100 + 4 * cycles_4 + years) == 146097
            * cycles_400 + 36524 * cycles_100 + 1461 * cycles_4 + 365 * years,
{
}

/// A day of a year that starts in March is the calendar day that many days
/// after the first of March.
pub proof fn lemma_march_date(year: int, index: int, rest: int)
    requires
        0 <= index <= 11,
        0 <= rest < march_month_length(year, index),
    ensures
        march_date(year, index, rest).is_calendar_day(),
        march_date(year, index, rest).epoch_day() == (CivilDate {
            year,
            month: 3,
            day: 1,
        }).epoch_day() + march_offset(index) + rest,
{
    let d = march_date(year, index, rest);
    lemma_days_before_month(year, 3);
    lemma_days_before_month(d.year, d.month);
    if index >= 10 {
        lemma_year_length(year);
    }
}

/// The month of a year that starts in March in which day `in_year` of that
/// year lies, counted from March = 0.
pub open spec fn march_index(in_year: int) -> int {
    if in_year < 31 {
        0
    } else if in_year < 61 {
        1
    } else if in_year < 92 {
        2
    } else if in_year < 122 {
        3
    } else if in_year < 153 {
        4
    } else if in_year < 184 {
        5
    } else if in_year < 214 {
        6
    } else if in_year < 245 {
        7
    } else if in_year < 275 {
        8
    } else if in_year < 306 {
        9
    } else if in_year < 337 {
        10
    } else {
        11
    }
}

/// The year after the third year of a 4-year cycle is a leap year, unless
/// the cycle is the last of a century that does not end a 400-year cycle.
pub proof fn lemma_cycle_ends_in_leap_year(cycles_400: int, cycles_100: int, cycles_4: int)
    requires
        0 <= cycles_100 <= 3,
        0 <= cycles_4 <= 24,
        cycles_4 == 24 ==> cycles_100 == 3,
    ensures
        is_leap_year(2000 + 400 * cycles_400 + 100 * cycles_100 + 4 * cycles_4 + 4),
{
    let y = 2000 + 400 * cycles_400 + 100 * cycles_100 + 4 * cycles_4 + 4;
    assert(y == 4 * (500 + 100 * cycles_400 + 25 * cycles_100 + cycles_4 + 1));
}

/// Every day count is the day count of a calendar day: the one that
/// `civil_of_day` names.
pub proof fn lemma_day_has_date(day: int)
    ensures
        civil_of_day(day).is_calendar_day(),
        civil_of_day(day).epoch_day() == day,
{
    let since = day - LEAP_EPOCH_DAY;
    let cycles_400 = since / 146097;
    let in_400 = since % 146097;
    let cycles_100 = if in_400 / 36524 == 4 {
        3
    } else {
        in_400 / 36524
    };
    let in_100 = in_400 - cycles_100 * 36524;
    let cycles_4 = if in_100 / 1461 == 25 {
        24
    } else {
        in_100 / 1461
    };
    let in_4 = in_100 - cycles_4 * 1461;
    let years = if in_4 / 365 == 4 {
        3
    } else {
        in_4 / 365
    };
    let in_year = in_4 - years * 365;
    let count = years + 4 * cycles_4 + 100 * cycles_100 + 400 * cycles_400;
    lemma_march_cycles(cycles_400, cycles_100, cycles_4, years);
    if in_year == 365 {
        lemma_cycle_ends_in_leap_year(cycles_400, cycles_100, cycles_4);
    }
    lemma_march_anchor(count);
    let index = march_index(in_year);
    let found = march_date(2000 + count, index, in_year - march_offset(index));
    lemma_march_date(2000 + count, index, in_year - march_offset(index));
    lemma_civil_of_day(found);
}

/// Converting a second to the day that it falls on and back gives the
/// start of that day.
pub proof fn lemma_second_round_trip(second: int)
    ensures
        civil_of_second(second).is_calendar_day(),
        civil_of_second(second).epoch_second() <= second < civil_of_second(second).epoch_second()
            + 86400,
{
    lemma_day_has_date(second / 86400);
}

} // verus!
