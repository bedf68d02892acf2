use temporal_core::arith::{floor_div, floor_mod};
use temporal_core::calendar::{FromYMDResult, IsoCalendar};
use temporal_core::duration::NominalDuration;
use temporal_core::gregorian::{
    calendar_day, date_of_epoch_day, epoch_day, leap_year, month_length, ordinal_day, weekday,
    year_length, MAX_DAY, MIN_DAY,
};
use temporal_core::iso::{IsoDate, IsoTime, MAX_EPOCH_SECOND, MIN_EPOCH_SECOND};
use temporal_core::{Calendar, CalendarProtocol, PlainDate};

fn date(year: i32, month: u8, day: u8) -> IsoDate {
    IsoDate::new(year, month, day).unwrap()
}

fn ymd(date: &IsoDate) -> (i32, u8, u16) {
    (date.year(), date.month(), date.day())
}

fn outcome(result: FromYMDResult) -> (bool, (i32, u8, u16)) {
    match result {
        FromYMDResult::Normal(date) => (true, ymd(&date)),
        FromYMDResult::OverflowConstrained(date) => (false, ymd(&date)),
    }
}

#[test]
fn floor_division() {
    assert_eq!(floor_div(7, 2), 3);
    assert_eq!(floor_div(-7, 2), -4);
    assert_eq!(floor_div(-8, 2), -4);
    assert_eq!(floor_div(0, 5), 0);
    assert_eq!(floor_div(-1, 86400), -1);
    assert_eq!(floor_div(i64::MIN, 1), i64::MIN);
    assert_eq!(floor_div(i64::MIN, i64::MAX), -2);
    assert_eq!(floor_mod(7, 2), 1);
    assert_eq!(floor_mod(-7, 2), 1);
    assert_eq!(floor_mod(-8, 2), 0);
    assert_eq!(floor_mod(-1, 86400), 86399);
    assert_eq!(floor_mod(i64::MIN, i64::MAX), i64::MAX - 1);
}

#[test]
fn leap_years() {
    assert!(!leap_year(1900));
    assert!(leap_year(2000));
    assert!(leap_year(2024));
    assert!(!leap_year(2023));
    assert!(leap_year(0));
    assert!(leap_year(-4));
    assert!(!leap_year(-100));
    assert!(leap_year(-400));
    assert!(!IsoCalendar.in_leap_year(date(1900, 6, 1)));
    assert!(IsoCalendar.in_leap_year(date(2000, 6, 1)));
    assert!(IsoCalendar.in_leap_year(date(2024, 6, 1)));
    assert!(!IsoCalendar.in_leap_year(date(2023, 6, 1)));
    assert!(Calendar::Iso8601.in_leap_year(date(2024, 1, 1)));
    assert_eq!(year_length(2023), 365);
    assert_eq!(year_length(2024), 366);
}

#[test]
fn month_lengths() {
    let lengths = [31, 28, 31, 30, 31, 30, 31, 31, 30, 31, 30, 31];
    for month in 1..=12u8 {
        assert_eq!(month_length(2023, month), lengths[month as usize - 1]);
    }
    assert_eq!(month_length(2024, 2), 29);
    assert_eq!(month_length(1900, 2), 28);
    assert_eq!(month_length(2000, 2), 29);
    assert!(calendar_day(2024, 2, 29));
    assert!(!calendar_day(2023, 2, 29));
    assert!(!calendar_day(2023, 0, 1));
    assert!(!calendar_day(2023, 13, 1));
    assert!(!calendar_day(2023, 1, 0));
    assert!(!calendar_day(2023, 1, 32));
}

#[test]
fn dates_are_validated() {
    assert!(IsoDate::new(2022, 2, 28).is_some());
    assert!(IsoDate::new(2022, 2, 29).is_none());
    assert!(IsoDate::new(2022, 0, 1).is_none());
    assert!(IsoDate::new(2022, 13, 1).is_none());
    assert!(IsoDate::new(2022, 1, 0).is_none());
    assert!(IsoDate::new(2022, 1, 32).is_none());
    assert!(IsoDate::new(-271820, 1, 1).is_some());
    assert!(IsoDate::new(-271821, 12, 31).is_none());
    assert!(IsoDate::new(275759, 12, 31).is_some());
    assert!(IsoDate::new(275760, 1, 1).is_none());
    assert!(IsoDate::new(i32::MIN, 1, 1).is_none());
    assert!(IsoDate::new(i32::MAX, 1, 1).is_none());
    let unchecked = IsoDate::new_unchecked(2024, 2, 29);
    assert_eq!(ymd(&unchecked), (2024, 2, 29));
}

#[test]
fn epoch_seconds_of_known_days() {
    assert_eq!(date(1970, 1, 1).to_epoch_second(), 0);
    assert_eq!(date(1970, 1, 2).to_epoch_second(), 86400);
    assert_eq!(date(1969, 12, 31).to_epoch_second(), -86400);
    assert_eq!(date(2000, 3, 1).to_epoch_second(), 951868800);
    assert_eq!(date(2000, 3, 1).to_epoch_second(), 946684800 + 86400 * (31 + 29));
    assert_eq!(date(2022, 9, 1).to_epoch_second(), 1661990400);
    assert_eq!(date(1, 1, 1).to_epoch_second(), -62135596800);
    assert_eq!(date(9999, 12, 31).to_epoch_second(), 253402214400);
    assert_eq!(date(-271820, 1, 1).to_epoch_second(), MIN_EPOCH_SECOND);
    assert_eq!(date(275759, 12, 31).to_epoch_second(), MAX_EPOCH_SECOND - 86399);
    assert_eq!(date(2000, 3, 1).to_epoch_day(), 11017);
    assert_eq!(epoch_day(1970, 1, 1), 0);
    assert_eq!(epoch_day(2000, 3, 1), 11017);
}

#[test]
fn dates_of_known_seconds() {
    assert_eq!(ymd(&IsoDate::from_epoch_second(0)), (1970, 1, 1));
    assert_eq!(ymd(&IsoDate::from_epoch_second(86399)), (1970, 1, 1));
    assert_eq!(ymd(&IsoDate::from_epoch_second(86400)), (1970, 1, 2));
    assert_eq!(ymd(&IsoDate::from_epoch_second(-1)), (1969, 12, 31));
    assert_eq!(ymd(&IsoDate::from_epoch_second(-86400)), (1969, 12, 31));
    assert_eq!(ymd(&IsoDate::from_epoch_second(-86401)), (1969, 12, 30));
    assert_eq!(ymd(&IsoDate::from_epoch_second(951868800)), (2000, 3, 1));
    assert_eq!(ymd(&IsoDate::from_epoch_second(951868799)), (2000, 2, 29));
    assert_eq!(ymd(&IsoDate::from_epoch_second(1661990400)), (2022, 9, 1));
    assert_eq!(ymd(&IsoDate::from_epoch_second(MIN_EPOCH_SECOND)), (-271820, 1, 1));
    assert_eq!(ymd(&IsoDate::from_epoch_second(MAX_EPOCH_SECOND)), (275759, 12, 31));
    assert_eq!(ymd(&IsoDate::from_epoch_day(0)), (1970, 1, 1));
    assert_eq!(ymd(&IsoDate::from_epoch_day(-1)), (1969, 12, 31));
    assert_eq!(date_of_epoch_day(11017), (2000, 3, 1));
    assert_eq!(date_of_epoch_day(11016), (2000, 2, 29));
    assert_eq!(date_of_epoch_day(-719528), (0, 1, 1));
}

#[test]
fn epoch_second_and_back() {
    let years = [
        -271820, -271819, -100001, -10000, -401, -400, -101, -100, -5, -4, -1, 0, 1, 4, 100, 400,
        1600, 1899, 1900, 1901, 1969, 1970, 1971, 1999, 2000, 2001, 2023, 2024, 2100, 9999, 10000,
        275758, 275759,
    ];
    for year in years {
        for month in 1..=12u8 {
            for day in 1..=month_length(year as i64, month) {
                let first = date(year, month, day);
                let second = first.to_epoch_second();
                assert_eq!(ymd(&IsoDate::from_epoch_second(second)), (year, month, day as u16));
                assert_eq!(
                    ymd(&IsoDate::from_epoch_second(second + 86399)),
                    (year, month, day as u16)
                );
            }
        }
    }
}

#[test]
fn day_count_and_back() {
    let mut day = -800_000i64;
    let mut before = date_of_epoch_day(day - 1);
    while day <= 3_000_000 {
        let (year, month, day_of_month) = date_of_epoch_day(day);
        assert!(calendar_day(year as i64, month, day_of_month));
        assert_eq!(epoch_day(year, month, day_of_month), day);
        assert!(before < (year, month, day_of_month));
        before = (year, month, day_of_month);
        day += 1;
    }
}

#[test]
fn day_counts_of_the_years_of_32_bits() {
    assert_eq!(epoch_day(i32::MIN, 1, 1), MIN_DAY);
    assert_eq!(epoch_day(i32::MAX, 12, 31), MAX_DAY);
    assert_eq!(date_of_epoch_day(MIN_DAY), (i32::MIN, 1, 1));
    assert_eq!(date_of_epoch_day(MAX_DAY), (i32::MAX, 12, 31));
    assert_eq!(date_of_epoch_day(MIN_DAY + 365), (i32::MIN, 12, 31));
    assert_eq!(date_of_epoch_day(MAX_DAY - 365), (i32::MAX - 1, 12, 31));
}

#[test]
fn queries_of_the_iso_calendar() {
    let day = date(2022, 9, 1);
    assert_eq!(IsoCalendar.id(), "iso8601");
    assert!(IsoCalendar.era(day).is_none());
    assert_eq!(IsoCalendar.year(day), 2022);
    assert_eq!(IsoCalendar.month(day), 9);
    assert_eq!(IsoCalendar.month_code(day), "M9");
    assert_eq!(IsoCalendar.month_code(date(2022, 12, 1)), "M12");
    assert_eq!(IsoCalendar.day(day), 1);
    assert_eq!(IsoCalendar.day_of_week(day), 4);
    assert_eq!(IsoCalendar.day_of_year(day), 244);
    assert_eq!(IsoCalendar.week_of_year(day), 35);
    assert_eq!(IsoCalendar.days_in_week(day), 7);
    assert_eq!(IsoCalendar.days_in_month(day), 30);
    assert_eq!(IsoCalendar.days_in_year(day), 365);
    assert_eq!(IsoCalendar.months_in_year(day), 12);
    assert!(!IsoCalendar.in_leap_year(day));
}

#[test]
fn queries_of_the_chosen_calendar() {
    let day = date(2024, 2, 29);
    let calendar = Calendar::Iso8601;
    assert!(calendar.is_supported());
    assert!(!Calendar::Persian.is_supported());
    assert_eq!(calendar.id(), "iso8601");
    assert_eq!(Calendar::Persian.id(), "persian");
    assert!(calendar.era(day).is_none());
    assert_eq!(calendar.year(day), 2024);
    assert_eq!(calendar.month(day), 2);
    assert_eq!(calendar.month_code(day), "M2");
    assert_eq!(calendar.day(day), 29);
    assert_eq!(calendar.day_of_week(day), 4);
    assert_eq!(calendar.day_of_year(day), 60);
    assert_eq!(calendar.week_of_year(day), 9);
    assert_eq!(calendar.days_in_week(day), 7);
    assert_eq!(calendar.days_in_month(day), 29);
    assert_eq!(calendar.days_in_year(day), 366);
    assert_eq!(calendar.months_in_year(day), 12);
    assert!(calendar.in_leap_year(day));
}

#[test]
fn calendars_by_name() {
    assert!(matches!("iso8601".parse::<Calendar>(), Ok(Calendar::Iso8601)));
    assert!(matches!("persian".parse::<Calendar>(), Ok(Calendar::Persian)));
    assert!(matches!(Calendar::from_id("iso8601"), Ok(Calendar::Iso8601)));
    assert!("ISO8601".parse::<Calendar>().is_err());
    assert!("Persian".parse::<Calendar>().is_err());
    assert!("gregory".parse::<Calendar>().is_err());
    assert!("".parse::<Calendar>().is_err());
    assert!("iso8601 ".parse::<Calendar>().is_err());
}

#[test]
fn weekdays() {
    assert_eq!(weekday(0), 4);
    assert_eq!(weekday(-1), 3);
    assert_eq!(weekday(3), 7);
    assert_eq!(weekday(4), 1);
    assert_eq!(weekday(-4), 7);
    assert_eq!(weekday(i64::MAX), 4);
    assert_eq!(weekday(i64::MIN), 3);
    assert_eq!(IsoCalendar.day_of_week(date(1970, 1, 1)), 4);
    assert_eq!(IsoCalendar.day_of_week(date(2000, 1, 1)), 6);
    assert_eq!(IsoCalendar.day_of_week(date(2021, 1, 3)), 7);
    assert_eq!(IsoCalendar.day_of_week(date(2018, 12, 31)), 1);
}

#[test]
fn days_of_the_year() {
    assert_eq!(ordinal_day(2023, 1, 1), 1);
    assert_eq!(ordinal_day(2023, 3, 1), 60);
    assert_eq!(ordinal_day(2024, 3, 1), 61);
    assert_eq!(ordinal_day(2023, 12, 31), 365);
    assert_eq!(ordinal_day(2024, 12, 31), 366);
    assert_eq!(IsoCalendar.day_of_year(date(2020, 12, 31)), 366);
}

#[test]
fn weeks_of_the_year() {
    assert_eq!(IsoCalendar.week_of_year(date(1970, 1, 1)), 1);
    assert_eq!(IsoCalendar.week_of_year(date(2000, 1, 1)), 52);
    assert_eq!(IsoCalendar.week_of_year(date(2021, 1, 3)), 53);
    assert_eq!(IsoCalendar.week_of_year(date(2020, 12, 31)), 53);
    assert_eq!(IsoCalendar.week_of_year(date(2026, 12, 31)), 53);
    assert_eq!(IsoCalendar.week_of_year(date(2027, 1, 1)), 53);
    assert_eq!(IsoCalendar.week_of_year(date(2018, 12, 31)), 1);
    assert_eq!(IsoCalendar.week_of_year(date(2010, 1, 3)), 53);
    assert_eq!(IsoCalendar.week_of_year(date(2022, 8, 26)), 34);
    assert_eq!(IsoCalendar.week_of_year(date(-271820, 1, 1)), 52);
    assert_eq!(IsoCalendar.week_of_year(date(275759, 12, 31)), 1);
}

#[test]
fn from_ymd_keeps_what_exists() {
    assert_eq!(outcome(IsoCalendar.from_ymd(2022, 9, 1)), (true, (2022, 9, 1)));
    assert_eq!(outcome(IsoCalendar.from_ymd(2024, 2, 29)), (true, (2024, 2, 29)));
    assert_eq!(outcome(Calendar::Iso8601.from_ymd(2022, 12, 31)), (true, (2022, 12, 31)));
    assert_eq!(outcome(IsoCalendar.from_ymd(-271820, 1, 1)), (true, (-271820, 1, 1)));
    assert_eq!(outcome(IsoCalendar.from_ymd(275759, 12, 31)), (true, (275759, 12, 31)));
}

#[test]
fn from_ymd_moves_what_does_not_exist() {
    assert_eq!(outcome(IsoCalendar.from_ymd(2000, 13, 2)), (false, (2000, 12, 2)));
    assert_eq!(outcome(IsoCalendar.from_ymd(2023, 2, 29)), (false, (2023, 2, 28)));
    assert_eq!(outcome(IsoCalendar.from_ymd(2024, 2, 30)), (false, (2024, 2, 29)));
    assert_eq!(outcome(IsoCalendar.from_ymd(2023, 4, 31)), (false, (2023, 4, 30)));
    assert_eq!(outcome(IsoCalendar.from_ymd(2023, 1, 32)), (false, (2023, 1, 31)));
    assert_eq!(outcome(IsoCalendar.from_ymd(2023, 99, 99)), (false, (2023, 12, 31)));
    assert_eq!(outcome(IsoCalendar.from_ymd(2023, u32::MAX, u32::MAX)), (false, (2023, 12, 31)));
    assert_eq!(outcome(IsoCalendar.from_ymd(2023, 256, 1)), (false, (2023, 12, 1)));
    assert_eq!(outcome(IsoCalendar.from_ymd(2023, 1, 257)), (false, (2023, 1, 31)));
    assert_eq!(outcome(IsoCalendar.from_ymd(300000, 2, 29)), (false, (275759, 2, 28)));
    assert_eq!(outcome(IsoCalendar.from_ymd(-300000, 2, 29)), (false, (-271820, 2, 29)));
    assert_eq!(outcome(IsoCalendar.from_ymd(i32::MAX, 1, 1)), (false, (275759, 1, 1)));
}

#[test]
fn a_constrained_date_is_settled() {
    let asked = [(2000, 13, 2), (2023, 2, 29), (2023, 99, 99), (300000, 2, 29), (2022, 9, 1)];
    for (year, month, day) in asked {
        let first = PlainDate::from_ymd(year, month, day, Calendar::Iso8601).constrain();
        let again = IsoCalendar.from_ymd(
            first.iso_year(),
            first.iso_month() as u32,
            first.iso_day() as u32,
        );
        assert_eq!(
            outcome(again),
            (true, (first.iso_year(), first.iso_month(), first.iso_day()))
        );
    }
}

#[test]
fn a_plain_date_takes_eight_bytes() {
    assert_eq!(std::mem::size_of::<PlainDate>(), 8);
}

#[test]
fn plain_dates() {
    let plain = PlainDate::from_iso_date(date(2022, 9, 1), Calendar::Iso8601);
    assert_eq!(ymd(&plain.iso_date()), (2022, 9, 1));
    assert_eq!((plain.iso_year(), plain.iso_month(), plain.iso_day()), (2022, 9, 1));
    assert_eq!((plain.year(), plain.month()), (2022, 9));
    let copy = plain;
    assert_eq!(copy.clone().iso_day(), plain.iso_day());
    let generic = PlainDate::from_ymd(2023, 2, 31, IsoCalendar).constrain();
    assert_eq!((generic.year(), generic.month(), generic.iso_day()), (2023, 2, 28));
}

fn units(is_negative: bool, years: u32, months: u32, weeks: u32, days: u32) -> NominalDuration {
    NominalDuration::from_calendar_units(is_negative, years, months, weeks, days).unwrap()
}

#[test]
fn adding_nothing() {
    let sum = IsoCalendar.date_add(date(2022, 9, 1), NominalDuration::default());
    assert_eq!(outcome(sum), (true, (2022, 9, 1)));
}

#[test]
fn adding_years_and_months() {
    assert_eq!(
        outcome(IsoCalendar.date_add(date(2022, 9, 1), NominalDuration::from_years(3))),
        (true, (2025, 9, 1))
    );
    assert_eq!(
        outcome(IsoCalendar.date_add(date(2022, 9, 1), NominalDuration::from_years(-3))),
        (true, (2019, 9, 1))
    );
    assert_eq!(
        outcome(IsoCalendar.date_add(date(2022, 9, 1), units(true, 3, 0, 0, 0))),
        (true, (2019, 9, 1))
    );
    assert_eq!(
        outcome(IsoCalendar.date_add(date(2022, 9, 1), units(false, 0, 4, 0, 0))),
        (true, (2023, 1, 1))
    );
    assert_eq!(
        outcome(IsoCalendar.date_add(date(2022, 9, 1), units(false, 1, 15, 0, 0))),
        (true, (2024, 12, 1))
    );
    assert_eq!(
        outcome(IsoCalendar.date_add(date(2022, 9, 1), units(true, 0, 9, 0, 0))),
        (true, (2021, 12, 1))
    );
    assert_eq!(
        outcome(IsoCalendar.date_add(date(2022, 1, 15), units(true, 0, 1, 0, 0))),
        (true, (2021, 12, 15))
    );
    assert_eq!(
        outcome(Calendar::Iso8601.date_add(date(2022, 1, 15), units(true, 2, 25, 0, 0))),
        (true, (2017, 12, 15))
    );
}

#[test]
fn adding_months_constrains_the_day() {
    assert_eq!(
        outcome(IsoCalendar.date_add(date(2023, 1, 31), units(false, 0, 1, 0, 0))),
        (false, (2023, 2, 28))
    );
    assert_eq!(
        outcome(IsoCalendar.date_add(date(2024, 1, 31), units(false, 0, 1, 0, 0))),
        (false, (2024, 2, 29))
    );
    assert_eq!(
        outcome(IsoCalendar.date_add(date(2024, 2, 29), NominalDuration::from_years(1))),
        (false, (2025, 2, 28))
    );
    assert_eq!(
        outcome(IsoCalendar.date_add(date(2024, 2, 29), NominalDuration::from_years(4))),
        (true, (2028, 2, 29))
    );
    assert_eq!(
        outcome(IsoCalendar.date_add(date(2023, 3, 31), units(true, 0, 1, 0, 0))),
        (false, (2023, 2, 28))
    );
    assert_eq!(
        outcome(IsoCalendar.date_add(date(2023, 1, 31), units(false, 0, 1, 0, 3))),
        (false, (2023, 3, 3))
    );
}

#[test]
fn adding_weeks_and_days() {
    assert_eq!(
        outcome(IsoCalendar.date_add(date(2022, 9, 1), units(false, 0, 0, 0, 29))),
        (true, (2022, 9, 30))
    );
    assert_eq!(
        outcome(IsoCalendar.date_add(date(2022, 9, 1), units(false, 0, 0, 0, 30))),
        (true, (2022, 10, 1))
    );
    assert_eq!(
        outcome(IsoCalendar.date_add(date(2022, 9, 1), units(false, 0, 0, 1, 0))),
        (true, (2022, 9, 8))
    );
    assert_eq!(
        outcome(IsoCalendar.date_add(date(2022, 12, 25), units(false, 0, 0, 1, 0))),
        (true, (2023, 1, 1))
    );
    assert_eq!(
        outcome(IsoCalendar.date_add(date(2022, 9, 1), units(true, 0, 0, 0, 1))),
        (true, (2022, 8, 31))
    );
    assert_eq!(
        outcome(IsoCalendar.date_add(date(2022, 1, 1), units(true, 0, 0, 0, 1))),
        (true, (2021, 12, 31))
    );
    assert_eq!(
        outcome(IsoCalendar.date_add(date(2024, 3, 1), units(true, 0, 0, 0, 1))),
        (true, (2024, 2, 29))
    );
    assert_eq!(
        outcome(IsoCalendar.date_add(date(2022, 9, 1), units(false, 0, 0, 0, 365))),
        (true, (2023, 9, 1))
    );
    assert_eq!(
        outcome(IsoCalendar.date_add(date(2022, 9, 1), units(true, 0, 0, 52, 1))),
        (true, (2021, 9, 1))
    );
    assert_eq!(
        outcome(IsoCalendar.date_add(date(1970, 1, 1), units(false, 0, 0, 0, 11017))),
        (true, (2000, 3, 1))
    );
    assert_eq!(
        outcome(IsoCalendar.date_add(date(2000, 3, 1), units(true, 0, 0, 0, 11017))),
        (true, (1970, 1, 1))
    );
    assert_eq!(
        outcome(IsoCalendar.date_add(date(2022, 9, 1), units(false, 1, 2, 3, 4))),
        (true, (2023, 11, 26))
    );
}

#[test]
fn adding_days_and_taking_them_away() {
    for (weeks, days) in [(0, 1), (1, 0), (3, 4), (52, 1), (0, 365), (1000, 1000)] {
        for start in [date(2022, 9, 1), date(2024, 2, 29), date(1999, 12, 31), date(0, 1, 1)] {
            let there = match IsoCalendar.date_add(start, units(false, 0, 0, weeks, days)) {
                FromYMDResult::Normal(there) => there,
                FromYMDResult::OverflowConstrained(_) => panic!("days move nothing"),
            };
            assert_eq!(there.to_epoch_day(), start.to_epoch_day() + 7 * weeks as i64 + days as i64);
            let back = IsoCalendar.date_add(there, units(true, 0, 0, weeks, days));
            assert_eq!(outcome(back), (true, ymd(&start)));
        }
    }
}

#[test]
fn weekdays_follow_each_other() {
    let mut before = weekday(-10);
    for day in -9..400 {
        let now = weekday(day);
        assert_eq!(now, before % 7 + 1);
        assert_eq!(weekday(day + 7), now);
        before = now;
    }
}

#[test]
fn adding_up_to_the_ends_of_the_range() {
    assert_eq!(
        outcome(IsoCalendar.date_add(date(275759, 12, 30), units(false, 0, 0, 0, 1))),
        (true, (275759, 12, 31))
    );
    assert_eq!(
        outcome(IsoCalendar.date_add(date(-271820, 1, 2), units(true, 0, 0, 0, 1))),
        (true, (-271820, 1, 1))
    );
    assert_eq!(
        outcome(IsoCalendar.date_add(date(0, 1, 1), NominalDuration::from_years(275759))),
        (true, (275759, 1, 1))
    );
}

#[test]
fn times_of_day() {
    let time = IsoTime {
        hour: 4,
        minute: 30,
        second: 15,
        millisecond: 1,
        microsecond: 2,
        nanosecond: 3,
    };
    assert_eq!(time.to_second(), 16215);
    assert!(time.has_nanosecond());
    assert_eq!(time.to_nanosecond(), 16215_001_002_003);
    let whole = IsoTime { hour: 23, minute: 59, second: 59, ..IsoTime::default() };
    assert_eq!(whole.to_second(), 86399);
    assert!(!whole.has_nanosecond());
    assert_eq!(whole.to_nanosecond(), 86399_000_000_000);
    let midnight = IsoTime::default();
    assert_eq!(midnight.to_second(), 0);
    assert_eq!(midnight.to_nanosecond(), 0);
    let large = IsoTime {
        hour: 255,
        minute: 255,
        second: 255,
        millisecond: 65535,
        microsecond: 65535,
        nanosecond: 65535,
    };
    assert_eq!(large.to_second(), 255 * 3600 + 255 * 60 + 255);
    assert_eq!(
        large.to_nanosecond(),
        (255 * 3600 + 255 * 60 + 255) * 1_000_000_000 + 65535 * 1_000_000 + 65535 * 1000 + 65535
    );
}

#[test]
fn sums_that_leave_the_range() {
    let last = date(275759, 12, 31);
    assert!(IsoCalendar::date_add_in_range(last, &NominalDuration::default()));
    assert!(!IsoCalendar::date_add_in_range(last, &units(false, 0, 0, 0, 1)));
    assert!(IsoCalendar::date_add_in_range(last, &units(true, 0, 0, 0, 1)));
    assert!(!IsoCalendar::date_add_in_range(last, &units(false, 0, 1, 0, 0)));
    assert!(!IsoCalendar::date_add_in_range(last, &NominalDuration::from_years(1)));
    let first = date(-271820, 1, 1);
    assert!(!IsoCalendar::date_add_in_range(first, &units(true, 0, 0, 0, 1)));
    assert!(IsoCalendar::date_add_in_range(first, &units(false, 0, 0, 0, 1)));
    assert!(!IsoCalendar::date_add_in_range(first, &units(true, 0, 1, 0, 0)));
    let day = date(2022, 9, 1);
    assert!(IsoCalendar::date_add_in_range(day, &units(false, 273737, 3, 0, 30)));
    assert!(!IsoCalendar::date_add_in_range(day, &units(false, 273737, 4, 0, 0)));
    assert!(!IsoCalendar::date_add_in_range(
        day,
        &units(false, 0x7fff_ffff, 0x7fff_ffff, 0x7fff_ffff, 0x7fff_ffff)
    ));
    assert!(!IsoCalendar::date_add_in_range(
        day,
        &units(true, 0x7fff_ffff, 0x7fff_ffff, 0x7fff_ffff, 0x7fff_ffff)
    ));
    assert!(!IsoCalendar::date_add_in_range(day, &units(false, 0, 0, 0x7fff_ffff, 0)));
    assert!(IsoCalendar::date_add_in_range(day, &units(false, 0, 0, 0, 99_000_000)));
    assert_eq!(
        outcome(IsoCalendar.date_add(day, units(false, 273737, 3, 0, 30))),
        (true, (275759, 12, 31))
    );
}
