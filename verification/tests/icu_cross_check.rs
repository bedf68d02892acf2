use icu_calendar::types::RataDie;
use icu_calendar::{Date, Iso};
use temporal_core::calendar::IsoCalendar;
use temporal_core::civil::{MAX_EPOCH_DAY, MIN_EPOCH_DAY};
use temporal_core::iso::IsoDate;
use temporal_core::CalendarProtocol;

/// The rata die of 1970-01-01.
const EPOCH_RATA_DIE: i64 = 719163;

fn compare(day: i64) {
    let ours = IsoDate::from_epoch_day(day);
    let theirs = Date::from_rata_die(RataDie::new(day + EPOCH_RATA_DIE), Iso);
    assert_eq!(theirs.to_rata_die().to_i64_date(), day + EPOCH_RATA_DIE);
    assert_eq!(ours.year(), theirs.year().extended_year());
    assert_eq!(ours.month(), theirs.month().ordinal);
    assert_eq!(ours.day(), theirs.day_of_month().0 as u16);
    assert_eq!(ours.to_epoch_day(), day);
    assert_eq!(IsoCalendar.day_of_week(ours), theirs.weekday() as u32);
    assert_eq!(IsoCalendar.day_of_year(ours), theirs.day_of_year().0 as u32);
    assert_eq!(IsoCalendar.days_in_month(ours), theirs.days_in_month() as u32);
    assert_eq!(IsoCalendar.days_in_year(ours), theirs.days_in_year() as u32);
    assert_eq!(IsoCalendar.in_leap_year(ours), theirs.is_in_leap_year());
    assert_eq!(IsoCalendar.months_in_year(ours), theirs.months_in_year() as u32);
    assert_eq!(IsoCalendar.week_of_year(ours), theirs.week_of_year().week_number as u32);
}

#[test]
fn every_day_of_four_centuries() {
    let start = IsoDate::new(1800, 1, 1).unwrap().to_epoch_day();
    let end = IsoDate::new(2200, 12, 31).unwrap().to_epoch_day();
    for day in start..=end {
        compare(day);
    }
}

#[test]
fn days_around_the_year_zero() {
    let start = IsoDate::new(-5, 1, 1).unwrap().to_epoch_day();
    let end = IsoDate::new(5, 12, 31).unwrap().to_epoch_day();
    for day in start..=end {
        compare(day);
    }
}

#[test]
fn days_all_over_the_range() {
    let mut day = MIN_EPOCH_DAY;
    while day <= MAX_EPOCH_DAY {
        compare(day);
        day += 9973;
    }
    for day in MIN_EPOCH_DAY..MIN_EPOCH_DAY + 800 {
        compare(day);
    }
    for day in MAX_EPOCH_DAY - 800..=MAX_EPOCH_DAY {
        compare(day);
    }
}

#[test]
fn dates_are_valid_where_they_are_valid_there() {
    for year in [-9999, -400, -1, 0, 1, 1900, 2000, 2023, 2024, 9999] {
        for month in 0..=13u8 {
            for day in 0..=32u8 {
                assert_eq!(
                    IsoDate::new(year, month, day).is_some(),
                    Date::try_new_iso(year, month, day).is_ok()
                );
            }
        }
    }
}
