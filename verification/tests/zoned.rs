use temporal_core::zoned::ZonedDateTimeParseError;
use temporal_core::{Calendar, PlainDate, ZonedDateTime};

fn fields(text: &str) -> (i32, u32, u32, u8, u8) {
    let zoned = ZonedDateTime::from_iso_text(text).unwrap();
    (zoned.year(), zoned.month(), zoned.day(), zoned.hour(), zoned.minute())
}

#[test]
fn the_offset_of_the_zone_is_added() {
    assert_eq!(fields("2022-09-01T00:00Z[Asia/Tehran]"), (2022, 9, 1, 4, 30));
    assert_eq!(fields("2122-04-01T07:12Z[+03:00]"), (2122, 4, 1, 10, 12));
    assert_eq!(fields("1853-04-01T00:00Z[UTC]"), (1853, 4, 1, 0, 0));
    assert_eq!(fields("2022-12-31T23:00Z[Asia/Tokyo]"), (2023, 1, 1, 8, 0));
    assert_eq!(fields("2022-01-01T00:30Z[-01:00]"), (2021, 12, 31, 23, 30));
    assert_eq!(fields("1969-12-31T23:59:59Z[UTC]"), (1969, 12, 31, 23, 59));
    assert_eq!(fields("0000-01-01T00:00Z[-23:59:59]"), (-1, 12, 31, 0, 0));
    assert_eq!(fields("9999-12-31T23:59:59Z[+23:59:59]"), (10000, 1, 1, 23, 59));
}

#[test]
fn a_date_without_a_time_starts_at_midnight() {
    assert_eq!(fields("2022-09-01Z[UTC]"), (2022, 9, 1, 0, 0));
    assert_eq!(fields("2022-09-01[Asia/Tehran]"), (2022, 9, 1, 0, 0));
}

#[test]
fn an_offset_that_is_the_offset_of_the_zone() {
    assert_eq!(fields("2022-09-01T00:00+04:30[Asia/Tehran]"), (2022, 9, 1, 0, 0));
    assert_eq!(fields("2022-12-01T00:00+03:30[Asia/Tehran]"), (2022, 12, 1, 0, 0));
    assert_eq!(fields("2022-09-01T00:00+04:30[+04:30]"), (2022, 9, 1, 0, 0));
    assert_eq!(fields("2022-09-01T00:00+00[UTC]"), (2022, 9, 1, 0, 0));
    assert_eq!(fields("2022-09-21T23:30+04:30[Asia/Tehran]"), (2022, 9, 21, 23, 30));
    assert_eq!(fields("2022-09-21T23:30+03:30[Asia/Tehran]"), (2022, 9, 21, 23, 30));
}

#[test]
fn an_offset_that_is_not_the_offset_of_the_zone() {
    for text in [
        "2022-09-01T00:00+04[+04:30]",
        "2022-09-01T00:00+03:30[Asia/Tehran]",
        "2022-12-01T00:00+04:30[Asia/Tehran]",
        "2022-09-01T00:00-04:30[+04:30]",
        "2022-09-01T00:00+00:00:01[UTC]",
        "2022-03-22T00:30+03:30[Asia/Tehran]",
        "2022-03-22T00:30+04:30[Asia/Tehran]",
        "2022-09-01T00:00+04:30:00.5[+04:30]",
    ] {
        assert!(matches!(
            ZonedDateTime::from_iso_text(text),
            Err(ZonedDateTimeParseError::WrongOffset)
        ));
    }
}

#[test]
fn without_an_offset_the_time_has_to_be_shown_once() {
    assert_eq!(fields("2022-09-01T00:00[Asia/Tehran]"), (2022, 9, 1, 0, 0));
    assert_eq!(fields("2022-09-01T12:34[+04:30]"), (2022, 9, 1, 12, 34));
    assert_eq!(fields("2022-03-22T01:00[Asia/Tehran]"), (2022, 3, 22, 1, 0));
    assert!(matches!(
        ZonedDateTime::from_iso_text("2022-03-22T00:30[Asia/Tehran]"),
        Err(ZonedDateTimeParseError::NonUniqueTime)
    ));
    assert!(matches!(
        ZonedDateTime::from_iso_text("2022-09-21T23:30[Asia/Tehran]"),
        Err(ZonedDateTimeParseError::NonUniqueTime)
    ));
}

#[test]
fn texts_that_are_no_zoned_date_time() {
    assert!(matches!(
        ZonedDateTime::from_iso_text("2022-09-01T00:00Z[Asia/Tehran"),
        Err(ZonedDateTimeParseError::MalformedIsoString)
    ));
    assert!(matches!(
        ZonedDateTime::from_iso_text("2022-02-30T00:00Z[Asia/Tehran]"),
        Err(ZonedDateTimeParseError::MalformedIsoString)
    ));
    assert!(matches!(
        ZonedDateTime::from_iso_text(""),
        Err(ZonedDateTimeParseError::MalformedIsoString)
    ));
    assert!(matches!(
        ZonedDateTime::from_iso_text("2022-09-01T00:00Z"),
        Err(ZonedDateTimeParseError::MissingTimezone)
    ));
    assert!(matches!(
        ZonedDateTime::from_iso_text("2022-09-01T00:00+04:30[u-ca=iso8601]"),
        Err(ZonedDateTimeParseError::MissingTimezone)
    ));
    match ZonedDateTime::from_iso_text("2022-09-01T00:00Z[Mars/Olympus]") {
        Err(ZonedDateTimeParseError::UnknownTimeZone(name)) => assert_eq!(name, "Mars/Olympus"),
        _ => panic!("an unknown time zone"),
    }
    match ZonedDateTime::from_iso_text("2022-09-01T00:00Z[+01:00:00.5]") {
        Err(ZonedDateTimeParseError::UnknownTimeZone(name)) => assert_eq!(name, "+01:00:00.5"),
        _ => panic!("an unknown time zone"),
    }
    match ZonedDateTime::from_iso_text("2022-09-01T00:00Z[UTC][u-ca=gregory]") {
        Err(ZonedDateTimeParseError::UnknownCalendar(name)) => assert_eq!(name, "gregory"),
        _ => panic!("an unknown calendar"),
    }
    match ZonedDateTime::from_iso_text("2022-09-01T00:00Z[UTC][u-ca=ISO8601]") {
        Err(ZonedDateTimeParseError::UnknownCalendar(name)) => assert_eq!(name, "ISO8601"),
        _ => panic!("an unknown calendar"),
    }
    match ZonedDateTime::from_iso_text("2022-09-01T00:00+01:00[Nowhere][u-ca=gregory]") {
        Err(ZonedDateTimeParseError::UnknownTimeZone(name)) => assert_eq!(name, "Nowhere"),
        _ => panic!("an unknown time zone"),
    }
}

#[test]
fn the_calendar_that_the_text_names() {
    let named = ZonedDateTime::from_iso_text("2022-09-01T00:00Z[UTC][u-ca=iso8601]").unwrap();
    assert!(matches!(named.calendar(), Calendar::Iso8601));
    assert_eq!(named.year(), 2022);
    let unnamed = ZonedDateTime::from_iso_text("2022-09-01T00:00Z[UTC]").unwrap();
    assert!(matches!(unnamed.calendar(), Calendar::Iso8601));
    let persian = ZonedDateTime::from_iso_text("2022-09-01T00:00Z[UTC][u-ca=persian]").unwrap();
    assert!(matches!(persian.calendar(), Calendar::Persian));
    assert!(!persian.calendar().is_supported());
    assert_eq!((persian.hour(), persian.minute()), (0, 0));
    assert_eq!(persian.iso_date().year(), 2022);
}

#[test]
fn the_date_of_a_zoned_date_time() {
    let zoned = ZonedDateTime::from_iso_text("2022-12-31T23:00Z[Asia/Tokyo]").unwrap();
    let iso = zoned.iso_date();
    assert_eq!((iso.year(), iso.month(), iso.day()), (2023, 1, 1));
    let plain: PlainDate = zoned.into();
    assert_eq!((plain.iso_year(), plain.iso_month(), plain.iso_day()), (2023, 1, 1));
    assert_eq!((plain.year(), plain.month()), (2023, 1));
    let zoned = ZonedDateTime::from_iso_text("2022-01-01T00:30Z[-01:00]").unwrap();
    let plain = zoned.to_plain_date();
    assert_eq!((plain.iso_year(), plain.iso_month(), plain.iso_day()), (2021, 12, 31));
}

#[test]
fn hours_and_minutes_before_the_epoch() {
    assert_eq!(fields("1969-12-31T22:58:59Z[UTC]"), (1969, 12, 31, 22, 58));
    assert_eq!(fields("1900-01-01T00:00Z[Asia/Tehran]"), (1900, 1, 1, 3, 25));
    assert_eq!(fields("0001-01-01T00:00:01Z[-00:00:02]"), (0, 12, 31, 23, 59));
}
