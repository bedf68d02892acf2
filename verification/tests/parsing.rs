use std::str::FromStr;

use temporal_core::iso::parser::{parse, parse_sign, parse_time};
use temporal_core::iso::{IsoDate, IsoOffset};
use temporal_core::zoned::ZonedDateTimeParseError;
use temporal_core::{Calendar, PlainDate, ZonedDateTime};

#[test]
fn parse_plain_date_simple() {
    let result: PlainDate = "2022-02-02".parse().unwrap();
    assert_eq!(result.year(), 2022);
}

#[test]
fn parse_zoned_simple() {
    let result: ZonedDateTime = "2022-09-01T00:00Z[Asia/TehrAn]".parse().unwrap();
    assert_eq!(result.year(), 2022);
    assert_eq!(result.month(), 9);
    assert_eq!(result.day(), 1);
    assert_eq!(result.hour(), 4);
    assert_eq!(result.minute(), 30);
    let result2: ZonedDateTime = "2122-04-01T07:12Z[+03:00]".parse().unwrap();
    assert_eq!(result2.year(), 2122);
    assert_eq!(result2.month(), 4);
    assert_eq!(result2.day(), 1);
    assert_eq!(result2.hour(), 10);
    assert_eq!(result2.minute(), 12);
    let result3: ZonedDateTime = "1853-04-01T00:00Z[UTC]".parse().unwrap();
    assert_eq!(result3.year(), 1853);
    assert_eq!(result3.month(), 4);
    assert_eq!(result3.day(), 1);
    assert_eq!(result3.hour(), 0);
    assert!(matches!(
        ZonedDateTime::from_str("2022-09-01T00:00+04[+04:30]"),
        Err(ZonedDateTimeParseError::WrongOffset),
    ));
}

#[test]
fn from_ymd_constraint() {
    let result = PlainDate::from_ymd(2000, 13, 2, Calendar::Iso8601).constrain();
    assert_eq!(result.month(), 12);
}

#[test]
fn date_alone() {
    let parsed = parse("2022-09-01").unwrap();
    assert_eq!(parsed.date.year(), 2022);
    assert_eq!(parsed.date.month(), 9);
    assert_eq!(parsed.date.day(), 1);
    assert!(parsed.time.is_none());
    assert!(parsed.timezone_offset.is_none());
    assert!(parsed.timezone_name.is_none());
    assert!(parsed.calendar.is_none());
}

#[test]
fn date_needs_four_two_and_two_digits() {
    assert!(parse("").is_none());
    assert!(parse("2022").is_none());
    assert!(parse("202-09-01").is_none());
    assert!(parse("20222-09-01").is_none());
    assert!(parse("2022-9-01").is_none());
    assert!(parse("2022-09-1").is_none());
    assert!(parse("2022-09-011").is_none());
    assert!(parse("2022/09/01").is_none());
    assert!(parse("20220901").is_none());
    assert!(parse("2022-09").is_none());
    assert!(parse("+2022-09-01").is_none());
    assert!(parse("\u{0662}022-09-01").is_none());
}

#[test]
fn date_has_to_be_a_calendar_day() {
    assert!(parse("2021-02-30").is_none());
    assert!(parse("2021-02-29").is_none());
    assert!(parse("2020-02-29").is_some());
    assert!(parse("1900-02-29").is_none());
    assert!(parse("2000-02-29").is_some());
    assert!(parse("2022-00-10").is_none());
    assert!(parse("2022-13-10").is_none());
    assert!(parse("2022-04-00").is_none());
    assert!(parse("2022-04-31").is_none());
    assert!(parse("2022-04-30").is_some());
    assert!(parse("0000-01-01").is_some());
    assert!(parse("9999-12-31").is_some());
}

#[test]
fn time_of_one_two_and_three_groups() {
    let hour = parse("2022-09-01T07").unwrap().time.unwrap();
    assert_eq!((hour.hour, hour.minute, hour.second), (7, 0, 0));
    let minute = parse("2022-09-01T07:12").unwrap().time.unwrap();
    assert_eq!((minute.hour, minute.minute, minute.second), (7, 12, 0));
    let second = parse("2022-09-01T07:12:33").unwrap().time.unwrap();
    assert_eq!((second.hour, second.minute, second.second), (7, 12, 33));
    assert_eq!((second.millisecond, second.microsecond, second.nanosecond), (0, 0, 0));
}

#[test]
fn time_with_a_fraction() {
    let time = parse("2022-09-01T07:12:33.123456789").unwrap().time.unwrap();
    assert_eq!((time.millisecond, time.microsecond, time.nanosecond), (123, 456, 789));
    let short = parse("2022-09-01T07:12:33.5").unwrap().time.unwrap();
    assert_eq!((short.millisecond, short.microsecond, short.nanosecond), (500, 0, 0));
    let four = parse("2022-09-01T07:12:33.1234").unwrap().time.unwrap();
    assert_eq!((four.millisecond, four.microsecond, four.nanosecond), (123, 400, 0));
    let none = parse("2022-09-01T07:12:33.").unwrap().time.unwrap();
    assert_eq!((none.millisecond, none.microsecond, none.nanosecond), (0, 0, 0));
    let then_zone = parse("2022-09-01T07:12:33.25Z").unwrap();
    assert_eq!(then_zone.time.unwrap().millisecond, 250);
    assert!(matches!(then_zone.timezone_offset, Some(IsoOffset::Z)));
}

#[test]
fn time_that_is_malformed() {
    assert!(parse("2022-09-01T").is_none());
    assert!(parse("2022-09-01T7").is_none());
    assert!(parse("2022-09-01T07:").is_none());
    assert!(parse("2022-09-01T07:1").is_none());
    assert!(parse("2022-09-01T07:12:3").is_none());
    assert!(parse("2022-09-01T07:12:33:44").is_none());
    assert!(parse("2022-09-01T0712").is_none());
    assert!(parse("2022-09-01T07.5").is_none());
    assert!(parse("2022-09-01T07:12.5").is_none());
    assert!(parse("2022-09-01T07:12:33.1234567890").is_none());
    assert!(parse("2022-09-01 07:12").is_none());
    assert!(parse("2022-09-01t07:12").is_none());
}

#[test]
fn time_out_of_range() {
    assert!(parse("2022-09-01T23:59:59").is_some());
    assert!(parse("2022-09-01T24:00").is_none());
    assert!(parse("2022-09-01T07:60").is_none());
    assert!(parse("2022-09-01T07:12:60").is_none());
    assert!(parse("2022-09-01T99:99:99").is_none());
}

#[test]
fn time_only_behind_the_date() {
    assert!(parse("2022-09-01ZT07:12").is_none());
    assert!(parse("2022-09-01[UTC]T07:12").is_none());
    assert!(parse("2022-09-01T07:12T08:00").is_none());
}

#[test]
fn offsets() {
    assert!(matches!(parse("2022-09-01Z").unwrap().timezone_offset, Some(IsoOffset::Z)));
    let plus = match parse("2022-09-01T00:00+04:30").unwrap().timezone_offset {
        Some(IsoOffset::Numeric(offset)) => offset,
        _ => panic!("a numeric offset"),
    };
    assert!(!plus.is_neg);
    assert_eq!(plus.to_seconds(), 16200);
    let minus = match parse("2022-09-01T00:00-0330").unwrap().timezone_offset {
        Some(IsoOffset::Numeric(offset)) => offset,
        _ => panic!("a numeric offset"),
    };
    assert!(minus.is_neg);
    assert_eq!(minus.to_seconds(), -12600);
    let unicode = match parse("2022-09-01T00:00\u{2212}03").unwrap().timezone_offset {
        Some(IsoOffset::Numeric(offset)) => offset,
        _ => panic!("a numeric offset"),
    };
    assert_eq!(unicode.to_seconds(), -10800);
    let fraction = match parse("2022-09-01+01:00:00.5").unwrap().timezone_offset {
        Some(IsoOffset::Numeric(offset)) => offset,
        _ => panic!("a numeric offset"),
    };
    assert_eq!(fraction.to_seconds(), 3600);
    assert_eq!(fraction.time.millisecond, 500);
    assert!(parse("2022-09-01+").is_none());
    assert!(parse("2022-09-01+1").is_none());
    assert!(parse("2022-09-01+01:").is_none());
    assert!(parse("2022-09-01+01020304").is_none());
    assert!(parse("2022-09-01+24:00").is_none());
}

#[test]
fn the_last_offset_counts() {
    let parsed = parse("2022-09-01Z+01:00").unwrap();
    match parsed.timezone_offset {
        Some(IsoOffset::Numeric(offset)) => assert_eq!(offset.to_seconds(), 3600),
        _ => panic!("a numeric offset"),
    }
    let parsed = parse("2022-09-01+01:00ZZ").unwrap();
    assert!(matches!(parsed.timezone_offset, Some(IsoOffset::Z)));
}

#[test]
fn brackets() {
    let parsed = parse("2022-09-01T00:00Z[Asia/Tehran][u-ca=persian]").unwrap();
    assert_eq!(parsed.timezone_name.as_deref(), Some("Asia/Tehran"));
    assert_eq!(parsed.calendar.as_deref(), Some("persian"));
    let swapped = parse("2022-09-01[u-ca=iso8601][UTC]").unwrap();
    assert_eq!(swapped.timezone_name.as_deref(), Some("UTC"));
    assert_eq!(swapped.calendar.as_deref(), Some("iso8601"));
    let last = parse("2022-09-01[UTC][Asia/Tokyo][u-ca=a][u-ca=b]").unwrap();
    assert_eq!(last.timezone_name.as_deref(), Some("Asia/Tokyo"));
    assert_eq!(last.calendar.as_deref(), Some("b"));
    let empty = parse("2022-09-01[][u-ca=]").unwrap();
    assert_eq!(empty.timezone_name.as_deref(), Some(""));
    assert_eq!(empty.calendar.as_deref(), Some(""));
    let inner = parse("2022-09-01[a[b]").unwrap();
    assert_eq!(inner.timezone_name.as_deref(), Some("a[b"));
    let almost = parse("2022-09-01[u-ca]").unwrap();
    assert_eq!(almost.timezone_name.as_deref(), Some("u-ca"));
    assert!(almost.calendar.is_none());
    let unicode = parse("2022-09-01[\u{00e9}t\u{00e9}]").unwrap();
    assert_eq!(unicode.timezone_name.as_deref(), Some("\u{00e9}t\u{00e9}"));
}

#[test]
fn brackets_that_are_malformed() {
    assert!(parse("2022-09-01[UTC").is_none());
    assert!(parse("2022-09-01[").is_none());
    assert!(parse("2022-09-01]").is_none());
    assert!(parse("2022-09-01[UTC]]").is_none());
}

#[test]
fn trailing_characters() {
    assert!(parse("2022-09-01x").is_none());
    assert!(parse("2022-09-01 ").is_none());
    assert!(parse("2022-09-01T07:12x").is_none());
    assert!(parse("2022-09-01Zz").is_none());
    assert!(parse("2022-09-01[UTC]x").is_none());
}

#[test]
fn signs() {
    assert_eq!(parse_sign('-'), Some(true));
    assert_eq!(parse_sign('\u{2212}'), Some(true));
    assert_eq!(parse_sign('+'), Some(false));
    assert_eq!(parse_sign('0'), None);
    assert_eq!(parse_sign('\u{2013}'), None);
}

#[test]
fn time_at_a_place() {
    let chars: Vec<char> = "ab03:30rest".chars().collect();
    let (time, end) = parse_time(&chars, 2, false).unwrap();
    assert_eq!((time.hour, time.minute, time.second), (3, 30, 0));
    assert_eq!(end, 7);
    let chars: Vec<char> = "033015".chars().collect();
    let (time, end) = parse_time(&chars, 0, true).unwrap();
    assert_eq!((time.hour, time.minute, time.second), (3, 30, 15));
    assert_eq!(end, 6);
    let (time, end) = parse_time(&chars, 0, false).unwrap();
    assert_eq!((time.hour, time.minute, time.second), (3, 0, 0));
    assert_eq!(end, 2);
    assert!(parse_time(&chars, 5, true).is_none());
    assert!(parse_time(&chars, 6, true).is_none());
    assert!(parse_time(&chars, 60, true).is_none());
}

#[test]
fn written_out_and_read_again() {
    for text in ["2022-02-02", "0000-01-01", "9999-12-31", "2024-02-29", "0987-10-05"] {
        let date = parse(text).unwrap().date;
        assert_eq!(date.to_iso_string(), text);
        let again = parse(&date.to_iso_string()).unwrap().date;
        assert_eq!(
            (again.year(), again.month(), again.day()),
            (date.year(), date.month(), date.day())
        );
    }
    let with_more = parse("2022-09-01T07:12:33.5+04:30[Asia/Tehran][u-ca=iso8601]").unwrap();
    assert_eq!(with_more.date.to_iso_string(), "2022-09-01");
}

#[test]
fn years_beyond_four_digits_are_written_with_a_sign() {
    assert_eq!(IsoDate::new(275759, 12, 31).unwrap().to_iso_string(), "+275759-12-31");
    assert_eq!(IsoDate::new(-271820, 1, 1).unwrap().to_iso_string(), "-271820-01-01");
    assert_eq!(IsoDate::new(10000, 1, 1).unwrap().to_iso_string(), "+010000-01-01");
    assert_eq!(IsoDate::new(-1, 3, 4).unwrap().to_iso_string(), "-000001-03-04");
}

#[test]
fn plain_date_from_text() {
    let date = PlainDate::from_iso_text("2022-09-01T07:12Z[Asia/Tehran]").unwrap();
    assert_eq!((date.iso_year(), date.iso_month(), date.iso_day()), (2022, 9, 1));
    assert_eq!((date.year(), date.month()), (2022, 9));
    assert!(matches!(date.calendar(), Calendar::Iso8601));
    assert!(PlainDate::from_iso_text("2021-02-30").is_err());
    assert!(PlainDate::from_str("2022-09-01x").is_err());
    assert!(PlainDate::from_str("").is_err());
}
