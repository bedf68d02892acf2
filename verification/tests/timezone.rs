use temporal_core::iso::{IsoDate, IsoTime};
use temporal_core::timezone::iana::Tz;
use temporal_core::timezone::timezone_impl::{FixedTimespan, FixedTimespanSet, TimeSpans};
use temporal_core::timezone::TimeZoneParseError;
use temporal_core::{TimeZone, TimeZoneProtocol};

fn date(year: i32, month: u8, day: u8) -> IsoDate {
    IsoDate::new(year, month, day).unwrap()
}

fn time(hour: u8, minute: u8, second: u8) -> IsoTime {
    IsoTime { hour, minute, second, ..IsoTime::default() }
}

fn span(offset: i32, name: &'static str) -> FixedTimespan {
    FixedTimespan { utc_offset: offset, dst_offset: 0, name }
}

#[test]
fn simple_parse() {
    let tz: TimeZone = "+01:00".parse().unwrap();
    assert_eq!(tz.get_second_offset(0), 3600);
}

#[test]
fn parse_without_colon() {
    let tz: TimeZone = "+0330".parse().unwrap();
    assert_eq!(tz.get_second_offset(0), 12600);
}

#[test]
fn parse_sub_second() {
    let tz: Result<TimeZone, TimeZoneParseError> = "-03:30:00.000000001".parse();
    assert_eq!(tz, Err(TimeZoneParseError::SubSecondOffset(-12600_000000001)));
}

#[test]
fn fixed_offsets_by_name() {
    assert_eq!(TimeZone::from_id("+00").unwrap().get_second_offset(123), 0);
    assert_eq!(TimeZone::from_id("-00:00").unwrap().get_second_offset(123), 0);
    assert_eq!(TimeZone::from_id("+05").unwrap().get_second_offset(-1), 18000);
    assert_eq!(TimeZone::from_id("-0330").unwrap().get_second_offset(0), -12600);
    assert_eq!(TimeZone::from_id("\u{2212}03:30").unwrap().get_second_offset(0), -12600);
    assert_eq!(TimeZone::from_id("+01:02:03").unwrap().get_second_offset(0), 3723);
    assert_eq!(TimeZone::from_id("-010203").unwrap().get_second_offset(0), -3723);
    assert_eq!(TimeZone::from_id("+23:59:59").unwrap().get_second_offset(0), 86399);
    assert_eq!(TimeZone::from_id("-23:59:59").unwrap().get_second_offset(0), -86399);
    assert_eq!(TimeZone::from_id("+01:00:00.000").unwrap().get_second_offset(0), 3600);
}

#[test]
fn sub_second_offsets_carry_their_nanoseconds() {
    assert_eq!(
        TimeZone::from_id("+00:00:00.5"),
        Err(TimeZoneParseError::SubSecondOffset(500_000_000))
    );
    assert_eq!(
        TimeZone::from_id("-00:00:01.000001"),
        Err(TimeZoneParseError::SubSecondOffset(-1_000_001_000))
    );
    assert_eq!(
        TimeZoneParseError::SubSecondOffset(-12600_000000001).is_sub_second(),
        Some(-12600_000000001)
    );
    assert_eq!(TimeZoneParseError::InvalidTimeZone.is_sub_second(), None);
    assert_eq!(TimeZoneParseError::InvalidIsoString.is_sub_second(), None);
    assert_eq!(TimeZoneParseError::OutOfRange.is_sub_second(), None);
}

#[test]
fn names_that_are_no_time_zone() {
    assert_eq!(TimeZone::from_id(""), Err(TimeZoneParseError::InvalidTimeZone));
    assert_eq!(TimeZone::from_id("Mars/Olympus"), Err(TimeZoneParseError::InvalidTimeZone));
    assert_eq!(TimeZone::from_id("01:00"), Err(TimeZoneParseError::InvalidTimeZone));
    assert_eq!(TimeZone::from_id("Z"), Err(TimeZoneParseError::InvalidTimeZone));
    assert_eq!(TimeZone::from_id(" UTC"), Err(TimeZoneParseError::InvalidTimeZone));
    assert_eq!(TimeZone::from_id("+"), Err(TimeZoneParseError::InvalidIsoString));
    assert_eq!(TimeZone::from_id("+1"), Err(TimeZoneParseError::InvalidIsoString));
    assert_eq!(TimeZone::from_id("+01:"), Err(TimeZoneParseError::InvalidIsoString));
    assert_eq!(TimeZone::from_id("+01:00x"), Err(TimeZoneParseError::InvalidIsoString));
    assert_eq!(TimeZone::from_id("+01:00:00:00"), Err(TimeZoneParseError::InvalidIsoString));
    assert_eq!(TimeZone::from_id("+24:00"), Err(TimeZoneParseError::InvalidIsoString));
    assert_eq!(TimeZone::from_id("+01:00Z"), Err(TimeZoneParseError::InvalidIsoString));
    assert_eq!(
        TimeZone::from_id("+01:00:00.1234567891"),
        Err(TimeZoneParseError::InvalidIsoString)
    );
}

#[test]
fn zones_by_name_whatever_the_case() {
    assert_eq!(TimeZone::from_id("UTC").unwrap(), TimeZone::utc());
    assert_eq!(TimeZone::from_id("utc").unwrap(), TimeZone::utc());
    assert_eq!(TimeZone::from_id("Asia/Tehran").unwrap().id(), "Asia/Tehran");
    assert_eq!(TimeZone::from_id("asia/tehran").unwrap().id(), "Asia/Tehran");
    assert_eq!(TimeZone::from_id("ASIA/TEHRAN").unwrap().id(), "Asia/Tehran");
    assert_eq!(TimeZone::from_id("Asia/TehrAn").unwrap().id(), "Asia/Tehran");
    assert_eq!(TimeZone::from_id("asia/tokyo").unwrap().id(), "Asia/Tokyo");
    assert_eq!(TimeZone::from_id("Asia/Kolkata").unwrap().id(), "Asia/Kolkata");
    assert_eq!(Tz::from_str_insensitive("uTc"), Ok(Tz::UTC));
    assert_eq!(Tz::from_str_insensitive("Asia/Tehra"), Err(()));
    assert_eq!(Tz::from_str_insensitive("Asia/Tehrann"), Err(()));
    assert_eq!(Tz::from_str_insensitive("Asia\u{212a}Tehran"), Err(()));
    assert_eq!(Tz::AsiaTokyo.name(), "Asia/Tokyo");
}

#[test]
fn fixed_offsets_as_text() {
    assert_eq!(TimeZone::from_id("+01:00").unwrap().id(), "+01:00");
    assert_eq!(TimeZone::from_id("+0330").unwrap().id(), "+03:30");
    assert_eq!(TimeZone::from_id("-03").unwrap().id(), "-03:00");
    assert_eq!(TimeZone::from_id("\u{2212}03:30").unwrap().id(), "-03:30");
    assert_eq!(TimeZone::from_id("+00").unwrap().id(), "+00:00");
    assert_eq!(TimeZone::from_id("-00").unwrap().id(), "+00:00");
    assert_eq!(TimeZone::from_id("+01:02:03").unwrap().id(), "+01:02:03");
    assert_eq!(TimeZone::from_id("-23:59:59").unwrap().id(), "-23:59:59");
    assert_eq!(TimeZone::from_id("+00:00:07").unwrap().id(), "+00:00:07");
    assert_eq!(TimeZone::from_id("+12:00:00").unwrap().id(), "+12:00");
}

#[test]
fn an_offset_as_text_names_the_same_offset() {
    for text in ["+01:00", "-03:30", "+00:00", "+01:02:03", "-23:59:59", "+14:00"] {
        let zone = TimeZone::from_id(text).unwrap();
        assert_eq!(zone.id(), text);
        assert_eq!(TimeZone::from_id(&zone.id()).unwrap(), zone);
    }
}

#[test]
fn zone_from_a_date_time_text() {
    assert_eq!(
        TimeZone::extract_from_iso_date("2022-09-01T00:00Z[Asia/Tehran]").unwrap().id(),
        "Asia/Tehran"
    );
    assert_eq!(
        TimeZone::extract_from_iso_date("2022-09-01T00:00+01:00[+04:30]").unwrap().id(),
        "+04:30"
    );
    assert_eq!(TimeZone::extract_from_iso_date("2022-09-01T00:00Z").unwrap(), TimeZone::utc());
    assert_eq!(TimeZone::extract_from_iso_date("2022-09-01T00:00-0330").unwrap().id(), "-03:30");
    assert_eq!(
        TimeZone::extract_from_iso_date("2022-09-01T00:00"),
        Err(TimeZoneParseError::InvalidIsoString)
    );
    assert_eq!(
        TimeZone::extract_from_iso_date("2022-09-01T00:00[u-ca=iso8601]"),
        Err(TimeZoneParseError::InvalidIsoString)
    );
    assert_eq!(
        TimeZone::extract_from_iso_date("2022-02-30T00:00Z"),
        Err(TimeZoneParseError::InvalidIsoString)
    );
    assert_eq!(
        TimeZone::extract_from_iso_date("2022-09-01T00:00Z[Nowhere]"),
        Err(TimeZoneParseError::InvalidTimeZone)
    );
    assert_eq!(
        TimeZone::extract_from_iso_date("2022-09-01T00:00Z[+01:00:00.25]"),
        Err(TimeZoneParseError::SubSecondOffset(3600_250_000_000))
    );
    assert_eq!(
        TimeZone::extract_from_iso_date("2022-09-01T00:00-01:00:00.25"),
        Err(TimeZoneParseError::SubSecondOffset(-3600_250_000_000))
    );
}

#[test]
fn offsets_of_tehran() {
    let tehran = TimeZone::from_id("Asia/Tehran").unwrap();
    assert_eq!(tehran.get_second_offset(i64::MIN), 12344);
    assert_eq!(tehran.get_second_offset(-1704165945), 12344);
    assert_eq!(tehran.get_second_offset(-1704165944), 12344);
    assert_eq!(tehran.get_second_offset(-1090466745), 12344);
    assert_eq!(tehran.get_second_offset(-1090466744), 12600);
    assert_eq!(tehran.get_second_offset(0), 12600);
    assert_eq!(tehran.get_second_offset(227820599), 12600);
    assert_eq!(tehran.get_second_offset(227820600), 16200);
    assert_eq!(tehran.get_second_offset(246223800), 14400);
    assert_eq!(tehran.get_second_offset(259617600), 18000);
    assert_eq!(tehran.get_second_offset(1661990400), 16200);
    assert_eq!(tehran.get_second_offset(1663788599), 16200);
    assert_eq!(tehran.get_second_offset(1663788600), 12600);
    assert_eq!(tehran.get_second_offset(i64::MAX), 12600);
}

#[test]
fn offsets_of_other_zones() {
    assert_eq!(TimeZone::utc().get_second_offset(0), 0);
    assert_eq!(TimeZone::utc().get_second_offset(i64::MIN), 0);
    assert_eq!(TimeZone::utc().id(), "UTC");
    let tokyo = TimeZone::from_id("Asia/Tokyo").unwrap();
    assert_eq!(tokyo.get_second_offset(-2587712401), 33539);
    assert_eq!(tokyo.get_second_offset(-2587712400), 32400);
    assert_eq!(tokyo.get_second_offset(-683802000), 36000);
    assert_eq!(tokyo.get_second_offset(0), 32400);
    let kolkata = TimeZone::from_id("Asia/Kolkata").unwrap();
    assert_eq!(kolkata.get_second_offset(-3645237209), 21208);
    assert_eq!(kolkata.get_second_offset(-891581400), 23400);
    assert_eq!(kolkata.get_second_offset(0), 19800);
}

#[test]
fn the_offset_changes_at_a_transition() {
    let tehran = TimeZone::from_id("Asia/Tehran").unwrap();
    let table = Tz::AsiaTehran.timespans();
    let mut changes = 0;
    for (at, span) in table.rest.iter() {
        let before = tehran.get_second_offset(at - 1);
        let behind = tehran.get_second_offset(*at);
        assert_eq!(behind, span.second_offset());
        if before != behind {
            changes += 1;
        }
    }
    assert_eq!(changes, table.rest.len() - 1);
    assert_eq!(tehran.get_second_offset(1647894599), 12600);
    assert_eq!(tehran.get_second_offset(1647894600), 16200);
}

#[test]
fn a_transition_that_only_renames_keeps_the_offset() {
    let tehran = TimeZone::from_id("Asia/Tehran").unwrap();
    assert_eq!(tehran.get_second_offset(-1704165945), tehran.get_second_offset(-1704165944));
    let table = Tz::AsiaTehran.timespans();
    assert_eq!(table.first.name, "LMT");
    assert_eq!(table.rest[0].1.name, "TMT");
}

#[test]
fn the_tables_are_well_formed() {
    for zone in [Tz::UTC, Tz::AsiaKolkata, Tz::AsiaTehran, Tz::AsiaTokyo] {
        assert!(zone.timespans().is_well_formed());
    }
    assert_eq!(Tz::UTC.timespans().rest.len(), 0);
    assert_eq!(Tz::AsiaTehran.timespans().rest.len(), 71);
}

#[test]
fn tables_that_are_not_well_formed() {
    let sorted = FixedTimespanSet {
        first: span(0, "A"),
        rest: vec![(10, span(3600, "B")), (20, span(0, "A"))],
    };
    assert!(sorted.is_well_formed());
    let unsorted = FixedTimespanSet {
        first: span(0, "A"),
        rest: vec![(20, span(3600, "B")), (10, span(0, "A"))],
    };
    assert!(!unsorted.is_well_formed());
    let repeated = FixedTimespanSet {
        first: span(0, "A"),
        rest: vec![(10, span(3600, "B")), (10, span(0, "A"))],
    };
    assert!(!repeated.is_well_formed());
    let wide = FixedTimespanSet { first: span(86400, "A"), rest: vec![] };
    assert!(!wide.is_well_formed());
    let wide_later = FixedTimespanSet { first: span(0, "A"), rest: vec![(10, span(-86400, "B"))] };
    assert!(!wide_later.is_well_formed());
    let summed = FixedTimespanSet {
        first: FixedTimespan { utc_offset: i32::MAX, dst_offset: i32::MAX, name: "A" },
        rest: vec![],
    };
    assert!(!summed.is_well_formed());
    assert_eq!(summed.first.second_offset(), 2 * (i32::MAX as i64));
}

#[test]
fn spans_are_found_by_halving() {
    let table = FixedTimespanSet {
        first: span(0, "first"),
        rest: vec![
            (-100, span(1, "a")),
            (0, span(2, "b")),
            (7, span(3, "c")),
            (8, span(4, "d")),
            (1000, span(5, "e")),
        ],
    };
    let expected = [
        (i64::MIN, 0, "first"),
        (-101, 0, "first"),
        (-100, 1, "a"),
        (-1, 1, "a"),
        (0, 2, "b"),
        (6, 2, "b"),
        (7, 3, "c"),
        (8, 4, "d"),
        (999, 4, "d"),
        (1000, 5, "e"),
        (i64::MAX, 5, "e"),
    ];
    for (sec, count, name) in expected {
        assert_eq!(table.count_with_sec(sec), count);
        assert_eq!(table.select_with_sec(sec).name, name);
    }
    let empty = FixedTimespanSet { first: span(0, "first"), rest: vec![] };
    assert_eq!(empty.count_with_sec(0), 0);
    assert_eq!(empty.select_with_sec(0).name, "first");
    let one = FixedTimespanSet { first: span(0, "first"), rest: vec![(5, span(1, "a"))] };
    assert_eq!(one.select_with_sec(4).name, "first");
    assert_eq!(one.select_with_sec(5).name, "a");
}

#[test]
fn a_fixed_offset_shows_each_time_once() {
    let zone = TimeZone::from_id("+04:30").unwrap();
    assert_eq!(zone.get_possible_seconds(date(2022, 9, 1), time(4, 30, 0)), vec![1661990400]);
    let west = TimeZone::from_id("-01:00").unwrap();
    assert_eq!(west.get_possible_seconds(date(1970, 1, 1), time(0, 0, 0)), vec![3600]);
    assert_eq!(TimeZone::utc().get_possible_seconds(date(1970, 1, 1), time(0, 0, 1)), vec![1]);
}

#[test]
fn an_ordinary_time_is_shown_once() {
    let tehran = TimeZone::from_id("Asia/Tehran").unwrap();
    assert_eq!(tehran.get_possible_seconds(date(2022, 6, 1), time(12, 0, 0)), vec![1654068600]);
    assert_eq!(tehran.get_possible_seconds(date(2022, 12, 1), time(12, 0, 0)), vec![1669883400]);
    assert_eq!(
        tehran.get_possible_seconds(date(1800, 1, 1), time(0, 0, 0)),
        vec![date(1800, 1, 1).to_epoch_second() - 12344]
    );
    assert_eq!(
        tehran.get_possible_seconds(date(2100, 1, 1), time(0, 0, 0)),
        vec![date(2100, 1, 1).to_epoch_second() - 12600]
    );
}

#[test]
fn a_skipped_time_is_never_shown() {
    let tehran = TimeZone::from_id("Asia/Tehran").unwrap();
    assert_eq!(tehran.get_possible_seconds(date(2022, 3, 22), time(0, 30, 0)), Vec::<i64>::new());
    assert_eq!(tehran.get_possible_seconds(date(2022, 3, 22), time(0, 0, 0)), Vec::<i64>::new());
    assert_eq!(tehran.get_possible_seconds(date(2022, 3, 22), time(0, 59, 59)), Vec::<i64>::new());
    assert_eq!(tehran.get_possible_seconds(date(2022, 3, 21), time(23, 59, 59)), vec![1647894599]);
    assert_eq!(tehran.get_possible_seconds(date(2022, 3, 22), time(1, 0, 0)), vec![1647894600]);
}

#[test]
fn a_repeated_time_is_shown_twice() {
    let tehran = TimeZone::from_id("Asia/Tehran").unwrap();
    let twice = tehran.get_possible_seconds(date(2022, 9, 21), time(23, 30, 0));
    assert_eq!(twice, vec![1663786800, 1663790400]);
    assert!(twice[0] < twice[1]);
    assert_eq!(tehran.get_second_offset(twice[0]), 16200);
    assert_eq!(tehran.get_second_offset(twice[1]), 12600);
    assert_eq!(
        tehran.get_possible_seconds(date(2022, 9, 21), time(23, 0, 0)),
        vec![1663785000, 1663788600]
    );
    assert_eq!(
        tehran.get_possible_seconds(date(2022, 9, 21), time(23, 59, 59)),
        vec![1663788599, 1663792199]
    );
    assert_eq!(tehran.get_possible_seconds(date(2022, 9, 21), time(22, 59, 59)), vec![1663784999]);
    assert_eq!(tehran.get_possible_seconds(date(2022, 9, 22), time(0, 0, 0)), vec![1663792200]);
}

#[test]
fn every_instant_of_a_day_of_transition_is_found() {
    let tehran = TimeZone::from_id("Asia/Tehran").unwrap();
    for instant in (1647894600 - 7200..1647894600 + 7200).step_by(61) {
        let local = instant + tehran.get_second_offset(instant);
        let day = IsoDate::from_epoch_second(local);
        let second = local.rem_euclid(86400);
        let clock = time((second / 3600) as u8, (second / 60 % 60) as u8, (second % 60) as u8);
        let found = tehran.get_possible_seconds(day, clock);
        assert!(found.contains(&instant));
        for other in found {
            assert_eq!(other + tehran.get_second_offset(other), local);
        }
    }
}
