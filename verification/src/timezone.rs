//! Time zones: named zones with a table of transitions, and fixed offsets
//! from UTC.

use crate::civil::CivilDate;
use crate::iso::grammar::{sign_of, text_parsed, time_at};
use crate::iso::parser::{parse, parse_sign, parse_time};
use crate::iso::{IsoDate, IsoOffset, IsoTime};
use crate::text::{chars_of, push_two_digits, two_digit_text};
use crate::timezone::iana::{zone_named, Tz};
use crate::timezone::timezone_impl::{FixedTimespanSet, TimeSpans};
use vstd::prelude::*;
use vstd::string::StringExecFns;

pub mod iana;
pub mod laws;
pub mod timezone_impl;

verus! {

/// The second that a wall clock shows, counted as if the clock ran in UTC.
pub open spec fn local_second(date: CivilDate, time: IsoTime) -> int {
    date.epoch_second() + time.second_of_day()
}

/// What a time zone says: its name, and the offset of local time from UTC
/// at each instant. An implementation owes the values of the mathematical
/// counterparts.
pub trait TimeZoneProtocol {
    /// The name of the time zone.
    spec fn id_text(&self) -> Seq<char>;

    /// The offset of local time from UTC at an instant, in seconds.
    spec fn offset_at(&self, seconds_since_epoch: int) -> int;

    /// The name of the time zone.
    fn id(&self) -> (r: String)
        ensures
            r@ == self.id_text(),
    ;

    /// The offset of local time from UTC at an instant, in seconds.
    fn get_second_offset(&self, seconds_since_epoch: i64) -> (r: i64)
        ensures
            r == self.offset_at(seconds_since_epoch as int),
    ;

    /// Every instant at which the wall clock of the zone shows the given
    /// date and time, the earliest first: none for a time that a transition
    /// skips, two or more for one that a transition repeats.
    fn get_possible_seconds(&self, date: IsoDate, time: IsoTime) -> (r: Vec<i64>)
        ensures
            forall|i: int, j: int| 0 <= i < j < r@.len() ==> r@[i] < r@[j],
            forall|t: i64| #[trigger]
                r@.contains(t) ==> t + self.offset_at(t as int) == local_second(date@, time),
            forall|t: i64|
                t + #[trigger] self.offset_at(t as int) == local_second(date@, time)
                    ==> r@.contains(t),
    ;
}

#[derive(Debug, Clone, Copy, PartialEq, Eq)]
enum TimezoneInner {
    Tz(Tz),
    Fixed(i32),
}

/// A time zone: a zone of the IANA database, or a fixed offset from UTC of
/// less than a day.
#[derive(Debug, Clone, Copy, PartialEq, Eq)]
pub struct TimeZone(TimezoneInner);

/// What a time zone is.
pub enum ZoneKind {
    /// A zone of the IANA database.
    Named(Tz),
    /// A fixed offset from UTC, in seconds.
    Fixed(int),
}

impl ZoneKind {
    /// The name of a zone of the database, or a fixed offset as a text.
    pub open spec fn id_text(self) -> Seq<char> {
        match self {
            ZoneKind::Named(zone) => zone.name_text(),
            ZoneKind::Fixed(offset) => offset_text(offset),
        }
    }

    /// The offset of local time from UTC at an instant, in seconds.
    pub open spec fn offset_at(self, seconds_since_epoch: int) -> int {
        match self {
            ZoneKind::Named(zone) => zone.table().offset_at(seconds_since_epoch),
            ZoneKind::Fixed(offset) => offset,
        }
    }

    /// A fixed offset is less than a day.
    pub open spec fn is_bounded(self) -> bool {
        match self {
            ZoneKind::Named(zone) => true,
            ZoneKind::Fixed(offset) => -86400 < offset < 86400,
        }
    }

    /// The offset of a zone is less than a day at every instant.
    pub proof fn lemma_offset_bounded(self, seconds_since_epoch: int)
        requires
            self.is_bounded(),
        ensures
            -86400 < self.offset_at(seconds_since_epoch) < 86400,
    {
        match self {
            ZoneKind::Named(zone) => {
                zone.lemma_table_wf();
                zone.table().lemma_offset_bounded(seconds_since_epoch);
            },
            ZoneKind::Fixed(offset) => {},
        }
    }
}

impl View for TimeZone {
    type V = ZoneKind;

    closed spec fn view(&self) -> ZoneKind {
        match self.0 {
            TimezoneInner::Tz(zone) => ZoneKind::Named(zone),
            TimezoneInner::Fixed(offset) => ZoneKind::Fixed(offset as int),
        }
    }
}

/// Why a text is not the name of a time zone.
#[derive(Debug, PartialEq, Eq)]
pub enum TimeZoneParseError {
    /// The text is neither the name of a known zone nor an offset.
    InvalidTimeZone,
    /// The text does not follow the grammar.
    InvalidIsoString,
    OutOfRange,
    /// The offset has a fraction of a second; the offset in nanoseconds.
    SubSecondOffset(i64),
}

impl TimeZoneParseError {
    /// The offset in nanoseconds, where the error is an offset with a
    /// fraction of a second.
    pub fn is_sub_second(&self) -> (r: Option<i64>)
        ensures
            r == match *self {
                TimeZoneParseError::SubSecondOffset(x) => Some(x),
                _ => None,
            },
    {
        match self {
            Self::SubSecondOffset(x) => Some(*x),
            _ => None,
        }
    }
}

/// The time zone that a text names: a known zone of the IANA database,
/// whatever the case of the letters, or else an offset: a sign and a time
/// whose colons may be left out, with nothing behind it and without a
/// fraction of a second.
pub open spec fn timezone_named(s: Seq<char>) -> Result<ZoneKind, TimeZoneParseError> {
    if zone_named(s) is Some {
        Ok(ZoneKind::Named(zone_named(s)->0))
    } else if s.len() > 0 && sign_of(s[0]) is Some {
        match time_at(s, 1, true) {
            None => Err(TimeZoneParseError::InvalidIsoString),
            Some((time, end)) => {
                if end < s.len() {
                    Err(TimeZoneParseError::InvalidIsoString)
                } else if time.subsecond_nanos() != 0 {
                    Err(
                        TimeZoneParseError::SubSecondOffset(
                            signed(sign_of(s[0])->0, time.nanosecond_of_day()) as i64,
                        ),
                    )
                } else {
                    Ok(ZoneKind::Fixed(signed(sign_of(s[0])->0, time.second_of_day())))
                }
            },
        }
    } else {
        Err(TimeZoneParseError::InvalidTimeZone)
    }
}

/// `x` with its sign turned where `is_neg` says so.
pub open spec fn signed(is_neg: bool, x: int) -> int {
    if is_neg {
        -x
    } else {
        x
    }
}

/// The time zone that a date-time text gives: the one that its bracketed
/// name names, or else the one of its offset, where that is `Z` or has no
/// fraction of a second.
pub open spec fn timezone_of_text(s: Seq<char>) -> Result<ZoneKind, TimeZoneParseError> {
    match text_parsed(s) {
        None => Err(TimeZoneParseError::InvalidIsoString),
        Some(parsed) => match parsed.timezone_name {
            Some(name) => timezone_named(name),
            None => match parsed.timezone_offset {
                None => Err(TimeZoneParseError::InvalidIsoString),
                Some(IsoOffset::Z) => Ok(ZoneKind::Named(Tz::UTC)),
                Some(IsoOffset::Numeric(offset)) => if offset.time.subsecond_nanos() != 0 {
                    Err(TimeZoneParseError::SubSecondOffset(offset.signed_nanoseconds() as i64))
                } else {
                    Ok(ZoneKind::Fixed(offset.signed_seconds()))
                },
            },
        },
    }
}

/// A fixed offset as a text: the sign, the hours and the minutes in two
/// digits each with a colon in between, and the seconds in the same way
/// where there are any.
pub open spec fn offset_text(offset: int) -> Seq<char> {
    let size = if offset < 0 {
        -offset
    } else {
        offset
    };
    let sign = if offset < 0 {
        '-'
    } else {
        '+'
    };
    let hours_and_minutes = seq![sign] + two_digit_text(size / 3600) + seq![':'] + two_digit_text(
        (size / 60) % 60,
    );
    if size % 60 == 0 {
        hours_and_minutes
    } else {
        hours_and_minutes + seq![':'] + two_digit_text(size % 60)
    }
}

impl TimeZone {
    /// What holds of every time zone: a fixed offset is less than a day.
    #[verifier::type_invariant]
    pub closed spec fn is_valid(self) -> bool {
        match self.0 {
            TimezoneInner::Tz(_) => true,
            TimezoneInner::Fixed(offset) => -86400 < offset < 86400,
        }
    }

    /// A fixed offset of a time zone is less than a day.
    pub proof fn lemma_bounded(self)
        requires
            self.is_valid(),
        ensures
            self@.is_bounded(),
    {
    }

    /// The zone `UTC`.
    pub fn utc() -> (r: TimeZone)
        ensures
            r@ == ZoneKind::Named(Tz::UTC),
    {
        TimeZone(TimezoneInner::Tz(Tz::UTC))
    }

    /// The time zone that a text names.
    pub fn from_id(s: &str) -> (r: Result<TimeZone, TimeZoneParseError>)
        ensures
            r matches Ok(zone) ==> timezone_named(s@) == Ok::<ZoneKind, TimeZoneParseError>(zone@),
            r matches Err(e) ==> timezone_named(s@) == Err::<ZoneKind, TimeZoneParseError>(e),
    {
        if let Ok(zone) = Tz::from_str_insensitive(s) {
            return Ok(TimeZone(TimezoneInner::Tz(zone)));
        }
        let chars = chars_of(s);
        if chars.len() == 0 {
            return Err(TimeZoneParseError::InvalidTimeZone);
        }
        let is_neg = match parse_sign(chars[0]) {
            Some(sign) => sign,
            None => {
                return Err(TimeZoneParseError::InvalidTimeZone);
            },
        };
        match parse_time(chars.as_slice(), 1, true) {
            None => Err(TimeZoneParseError::InvalidIsoString),
            Some((time, end)) => {
                if end < chars.len() {
                    return Err(TimeZoneParseError::InvalidIsoString);
                }
                if time.has_nanosecond() {
                    let nanos = time.to_nanosecond();
                    return Err(
                        TimeZoneParseError::SubSecondOffset(
                            if is_neg {
                                -nanos
                            } else {
                                nanos
                            },
                        ),
                    );
                }
                let seconds = time.to_second();
                Ok(
                    TimeZone(
                        TimezoneInner::Fixed(
                            if is_neg {
                                -seconds
                            } else {
                                seconds
                            },
                        ),
                    ),
                )
            },
        }
    }

    /// The time zone that a date-time text gives: the one that its
    /// bracketed name names, or else the one of its offset.
    pub fn extract_from_iso_date(iso: &str) -> (r: Result<TimeZone, TimeZoneParseError>)
        ensures
            r matches Ok(zone) ==> timezone_of_text(iso@) == Ok::<ZoneKind, TimeZoneParseError>(
                zone@,
            ),
            r matches Err(e) ==> timezone_of_text(iso@) == Err::<ZoneKind, TimeZoneParseError>(e),
    {
        let parsed = match parse(iso) {
            Some(parsed) => parsed,
            None => {
                return Err(TimeZoneParseError::InvalidIsoString);
            },
        };
        if let Some(name) = parsed.timezone_name {
            return TimeZone::from_id(name.as_str());
        }
        match parsed.timezone_offset {
            None => Err(TimeZoneParseError::InvalidIsoString),
            Some(IsoOffset::Z) => Ok(TimeZone::utc()),
            Some(IsoOffset::Numeric(offset)) => {
                proof {
                    crate::iso::grammar::lemma_parsed_valid(iso@);
                }
                if offset.time.has_nanosecond() {
                    let nanos = offset.time.to_nanosecond();
                    Err(
                        TimeZoneParseError::SubSecondOffset(
                            if offset.is_neg {
                                -nanos
                            } else {
                                nanos
                            },
                        ),
                    )
                } else {
                    Ok(TimeZone(TimezoneInner::Fixed(offset.to_seconds())))
                }
            },
        }
    }

    /// The instants at which the wall clock of a named zone shows the
    /// second `local`: the spans that can be in effect within a day of it are
    /// looked at in turn.
    fn possible_seconds_in(table: &FixedTimespanSet, local: i64) -> (r: Vec<i64>)
        requires
            table@.wf(),
            -10_000_000_000_000 <= local <= 10_000_000_000_000,
        ensures
            forall|i: int, j: int| 0 <= i < j < r@.len() ==> r@[i] < r@[j],
            forall|t: i64| #[trigger] r@.contains(t) ==> t + table@.offset_at(t as int) == local,
            forall|t: i64| t + #[trigger] table@.offset_at(t as int) == local ==> r@.contains(t),
    {
        let low = table.count_with_sec(local - 86400);
        let high = table.count_with_sec(local + 86400);
        proof {
            table@.lemma_count_monotonic(local - 86400, local + 86400);
        }
        let mut found: Vec<i64> = Vec::new();
        let mut place = low;
        loop
            invariant_except_break
                forall|t: i64| #[trigger]
                    found@.contains(t) ==> t + table@.offset_at(t as int) == local
                        && table@.count_until(t as int) < place,
                forall|t: i64|
                    t + #[trigger] table@.offset_at(t as int) == local && low
                        <= table@.count_until(t as int) < place ==> found@.contains(t),
            invariant
                table@.wf(),
                -10_000_000_000_000 <= local <= 10_000_000_000_000,
                low <= place <= high <= table.rest@.len(),
                forall|i: int, j: int| 0 <= i < j < found@.len() ==> found@[i] < found@[j],
            ensures
                forall|i: int, j: int| 0 <= i < j < found@.len() ==> found@[i] < found@[j],
                forall|t: i64| #[trigger]
                    found@.contains(t) ==> t + table@.offset_at(t as int) == local,
                forall|t: i64|
                    t + #[trigger] table@.offset_at(t as int) == local && low
                        <= table@.count_until(t as int) <= high ==> found@.contains(t),
            decreases high - place,
        {
            let span = if place == 0 {
                table.first
            } else {
                table.rest[place - 1].1
            };
            let t = local - span.second_offset();
            let started = place == 0 || table.rest[place - 1].0 <= t;
            let going = place == table.rest.len() || t < table.rest[place].0;
            let ghost before = found@;
            proof {
                table@.lemma_covers(place as int, t as int);
            }
            if started && going {
                proof {
                    assert forall|i: int| 0 <= i < before.len() implies before[i] < t by {
                        let earlier = before[i];
                        assert(before.contains(earlier));
                        if earlier >= t {
                            table@.lemma_count_monotonic(t as int, earlier as int);
                        }
                    }
                }
                found.push(t);
                proof {
                    assert forall|u: i64| #[trigger] found@.contains(u) implies u
                        + table@.offset_at(u as int) == local && table@.count_until(u as int)
                        <= place by {
                        let i = choose|i: int| 0 <= i < found@.len() && found@[i] == u;
                        if i < before.len() {
                            assert(before.contains(u));
                        }
                    }
                }
            }
            proof {
                assert forall|u: i64|
                    u + #[trigger] table@.offset_at(u as int) == local && low
                        <= table@.count_until(u as int) <= place implies found@.contains(u) by {
                    if table@.count_until(u as int) == place {
                        table@.lemma_covers(place as int, u as int);
                        assert(found@[before.len() as int] == t);
                    } else {
                        let i = choose|i: int| 0 <= i < before.len() && before[i] == u;
                        assert(found@[i] == u);
                    }
                }
            }
            if place == high {
                break ;
            }
            place = place + 1;
        }
        proof {
            assert forall|t: i64|
                t + #[trigger] table@.offset_at(t as int) == local implies found@.contains(t) by {
                table@.lemma_offset_bounded(t as int);
                table@.lemma_count_monotonic(local - 86400, t as int);
                table@.lemma_count_monotonic(t as int, local + 86400);
            }
        }
        found
    }
}

impl TimeZoneProtocol for TimeZone {
    open spec fn id_text(&self) -> Seq<char> {
        self@.id_text()
    }

    open spec fn offset_at(&self, seconds_since_epoch: int) -> int {
        self@.offset_at(seconds_since_epoch)
    }

    fn id(&self) -> (r: String) {
        proof {
            use_type_invariant(self);
        }
        match &self.0 {
            TimezoneInner::Tz(zone) => zone.name().to_owned(),
            TimezoneInner::Fixed(offset) => {
                let mut text = if *offset < 0 {
                    "-".to_owned()
                } else {
                    "+".to_owned()
                };
                proof {
                    reveal_strlit("-");
                    reveal_strlit("+");
                    reveal_strlit(":");
                    assert(text@ =~= seq![if *offset < 0 {
                        '-'
                    } else {
                        '+'
                    }]);
                }
                let size = if *offset < 0 {
                    -*offset
                } else {
                    *offset
                };
                let secs = size % 60;
                let mins = (size / 60) % 60;
                let hours = size / 3600;
                push_two_digits(&mut text, hours as u8);
                text.append(":");
                push_two_digits(&mut text, mins as u8);
                if secs != 0 {
                    text.append(":");
                    push_two_digits(&mut text, secs as u8);
                }
                text
            },
        }
    }

    fn get_second_offset(&self, seconds_since_epoch: i64) -> (r: i64) {
        match &self.0 {
            TimezoneInner::Tz(zone) => zone.timespans().select_with_sec(
                seconds_since_epoch,
            ).second_offset(),
            TimezoneInner::Fixed(offset) => *offset as i64,
        }
    }

    fn get_possible_seconds(&self, date: IsoDate, time: IsoTime) -> (r: Vec<i64>) {
        proof {
            use_type_invariant(self);
        }
        let local = date.to_epoch_second() + time.to_second() as i64;
        match &self.0 {
            TimezoneInner::Tz(zone) => {
                let table = zone.timespans();
                TimeZone::possible_seconds_in(&table, local)
            },
            TimezoneInner::Fixed(offset) => {
                let mut found: Vec<i64> = Vec::new();
                found.push(local - *offset as i64);
                proof {
                    assert(found@[0] == local - *offset);
                    assert forall|t: i64| #[trigger] found@.contains(t) implies t + *offset
                        == local by {
                        let i = choose|i: int| 0 <= i < found@.len() && found@[i] == t;
                    }
                }
                found
            },
        }
    }
}

impl std::str::FromStr for TimeZone {
    type Err = TimeZoneParseError;

    /// The time zone that a text names, as `TimeZone::from_id` gives it.
    fn from_str(s: &str) -> (r: Result<TimeZone, TimeZoneParseError>)
        ensures
            r matches Ok(zone) ==> timezone_named(s@) == Ok::<ZoneKind, TimeZoneParseError>(zone@),
            r matches Err(e) ==> timezone_named(s@) == Err::<ZoneKind, TimeZoneParseError>(e),
    {
        TimeZone::from_id(s)
    }
}

} // verus!
