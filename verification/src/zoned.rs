//! Instants in a time zone, read in a calendar.

use crate::arith::{floor_div, floor_mod};
use crate::calendar::{calendar_named, Calendar, CalendarProtocol};
use crate::civil::{civil_of_second, lemma_four_digit_year_days, CivilDate};
use crate::duration::SignedDuration;
use crate::iso::grammar::{lemma_parsed_valid, text_parsed, ParsedText};
use crate::iso::parser::parse;
use crate::iso::{IsoDate, IsoOffset, IsoTime, MAX_EPOCH_SECOND, MIN_EPOCH_SECOND};
use crate::plain::PlainDate;
use crate::timezone::{timezone_named, TimeZone, TimeZoneProtocol, ZoneKind};
use vstd::prelude::*;
use vstd::std_specs::convert::FromSpecImpl;

verus! {

/// An instant, the time zone that its wall-clock time is read in, and the
/// calendar that its date is read in. Only the instant is held; the date and
/// the time of day are worked out from it when asked for.
pub struct ZonedDateTime<T: TimeZoneProtocol = TimeZone, C: CalendarProtocol = Calendar> {
    epoch: SignedDuration,
    calendar: C,
    timezone: T,
}

impl<T: TimeZoneProtocol, C: CalendarProtocol> ZonedDateTime<T, C> {
    /// What holds of every zoned date-time: its wall clock shows a date in a
    /// representable year.
    #[verifier::type_invariant]
    pub closed spec fn is_valid(self) -> bool {
        MIN_EPOCH_SECOND <= self.local_instant() <= MAX_EPOCH_SECOND
    }

    /// The instant, in seconds since 1970-01-01T00:00:00 UTC.
    pub closed spec fn instant(&self) -> int {
        self.epoch.whole_seconds()
    }

    /// The instant, in nanoseconds since 1970-01-01T00:00:00 UTC.
    pub closed spec fn instant_nanos(&self) -> int {
        self.epoch@
    }

    /// The time zone.
    pub closed spec fn zone(&self) -> T {
        self.timezone
    }

    /// The calendar.
    pub closed spec fn calendar_of(&self) -> C {
        self.calendar
    }

    /// The second that the wall clock of the zone shows at the instant,
    /// counted as if the clock ran in UTC.
    pub open spec fn local_instant(&self) -> int {
        self.instant() + self.zone().offset_at(self.instant())
    }

    /// The date that the wall clock of the zone shows at the instant.
    pub open spec fn civil(&self) -> CivilDate {
        civil_of_second(self.local_instant())
    }

    /// The second that the wall clock shows, as a machine number.
    fn local_seconds(&self) -> (r: i64)
        ensures
            r == self.local_instant(),
            MIN_EPOCH_SECOND <= r <= MAX_EPOCH_SECOND,
    {
        proof {
            use_type_invariant(self);
        }
        let secs = self.epoch.as_secs();
        let offset = self.timezone.get_second_offset(secs);
        secs + offset
    }

    /// The ISO date that the wall clock of the zone shows at the instant.
    pub fn iso_date(&self) -> (r: IsoDate)
        ensures
            r@ == self.civil(),
    {
        IsoDate::from_epoch_second(self.local_seconds())
    }

    /// The year of the date in the calendar.
    pub fn year(&self) -> (r: i32)
        requires
            self.calendar_of().supported(),
        ensures
            r == self.calendar_of().year_of(self.civil()),
    {
        self.calendar.year(self.iso_date())
    }

    /// The month of the date in the calendar.
    pub fn month(&self) -> (r: u32)
        requires
            self.calendar_of().supported(),
        ensures
            r == self.calendar_of().month_of(self.civil()),
    {
        self.calendar.month(self.iso_date())
    }

    /// The day of the month in the calendar.
    pub fn day(&self) -> (r: u32)
        requires
            self.calendar_of().supported(),
        ensures
            r == self.calendar_of().day_of(self.civil()),
    {
        self.calendar.day(self.iso_date())
    }

    /// The hour that the wall clock shows.
    pub fn hour(&self) -> (r: u8)
        ensures
            r == (self.local_instant() / 3600) % 24,
    {
        floor_mod(floor_div(self.local_seconds(), 3600), 24) as u8
    }

    /// The minute that the wall clock shows.
    pub fn minute(&self) -> (r: u8)
        ensures
            r == (self.local_instant() / 60) % 60,
    {
        floor_mod(floor_div(self.local_seconds(), 60), 60) as u8
    }

    /// The calendar.
    pub fn calendar(&self) -> (r: C) where C: Copy
        ensures
            r == self.calendar_of(),
    {
        self.calendar
    }

    /// The date that the wall clock shows, in the same calendar.
    pub fn to_plain_date(self) -> (r: PlainDate<C>)
        ensures
            r == PlainDate::of(self.civil(), self.calendar_of()),
            r.civil() == self.civil(),
            r.calendar_of() == self.calendar_of(),
    {
        let date = self.iso_date();
        PlainDate::from_iso_date(date, self.calendar)
    }
}

impl<T: TimeZoneProtocol, C: CalendarProtocol> From<ZonedDateTime<T, C>> for PlainDate<C> {
    /// The date that the wall clock shows, in the same calendar.
    fn from(z: ZonedDateTime<T, C>) -> (r: PlainDate<C>) {
        z.to_plain_date()
    }
}

impl<T: TimeZoneProtocol, C: CalendarProtocol> FromSpecImpl<ZonedDateTime<T, C>> for PlainDate<C> {
    open spec fn obeys_from_spec() -> bool {
        true
    }

    open spec fn from_spec(z: ZonedDateTime<T, C>) -> PlainDate<C> {
        PlainDate::of(z.civil(), z.calendar_of())
    }
}

/// Why a text is not a zoned date-time.
#[non_exhaustive]
#[derive(Debug)]
pub enum ZonedDateTimeParseError {
    /// The text does not follow the grammar.
    MalformedIsoString,
    /// The name in brackets names no time zone; the name.
    UnknownTimeZone(String),
    /// The name of the calendar names no calendar; the name.
    UnknownCalendar(String),
    /// The text names no time zone.
    MissingTimezone,
    /// The wall clock of the zone never shows the time, or shows it more
    /// than once.
    NonUniqueTime,
    /// The offset that the text gives is not the offset of the zone at that
    /// instant.
    WrongOffset,
}

/// Why a text is not a zoned date-time, as a mathematical value.
pub enum ZonedParseFailure {
    MalformedIsoString,
    UnknownTimeZone(Seq<char>),
    UnknownCalendar(Seq<char>),
    MissingTimezone,
    NonUniqueTime,
    WrongOffset,
}

impl View for ZonedDateTimeParseError {
    type V = ZonedParseFailure;

    open spec fn view(&self) -> ZonedParseFailure {
        match *self {
            ZonedDateTimeParseError::MalformedIsoString => ZonedParseFailure::MalformedIsoString,
            ZonedDateTimeParseError::UnknownTimeZone(name) => ZonedParseFailure::UnknownTimeZone(
                name@,
            ),
            ZonedDateTimeParseError::UnknownCalendar(name) => ZonedParseFailure::UnknownCalendar(
                name@,
            ),
            ZonedDateTimeParseError::MissingTimezone => ZonedParseFailure::MissingTimezone,
            ZonedDateTimeParseError::NonUniqueTime => ZonedParseFailure::NonUniqueTime,
            ZonedDateTimeParseError::WrongOffset => ZonedParseFailure::WrongOffset,
        }
    }
}

/// What a text names as a zoned date-time: the instant, the zone and the
/// calendar.
pub struct ZonedValue {
    pub instant: int,
    pub zone: ZoneKind,
    pub calendar: Calendar,
}

/// Whether the wall clock of the zone shows the second `local` at the
/// instant `t`.
pub open spec fn shows(zone: ZoneKind, t: int, local: int) -> bool {
    t + zone.offset_at(t) == local
}

/// Whether `t` is the one instant at which the wall clock of the zone
/// shows the second `local`.
pub open spec fn is_only_instant(zone: ZoneKind, t: i64, local: int) -> bool {
    &&& shows(zone, t as int, local)
    &&& forall|u: i64| #[trigger] shows(zone, u as int, local) ==> u == t
}

/// The one instant at which the wall clock of the zone shows the second
/// `local`, where there is exactly one.
pub open spec fn only_instant(zone: ZoneKind, local: int) -> Option<int> {
    if exists|t: i64| is_only_instant(zone, t, local) {
        Some((choose|t: i64| is_only_instant(zone, t, local)) as int)
    } else {
        None
    }
}

/// The wall clock of a fixed offset shows each second at exactly one
/// instant.
pub proof fn lemma_fixed_only_instant(offset: int, local: int)
    requires
        i64::MIN <= local - offset <= i64::MAX,
    ensures
        only_instant(ZoneKind::Fixed(offset), local) == Some(local - offset),
{
    let zone = ZoneKind::Fixed(offset);
    let instant = (local - offset) as i64;
    assert(is_only_instant(zone, instant, local));
}

/// A second that the wall clock of a zone shows at no instant has no one
/// instant.
pub proof fn lemma_never_shown(zone: ZoneKind, local: int)
    requires
        forall|t: i64| !#[trigger] shows(zone, t as int, local),
    ensures
        only_instant(zone, local) is None,
{
}

/// A second that the wall clock of a zone shows at two instants has no one
/// instant.
pub proof fn lemma_shown_twice(zone: ZoneKind, local: int, a: i64, b: i64)
    requires
        shows(zone, a as int, local),
        shows(zone, b as int, local),
        a != b,
    ensures
        only_instant(zone, local) is None,
{
}

/// The instant that a date, a time and what a text says of the offset name
/// in a zone.
///
/// With a numeric offset, the offset has to be the offset of the zone at
/// the instant that it leads to. With `Z`, the date and the time are read in
/// UTC. With neither, the wall clock of the zone has to show the date and the
/// time at exactly one instant.
pub open spec fn instant_in_zone(parsed: ParsedText, zone: ZoneKind) -> Result<
    int,
    ZonedParseFailure,
> {
    let naive = parsed.date.epoch_second() + match parsed.time {
        Some(time) => time.second_of_day(),
        None => 0,
    };
    match parsed.timezone_offset {
        Some(IsoOffset::Numeric(offset)) => {
            let instant = naive - offset.signed_seconds();
            if offset.time.subsecond_nanos() == 0 && zone.offset_at(instant)
                == offset.signed_seconds() {
                Ok(instant)
            } else {
                Err(ZonedParseFailure::WrongOffset)
            }
        },
        Some(IsoOffset::Z) => Ok(naive),
        None => match only_instant(zone, naive) {
            Some(instant) => Ok(instant),
            None => Err(ZonedParseFailure::NonUniqueTime),
        },
    }
}

/// What a text names as a zoned date-time. The text has to follow the
/// grammar and to name a time zone in brackets; the calendar is ISO 8601
/// unless the text names another.
pub open spec fn zoned_of_text(s: Seq<char>) -> Result<ZonedValue, ZonedParseFailure> {
    match text_parsed(s) {
        None => Err(ZonedParseFailure::MalformedIsoString),
        Some(parsed) => match parsed.timezone_name {
            None => Err(ZonedParseFailure::MissingTimezone),
            Some(name) => match timezone_named(name) {
                Err(_) => Err(ZonedParseFailure::UnknownTimeZone(name)),
                Ok(zone) => {
                    let calendar = match parsed.calendar {
                        None => Some(Calendar::Iso8601),
                        Some(id) => calendar_named(id),
                    };
                    match calendar {
                        None => Err(ZonedParseFailure::UnknownCalendar(parsed.calendar->0)),
                        Some(calendar) => match instant_in_zone(parsed, zone) {
                            Err(e) => Err(e),
                            Ok(instant) => Ok(ZonedValue { instant, zone, calendar }),
                        },
                    }
                },
            },
        },
    }
}

impl ZonedDateTime {
    /// The zoned date-time that a text names.
    pub fn from_iso_text(s: &str) -> (r: Result<ZonedDateTime, ZonedDateTimeParseError>)
        ensures
            r matches Ok(zoned) ==> zoned_of_text(s@) == Ok::<ZonedValue, ZonedParseFailure>(
                ZonedValue {
                    instant: zoned.instant(),
                    zone: zoned.zone()@,
                    calendar: zoned.calendar_of(),
                },
            ),
            r matches Ok(zoned) ==> zoned.instant_nanos() == zoned.instant() * 1_000_000_000,
            r matches Err(e) ==> zoned_of_text(s@) == Err::<ZonedValue, ZonedParseFailure>(e@),
    {
        let i = match parse(s) {
            Some(parsed) => parsed,
            None => {
                return Err(ZonedDateTimeParseError::MalformedIsoString);
            },
        };
        let ghost parsed = i@;
        proof {
            lemma_parsed_valid(s@);
            lemma_four_digit_year_days(parsed.date);
        }
        let tz_name = match i.timezone_name {
            Some(name) => name,
            None => {
                return Err(ZonedDateTimeParseError::MissingTimezone);
            },
        };
        let tz = match TimeZone::from_id(tz_name.as_str()) {
            Ok(tz) => tz,
            Err(_) => {
                return Err(ZonedDateTimeParseError::UnknownTimeZone(tz_name));
            },
        };
        let calendar = match i.calendar {
            Some(c) => match Calendar::from_id(c.as_str()) {
                Ok(calendar) => calendar,
                Err(_) => {
                    return Err(ZonedDateTimeParseError::UnknownCalendar(c));
                },
            },
            None => Calendar::Iso8601,
        };
        let time_secs: i64 = match i.time {
            Some(x) => x.to_second() as i64,
            None => 0,
        };
        let secs = i.date.to_epoch_second() + time_secs;
        proof {
            use_type_invariant(tz);
            tz.lemma_bounded();
        }
        let real_secs = match i.timezone_offset {
            Some(IsoOffset::Numeric(n)) => {
                let offset_secs = n.to_seconds() as i64;
                let x = secs - offset_secs;
                let offset_tz = tz.get_second_offset(x);
                if n.time.has_nanosecond() || offset_tz != offset_secs {
                    return Err(ZonedDateTimeParseError::WrongOffset);
                }
                x
            },
            Some(IsoOffset::Z) => {
                proof {
                    tz@.lemma_offset_bounded(secs as int);
                }
                secs
            },
            None => {
                let time = match i.time {
                    Some(time) => time,
                    None => IsoTime::default(),
                };
                let d = tz.get_possible_seconds(i.date, time);
                if d.len() != 1 {
                    proof {
                        if d@.len() == 0 {
                            assert forall|t: i64| !#[trigger] shows(tz@, t as int, secs as int) by {
                                assert(tz.offset_at(t as int) == tz@.offset_at(t as int));
                            }
                            lemma_never_shown(tz@, secs as int);
                        } else {
                            assert(d@.contains(d@[0]));
                            assert(d@.contains(d@[1]));
                            lemma_shown_twice(tz@, secs as int, d@[0], d@[1]);
                        }
                    }
                    return Err(ZonedDateTimeParseError::NonUniqueTime);
                }
                proof {
                    let only = d@[0];
                    assert(d@.contains(only));
                    assert forall|u: i64| #[trigger] shows(tz@, u as int, secs as int) implies u
                        == only by {
                        assert(u + tz.offset_at(u as int) == secs);
                    }
                    assert(is_only_instant(tz@, only, secs as int));
                    tz@.lemma_offset_bounded(only as int);
                }
                d[0]
            },
        };
        Ok(ZonedDateTime { calendar, timezone: tz, epoch: SignedDuration::from_secs(real_secs) })
    }
}

impl std::str::FromStr for ZonedDateTime {
    type Err = ZonedDateTimeParseError;

    /// The zoned date-time that a text names, as
    /// `ZonedDateTime::from_iso_text` gives it.
    fn from_str(s: &str) -> (r: Result<ZonedDateTime, ZonedDateTimeParseError>)
        ensures
            r matches Ok(zoned) ==> zoned_of_text(s@) == Ok::<ZonedValue, ZonedParseFailure>(
                ZonedValue {
                    instant: zoned.instant(),
                    zone: zoned.zone()@,
                    calendar: zoned.calendar_of(),
                },
            ),
            r matches Ok(zoned) ==> zoned.instant_nanos() == zoned.instant() * 1_000_000_000,
            r matches Err(e) ==> zoned_of_text(s@) == Err::<ZonedValue, ZonedParseFailure>(e@),
    {
        ZonedDateTime::from_iso_text(s)
    }
}

} // verus!
