//! Durations: nominal ones in units of the calendar, whose length depends
//! on the date they are added to, and exact ones in seconds and nanoseconds.

use crate::arith::{floor_div, floor_mod};
use crate::iso::grammar::{lemma_parsed_valid, text_parsed};
use crate::iso::parser::parse;
use crate::iso::IsoOffset;
use std::time::{Duration, SystemTime, SystemTimeError, UNIX_EPOCH};
use vstd::prelude::*;

verus! {

/// `std::time::SystemTime`, a reading of the system clock. Nothing of its
/// inside is known here.
#[verifier::external_type_specification]
#[verifier::external_body]
pub struct ExSystemTime(SystemTime);

/// `std::time::SystemTimeError`, which `SystemTime::duration_since` returns
/// for a time that lies before the one it is measured from.
#[verifier::external_type_specification]
#[verifier::external_body]
pub struct ExSystemTimeError(SystemTimeError);

/// `SystemTime::now`: the system clock as it reads at the call. Nothing is
/// claimed of the reading.
#[verifier::external_body]
fn system_time_now() -> SystemTime {
    SystemTime::now()
}

/// `SystemTime::duration_since`, measured from `UNIX_EPOCH`: the time that
/// has passed since 1970-01-01T00:00:00 UTC, or an error for a time before it.
/// Nothing is claimed of either.
#[verifier::external_body]
fn since_unix_epoch(time: &SystemTime) -> Result<Duration, SystemTimeError> {
    time.duration_since(UNIX_EPOCH)
}

/// `SystemTimeError::duration`: how far the time lies before the one it was
/// measured from. Nothing is claimed of the result.
pub assume_specification[ SystemTimeError::duration ](error: &SystemTimeError) -> Duration
;

/// `Duration::as_secs`: the whole seconds of a duration. Nothing is claimed
/// of the result.
pub assume_specification[ Duration::as_secs ](duration: &Duration) -> u64
;

/// `Duration::subsec_nanos`: the fraction of a second of a duration, in
/// nanoseconds; it is less than a second.
pub assume_specification[ Duration::subsec_nanos ](duration: &Duration) -> (nanos: u32)
    ensures
        nanos < 1_000_000_000,
;

/// The largest magnitude of a field of a nominal duration.
pub const MAX_MAGNITUDE: u32 = 0x7fff_ffff;

/// The number of nanoseconds in a second.
pub const NANOS_PER_SECOND: u32 = 1_000_000_000;

/// A signed duration in units of the calendar and of the clock: a sign that
/// applies to every field, and the magnitude of each field.
pub struct NominalDuration {
    is_negative: bool,
    years: u32,
    months: u32,
    weeks: u32,
    days: u32,
    hours: u32,
    minutes: u32,
    seconds: u32,
    milli_seconds: u32,
    micro_seconds: u32,
    nano_seconds: u32,
}

/// The calendar units of a nominal duration, each with its sign.
pub struct CalendarUnits {
    pub years: int,
    pub months: int,
    pub weeks: int,
    pub days: int,
}

/// The units of a nominal duration, each with the sign of the duration.
pub struct NominalUnits {
    pub years: int,
    pub months: int,
    pub weeks: int,
    pub days: int,
    pub hours: int,
    pub minutes: int,
    pub seconds: int,
    pub milliseconds: int,
    pub microseconds: int,
    pub nanoseconds: int,
}

impl NominalUnits {
    /// The units of the calendar among the units: years, months, weeks and
    /// days.
    pub open spec fn calendar_units(self) -> CalendarUnits {
        CalendarUnits {
            years: self.years,
            months: self.months,
            weeks: self.weeks,
            days: self.days,
        }
    }

    /// Units of the calendar alone, with no hours, minutes, seconds or
    /// fraction of a second.
    pub open spec fn of_calendar(years: int, months: int, weeks: int, days: int) -> NominalUnits {
        NominalUnits {
            years,
            months,
            weeks,
            days,
            hours: 0,
            minutes: 0,
            seconds: 0,
            milliseconds: 0,
            microseconds: 0,
            nanoseconds: 0,
        }
    }
}

impl View for NominalDuration {
    type V = NominalUnits;

    closed spec fn view(&self) -> NominalUnits {
        NominalUnits {
            years: self.sign() * self.years,
            months: self.sign() * self.months,
            weeks: self.sign() * self.weeks,
            days: self.sign() * self.days,
            hours: self.sign() * self.hours,
            minutes: self.sign() * self.minutes,
            seconds: self.sign() * self.seconds,
            milliseconds: self.sign() * self.milli_seconds,
            microseconds: self.sign() * self.micro_seconds,
            nanoseconds: self.sign() * self.nano_seconds,
        }
    }
}

impl Default for NominalDuration {
    /// The duration of no length.
    fn default() -> (r: NominalDuration)
        ensures
            r@ == NominalUnits::of_calendar(0, 0, 0, 0),
    {
        NominalDuration {
            is_negative: false,
            years: 0,
            months: 0,
            weeks: 0,
            days: 0,
            hours: 0,
            minutes: 0,
            seconds: 0,
            milli_seconds: 0,
            micro_seconds: 0,
            nano_seconds: 0,
        }
    }
}

impl NominalDuration {
    /// What holds of every duration: each calendar unit, read with the
    /// sign, fits a signed 32-bit number.
    #[verifier::type_invariant]
    pub closed spec fn fits(self) -> bool {
        &&& self.years <= MAX_MAGNITUDE
        &&& self.months <= MAX_MAGNITUDE
        &&& self.weeks <= MAX_MAGNITUDE
        &&& self.days <= MAX_MAGNITUDE
    }

    /// -1 for a negative duration, 1 for any other.
    closed spec fn sign(self) -> int {
        if self.is_negative {
            -1
        } else {
            1
        }
    }

    fn signum(&self) -> (r: i32)
        ensures
            r == self.sign(),
    {
        if self.is_negative {
            -1
        } else {
            1
        }
    }

    /// The fields of every duration lie within the signed 32-bit numbers,
    /// and all have the same sign.
    pub proof fn lemma_units_bounded(self)
        requires
            self.fits(),
        ensures
            -MAX_MAGNITUDE <= self@.years <= MAX_MAGNITUDE,
            -MAX_MAGNITUDE <= self@.months <= MAX_MAGNITUDE,
            -MAX_MAGNITUDE <= self@.weeks <= MAX_MAGNITUDE,
            -MAX_MAGNITUDE <= self@.days <= MAX_MAGNITUDE,
            (self@.years >= 0 && self@.months >= 0 && self@.weeks >= 0 && self@.days >= 0) || (
            self@.years <= 0 && self@.months <= 0 && self@.weeks <= 0 && self@.days <= 0),
    {
    }

    /// A duration of the given calendar units, all with one sign. `None`
    /// where a magnitude is above `MAX_MAGNITUDE`.
    pub fn from_calendar_units(
        is_negative: bool,
        years: u32,
        months: u32,
        weeks: u32,
        days: u32,
    ) -> (r: Option<NominalDuration>)
        ensures
            r is Some <==> years <= MAX_MAGNITUDE && months <= MAX_MAGNITUDE && weeks
                <= MAX_MAGNITUDE && days <= MAX_MAGNITUDE,
            r matches Some(d) ==> d@ == if is_negative {
                NominalUnits::of_calendar(-years, -months, -weeks, -days)
            } else {
                NominalUnits::of_calendar(years as int, months as int, weeks as int, days as int)
            },
    {
        if years > MAX_MAGNITUDE || months > MAX_MAGNITUDE || weeks > MAX_MAGNITUDE || days
            > MAX_MAGNITUDE {
            return None;
        }
        Some(
            NominalDuration {
                is_negative,
                years,
                months,
                weeks,
                days,
                hours: 0,
                minutes: 0,
                seconds: 0,
                milli_seconds: 0,
                micro_seconds: 0,
                nano_seconds: 0,
            },
        )
    }

    /// A duration of that many years and nothing else; a negative number
    /// gives a negative duration.
    pub fn from_years(years: i32) -> (r: NominalDuration)
        requires
            years > i32::MIN,
        ensures
            r@ == NominalUnits::of_calendar(years as int, 0, 0, 0),
    {
        let magnitude: u32 = if years < 0 {
            (-years) as u32
        } else {
            years as u32
        };
        NominalDuration {
            is_negative: years < 0,
            years: magnitude,
            months: 0,
            weeks: 0,
            days: 0,
            hours: 0,
            minutes: 0,
            seconds: 0,
            milli_seconds: 0,
            micro_seconds: 0,
            nano_seconds: 0,
        }
    }

    /// The years of the duration, with its sign.
    pub fn years(&self) -> (r: i32)
        ensures
            r == self@.years,
    {
        proof {
            use_type_invariant(self);
        }
        self.years as i32 * self.signum()
    }

    /// The months of the duration, with its sign.
    pub fn months(&self) -> (r: i32)
        ensures
            r == self@.months,
    {
        proof {
            use_type_invariant(self);
        }
        self.months as i32 * self.signum()
    }

    /// The weeks of the duration, with its sign.
    pub fn weeks(&self) -> (r: i32)
        ensures
            r == self@.weeks,
    {
        proof {
            use_type_invariant(self);
        }
        self.weeks as i32 * self.signum()
    }

    /// The days of the duration, with its sign.
    pub fn days(&self) -> (r: i32)
        ensures
            r == self@.days,
    {
        proof {
            use_type_invariant(self);
        }
        self.days as i32 * self.signum()
    }
}

/// The instant that a date-time text with an offset names, in seconds
/// since 1970-01-01T00:00:00 UTC: the seconds from then to its date and those
/// of its time, less those of its offset, which are none for `Z`. There is
/// none where the text does not follow the grammar, gives no offset, or gives
/// an offset with a fraction of a second.
pub open spec fn seconds_of_text(s: Seq<char>) -> Option<int> {
    match text_parsed(s) {
        None => None,
        Some(parsed) => {
            let local = parsed.date.epoch_second() + match parsed.time {
                Some(time) => time.second_of_day(),
                None => 0,
            };
            match parsed.timezone_offset {
                None => None,
                Some(IsoOffset::Z) => Some(local),
                Some(IsoOffset::Numeric(offset)) => if offset.time.subsecond_nanos() != 0 {
                    None
                } else {
                    Some(local - offset.signed_seconds())
                },
            }
        },
    }
}

/// The least duration that there is, in nanoseconds.
pub open spec fn least_nanos() -> int {
    i64::MIN * 1_000_000_000
}

/// The greatest duration that there is, in nanoseconds.
pub open spec fn greatest_nanos() -> int {
    i64::MAX * 1_000_000_000 + 999_999_999
}

/// A distance from 1970-01-01T00:00:00 UTC in nanoseconds, negative for a
/// time before it.
pub open spec fn distance_nanos(before_epoch: bool, secs: u64, nanos: u32) -> int {
    if before_epoch {
        -(secs * 1_000_000_000 + nanos)
    } else {
        secs * 1_000_000_000 + nanos
    }
}

/// The duration nearest to a number of nanoseconds: the number itself, or
/// the least or the greatest duration where it lies beyond them.
pub open spec fn nearest_nanos(nanos: int) -> int {
    if nanos < least_nanos() {
        least_nanos()
    } else if nanos > greatest_nanos() {
        greatest_nanos()
    } else {
        nanos
    }
}

/// Whether a duration is the one that the whole seconds and the fraction of
/// a distance from 1970-01-01T00:00:00 UTC make: the distance itself, negative
/// for a time before it, or the nearest duration that there is.
pub open spec fn made_of_distance(
    duration: SignedDuration,
    before_epoch: bool,
    secs: u64,
    nanos: u32,
) -> bool {
    &&& nanos < NANOS_PER_SECOND
    &&& duration@ == nearest_nanos(distance_nanos(before_epoch, secs, nanos))
    &&& duration.whole_seconds() == duration@ / 1_000_000_000
}

/// An exact duration, or an instant as the duration since
/// 1970-01-01T00:00:00 UTC: whole seconds, which carry the sign, and a
/// fraction of a second in nanoseconds that is never negative.
pub struct SignedDuration {
    secs: i64,
    nanos: u32,
}

impl View for SignedDuration {
    type V = int;

    /// The duration in nanoseconds.
    closed spec fn view(&self) -> int {
        self.secs * 1_000_000_000 + self.nanos
    }
}

impl SignedDuration {
    /// What holds of every duration: the fraction is less than a second.
    #[verifier::type_invariant]
    pub closed spec fn normalized(self) -> bool {
        self.nanos < NANOS_PER_SECOND
    }

    /// The whole seconds of the duration, rounded towards negative
    /// infinity.
    pub closed spec fn whole_seconds(self) -> int {
        self.secs as int
    }

    /// The seconds and the fraction of a duration make up its nanoseconds.
    pub proof fn lemma_whole_seconds(self)
        requires
            self.normalized(),
        ensures
            self.whole_seconds() == self@ / 1_000_000_000,
    {
    }

    /// The duration of `secs` seconds and `nanos` nanoseconds, where its
    /// whole seconds fit a signed 64-bit number.
    pub fn new(secs: i64, nanos: i32) -> (r: SignedDuration)
        requires
            i64::MIN <= secs + nanos as int / 1_000_000_000 <= i64::MAX,
        ensures
            r@ == secs * 1_000_000_000 + nanos,
            r.whole_seconds() == secs + nanos as int / 1_000_000_000,
    {
        let carry = floor_div(nanos as i64, 1_000_000_000);
        let rest = floor_mod(nanos as i64, 1_000_000_000);
        SignedDuration { secs: secs + carry, nanos: rest as u32 }
    }

    /// The system clock as it reads now, as the time since 1970-01-01T00:00:00
    /// UTC. What the clock reads is not known beforehand; whatever it reads,
    /// the result is made of the distance of the reading from that time.
    pub fn now() -> (r: SignedDuration)
        ensures
            exists|before_epoch: bool, secs: u64, nanos: u32| #[trigger]
                made_of_distance(r, before_epoch, secs, nanos),
    {
        let now = system_time_now();
        Self::from_system_time_since_unix(now)
    }

    /// The instant that a date-time text with an offset names: the date and
    /// the time are read at that offset from UTC, or in UTC for `Z`. `None`
    /// where the text does not follow the grammar, gives no offset, or gives
    /// an offset with a fraction of a second.
    pub fn from_iso_string(s: &str) -> (r: Option<SignedDuration>)
        ensures
            r matches Some(d) ==> seconds_of_text(s@) == Some(d.whole_seconds()) && d@
                == d.whole_seconds() * 1_000_000_000,
            r is None ==> seconds_of_text(s@) is None,
    {
        let i = match parse(s) {
            Some(parsed) => parsed,
            None => {
                return None;
            },
        };
        proof {
            lemma_parsed_valid(s@);
        }
        let offset_secs: i64 = match i.timezone_offset {
            None => {
                return None;
            },
            Some(IsoOffset::Z) => 0,
            Some(IsoOffset::Numeric(x)) => {
                if x.time.has_nanosecond() {
                    return None;
                }
                x.to_seconds() as i64
            },
        };
        let time_secs: i64 = match i.time {
            Some(x) => x.to_second() as i64,
            None => 0,
        };
        let secs = i.date.to_epoch_second() + time_secs - offset_secs;
        Some(Self::new(secs, 0))
    }

    /// The position of a reading of the system clock relative to
    /// 1970-01-01T00:00:00 UTC, as `from_unix_distance` makes it from the
    /// distance between the two. How far the reading lies from that time, and
    /// on which side, is for the clock to say.
    pub fn from_system_time_since_unix(s: SystemTime) -> (r: SignedDuration)
        ensures
            exists|before_epoch: bool, secs: u64, nanos: u32| #[trigger]
                made_of_distance(r, before_epoch, secs, nanos),
    {
        match since_unix_epoch(&s) {
            Ok(d) => Self::from_unix_distance(false, d.as_secs(), d.subsec_nanos()),
            Err(e) => {
                let d = e.duration();
                Self::from_unix_distance(true, d.as_secs(), d.subsec_nanos())
            },
        }
    }

    /// The duration made of the whole seconds and the fraction of a distance
    /// from 1970-01-01T00:00:00 UTC, negative for a time before it. The sign
    /// lies in the seconds alone: half a second before that time is one second
    /// back and half a second on. A distance beyond the least or the greatest
    /// duration counts as that duration.
    pub fn from_unix_distance(before_epoch: bool, secs: u64, nanos: u32) -> (r: SignedDuration)
        requires
            nanos < NANOS_PER_SECOND,
        ensures
            r@ == nearest_nanos(distance_nanos(before_epoch, secs, nanos)),
            r.whole_seconds() == r@ / 1_000_000_000,
            made_of_distance(r, before_epoch, secs, nanos),
    {
        if !before_epoch {
            if secs > 0x7fff_ffff_ffff_ffff {
                SignedDuration { secs: i64::MAX, nanos: 999_999_999 }
            } else {
                SignedDuration { secs: secs as i64, nanos }
            }
        } else if secs > 0x8000_0000_0000_0000 || (secs == 0x8000_0000_0000_0000 && nanos > 0) {
            SignedDuration { secs: i64::MIN, nanos: 0 }
        } else if nanos == 0 {
            if secs == 0x8000_0000_0000_0000 {
                SignedDuration { secs: i64::MIN, nanos: 0 }
            } else {
                SignedDuration { secs: -(secs as i64), nanos: 0 }
            }
        } else {
            SignedDuration { secs: -(secs as i64) - 1, nanos: NANOS_PER_SECOND - nanos }
        }
    }

    /// The duration of `secs` seconds.
    pub fn from_secs(secs: i64) -> (r: SignedDuration)
        ensures
            r@ == secs * 1_000_000_000,
            r.whole_seconds() == secs,
    {
        SignedDuration { secs, nanos: 0 }
    }

    /// The fraction of a second of the duration, in nanoseconds: what the
    /// duration has beyond its whole seconds, never negative.
    pub fn subsec_nanos(&self) -> (r: u32)
        ensures
            r == self@ % 1_000_000_000,
            r == self@ - self.whole_seconds() * 1_000_000_000,
            r < NANOS_PER_SECOND,
    {
        proof {
            use_type_invariant(self);
        }
        self.nanos
    }

    /// The whole seconds of the duration, rounded towards negative
    /// infinity.
    pub fn as_secs(&self) -> (r: i64)
        ensures
            r == self.whole_seconds(),
    {
        self.secs
    }
}

} // verus!
