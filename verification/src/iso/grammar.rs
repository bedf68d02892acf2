//! The grammar of the date-time texts, as functions on sequences of
//! characters.
//!
//! A text is a date `YYYY-MM-DD`, then, if it goes on with `T`, a time
//! `HH[:MM[:SS[.fraction]]]`, then any number of annotations in any order:
//! `Z`, a numeric offset (a sign and a time whose colons may be left out),
//! and bracketed texts, of which one that starts with `u-ca=` names the
//! calendar and any other the time zone. Of several annotations of one kind
//! the last one counts.

use crate::civil::CivilDate;
use crate::iso::{IsoNumericOffset, IsoOffset, IsoParsed, IsoTime};
use crate::text::{digit_value, is_digit};
use vstd::prelude::*;

verus! {

/// Whether `count` digits stand at `at`.
pub open spec fn digits_at(s: Seq<char>, at: int, count: int) -> bool
    decreases count,
{
    count <= 0 || (digits_at(s, at, count - 1) && 0 <= at + count - 1 < s.len() && is_digit(
        s[at + count - 1],
    ))
}

/// The decimal number that the `count` characters at `at` spell.
pub open spec fn number_at(s: Seq<char>, at: int, count: int) -> int
    decreases count,
{
    if count <= 0 {
        0
    } else {
        number_at(s, at, count - 1) * 10 + digit_value(s[at + count - 1])
    }
}

/// Whether two digits stand at `at`.
pub open spec fn two_digits_at(s: Seq<char>, at: int) -> bool {
    0 <= at && at + 2 <= s.len() && is_digit(s[at]) && is_digit(s[at + 1])
}

/// The number that the two digits at `at` spell.
pub open spec fn two_digit_value(s: Seq<char>, at: int) -> int {
    digit_value(s[at]) * 10 + digit_value(s[at + 1])
}

/// The sign that a character stands for: `Some(true)` for the hyphen-minus
/// and the minus sign U+2212, `Some(false)` for the plus sign.
pub open spec fn sign_of(c: char) -> Option<bool> {
    if c == '-' || c == '\u{2212}' {
        Some(true)
    } else if c == '+' {
        Some(false)
    } else {
        None
    }
}

/// The date that a text starts with: four digits, a hyphen, two digits, a
/// hyphen and two digits that name a calendar day. It takes up ten
/// characters.
pub open spec fn date_at_start(s: Seq<char>) -> Option<CivilDate> {
    let date = CivilDate {
        year: number_at(s, 0, 4),
        month: number_at(s, 5, 2),
        day: number_at(s, 8, 2),
    };
    if s.len() >= 10 && digits_at(s, 0, 4) && s[4] == '-' && digits_at(s, 5, 2) && s[7] == '-'
        && digits_at(s, 8, 2) && date.is_calendar_day() {
        Some(date)
    } else {
        None
    }
}

/// Where the next group of two digits starts, if the text goes on with one
/// at `at`: behind a colon, or, where colons may be left out, at a digit.
pub open spec fn next_group(s: Seq<char>, at: int, colon_optional: bool) -> Option<int> {
    if 0 <= at < s.len() && s[at] == ':' {
        Some(at + 1)
    } else if colon_optional && 0 <= at < s.len() && is_digit(s[at]) {
        Some(at)
    } else {
        None
    }
}

/// The groups of two digits that stand at `at`, and where they end. There
/// is none where the text goes on with a group that is cut short.
pub open spec fn groups_at(s: Seq<char>, at: int, colon_optional: bool) -> Option<
    (Seq<u8>, int),
>
    decreases s.len() - at,
{
    if !two_digits_at(s, at) {
        None
    } else {
        let first = two_digit_value(s, at) as u8;
        match next_group(s, at + 2, colon_optional) {
            None => Some((seq![first], at + 2)),
            Some(next) => match groups_at(s, next, colon_optional) {
                None => None,
                Some((rest, end)) => Some((seq![first] + rest, end)),
            },
        }
    }
}

/// The groups of two digits that follow a group that ends at `at`, and
/// where they end.
pub open spec fn further_groups(s: Seq<char>, at: int, colon_optional: bool) -> Option<
    (Seq<u8>, int),
> {
    match next_group(s, at, colon_optional) {
        None => Some((Seq::empty(), at)),
        Some(next) => groups_at(s, next, colon_optional),
    }
}

/// How many digits stand at `at`, counted up to `limit`.
pub open spec fn digit_run(s: Seq<char>, at: int, limit: int) -> int
    decreases limit,
{
    if limit <= 0 || !(0 <= at < s.len()) || !is_digit(s[at]) {
        0
    } else {
        1 + digit_run(s, at + 1, limit - 1)
    }
}

/// The digit at place `place` of a run of `run` digits at `at`, and zero
/// behind the run.
pub open spec fn run_digit(s: Seq<char>, at: int, run: int, place: int) -> int {
    if place < run {
        digit_value(s[at + place])
    } else {
        0
    }
}

/// The number that up to three digits at `at` spell when they are read as
/// the first of three: `5` stands for 500.
pub open spec fn three_digit_value(s: Seq<char>, at: int) -> int {
    let run = digit_run(s, at, 3);
    run_digit(s, at, run, 0) * 100 + run_digit(s, at, run, 1) * 10 + run_digit(s, at, run, 2)
}

/// The time that stands at `at`, and where it ends: one to three groups of
/// two digits for the hour, the minute and the second, and behind a second a
/// point and up to nine digits. There is none where a group is cut short,
/// where more than three groups stand there, or where the hour is above 23 or
/// the minute or the second above 59.
pub open spec fn time_at(s: Seq<char>, at: int, colon_optional: bool) -> Option<(IsoTime, int)> {
    match groups_at(s, at, colon_optional) {
        None => None,
        Some((groups, end)) => {
            if groups.len() > 3 {
                None
            } else {
                let has_fraction = groups.len() == 3 && 0 <= end < s.len() && s[end] == '.';
                let milli_at = end + 1;
                let micro_at = milli_at + digit_run(s, milli_at, 3);
                let nano_at = micro_at + digit_run(s, micro_at, 3);
                let time = IsoTime {
                    hour: groups[0],
                    minute: if groups.len() >= 2 {
                        groups[1]
                    } else {
                        0
                    },
                    second: if groups.len() >= 3 {
                        groups[2]
                    } else {
                        0
                    },
                    millisecond: if has_fraction {
                        three_digit_value(s, milli_at) as u16
                    } else {
                        0
                    },
                    microsecond: if has_fraction {
                        three_digit_value(s, micro_at) as u16
                    } else {
                        0
                    },
                    nanosecond: if has_fraction {
                        three_digit_value(s, nano_at) as u16
                    } else {
                        0
                    },
                };
                if !time.is_valid() {
                    None
                } else if has_fraction {
                    Some((time, nano_at + digit_run(s, nano_at, 3)))
                } else {
                    Some((time, end))
                }
            }
        },
    }
}

/// The place of the first closing bracket at or behind `from`.
pub open spec fn closing_bracket(s: Seq<char>, from: int) -> Option<int>
    decreases s.len() - from,
{
    if !(0 <= from < s.len()) {
        None
    } else if s[from] == ']' {
        Some(from)
    } else {
        closing_bracket(s, from + 1)
    }
}

/// The numeric offset that stands at `at`, and where it ends: a sign and a
/// time whose colons may be left out.
pub open spec fn numeric_offset_at(s: Seq<char>, at: int) -> Option<(IsoNumericOffset, int)> {
    if !(0 <= at < s.len()) {
        None
    } else {
        match (sign_of(s[at]), time_at(s, at + 1, true)) {
            (Some(is_neg), Some((time, end))) => Some((IsoNumericOffset { is_neg, time }, end)),
            _ => None,
        }
    }
}

/// The text `u-ca=`, which marks a bracketed text as the name of a calendar.
pub open spec fn calendar_key() -> Seq<char> {
    seq!['u', '-', 'c', 'a', '=']
}

/// Whether `s` starts with `prefix`.
pub open spec fn starts_with(s: Seq<char>, prefix: Seq<char>) -> bool {
    prefix.len() <= s.len() && s.subrange(0, prefix.len() as int) == prefix
}

/// What a text was read as: the date, and what the time and the
/// annotations gave.
pub struct ParsedText {
    pub date: CivilDate,
    pub time: Option<IsoTime>,
    pub timezone_offset: Option<IsoOffset>,
    pub timezone_name: Option<Seq<char>>,
    pub calendar: Option<Seq<char>>,
}

/// The bracketed text that stands at `at`, whether it names a calendar, and
/// where it ends: what stands between the opening bracket and the first
/// closing one, without the `u-ca=` that marks the name of a calendar.
pub open spec fn bracket_at(s: Seq<char>, at: int) -> Option<(Seq<char>, bool, int)> {
    if !(0 <= at < s.len()) || s[at] != '[' {
        None
    } else {
        match closing_bracket(s, at + 1) {
            None => None,
            Some(close) => {
                let content = s.subrange(at + 1, close);
                if starts_with(content, calendar_key()) {
                    Some((content.skip(5), true, close + 1))
                } else {
                    Some((content, false, close + 1))
                }
            },
        }
    }
}

/// What the annotations from `at` to the end of the text add to what has
/// been read before them. There is none where something else stands there.
pub open spec fn annotations_at(s: Seq<char>, at: int, before: ParsedText) -> Option<ParsedText>
    decreases s.len() - at,
    via annotations_at_decreases
{
    if !(0 <= at < s.len()) {
        Some(before)
    } else if s[at] == 'Z' {
        annotations_at(s, at + 1, ParsedText { timezone_offset: Some(IsoOffset::Z), ..before })
    } else if sign_of(s[at]) is Some {
        match numeric_offset_at(s, at) {
            None => None,
            Some((offset, end)) => annotations_at(
                s,
                end,
                ParsedText { timezone_offset: Some(IsoOffset::Numeric(offset)), ..before },
            ),
        }
    } else if s[at] == '[' {
        match bracket_at(s, at) {
            None => None,
            Some((content, names_calendar, end)) => annotations_at(
                s,
                end,
                if names_calendar {
                    ParsedText { calendar: Some(content), ..before }
                } else {
                    ParsedText { timezone_name: Some(content), ..before }
                },
            ),
        }
    } else {
        None
    }
}

#[via_fn]
proof fn annotations_at_decreases(s: Seq<char>, at: int, before: ParsedText) {
    if 0 <= at < s.len() {
        lemma_time_at_end(s, at + 1, true);
        lemma_closing_bracket(s, at + 1);
    }
}

/// What a whole text reads as.
pub open spec fn text_parsed(s: Seq<char>) -> Option<ParsedText> {
    match date_at_start(s) {
        None => None,
        Some(date) => {
            let start = ParsedText {
                date,
                time: None,
                timezone_offset: None,
                timezone_name: None,
                calendar: None,
            };
            if s.len() > 10 && s[10] == 'T' {
                match time_at(s, 11, false) {
                    None => None,
                    Some((time, end)) => annotations_at(
                        s,
                        end,
                        ParsedText { time: Some(time), ..start },
                    ),
                }
            } else {
                annotations_at(s, 10, start)
            }
        },
    }
}

impl View for IsoParsed {
    type V = ParsedText;

    open spec fn view(&self) -> ParsedText {
        ParsedText {
            date: self.date@,
            time: self.time,
            timezone_offset: self.timezone_offset,
            timezone_name: match self.timezone_name {
                Some(name) => Some(name@),
                None => None,
            },
            calendar: match self.calendar {
                Some(name) => Some(name@),
                None => None,
            },
        }
    }
}

impl ParsedText {
    /// Whether the time and the time of a numeric offset are valid times.
    pub open spec fn times_valid(self) -> bool {
        &&& self.time matches Some(time) ==> time.is_valid()
        &&& self.timezone_offset matches Some(IsoOffset::Numeric(offset))
            ==> offset.time.is_valid()
    }
}

/// Annotations leave the date and the time as they were, and a numeric
/// offset among them holds a valid time.
pub proof fn lemma_annotations_at(s: Seq<char>, at: int, before: ParsedText)
    requires
        before.times_valid(),
    ensures
        annotations_at(s, at, before) matches Some(parsed) ==> parsed.times_valid() && parsed.date
            == before.date && parsed.time == before.time,
    decreases s.len() - at,
{
    if 0 <= at < s.len() {
        lemma_time_at_end(s, at + 1, true);
        lemma_closing_bracket(s, at + 1);
        if s[at] == 'Z' {
            lemma_annotations_at(
                s,
                at + 1,
                ParsedText { timezone_offset: Some(IsoOffset::Z), ..before },
            );
        } else if sign_of(s[at]) is Some {
            match numeric_offset_at(s, at) {
                None => {},
                Some((offset, end)) => {
                    lemma_annotations_at(
                        s,
                        end,
                        ParsedText { timezone_offset: Some(IsoOffset::Numeric(offset)), ..before },
                    );
                },
            }
        } else if s[at] == '[' {
            match bracket_at(s, at) {
                None => {},
                Some((content, names_calendar, end)) => {
                    lemma_annotations_at(
                        s,
                        end,
                        if names_calendar {
                            ParsedText { calendar: Some(content), ..before }
                        } else {
                            ParsedText { timezone_name: Some(content), ..before }
                        },
                    );
                },
            }
        }
    }
}

/// What a text reads as holds a calendar day of a year from 0 to 9999, and
/// valid times.
pub proof fn lemma_parsed_valid(s: Seq<char>)
    ensures
        text_parsed(s) matches Some(parsed) ==> parsed.times_valid()
            && parsed.date.is_calendar_day() && 0 <= parsed.date.year <= 9999 && date_at_start(s)
            == Some(parsed.date),
{
    match date_at_start(s) {
        None => {},
        Some(date) => {
            reveal_with_fuel(power_of_ten, 5);
            lemma_digits_at(s, 0, 4, 4);
            let start = ParsedText {
                date,
                time: None,
                timezone_offset: None,
                timezone_name: None,
                calendar: None,
            };
            if s.len() > 10 && s[10] == 'T' {
                lemma_time_at_end(s, 11, false);
                match time_at(s, 11, false) {
                    None => {},
                    Some((time, end)) => {
                        lemma_annotations_at(s, end, ParsedText { time: Some(time), ..start });
                    },
                }
            } else {
                lemma_annotations_at(s, 10, start);
            }
        },
    }
}

/// A run of digits is no longer than its limit and stays inside the text.
pub proof fn lemma_digit_run(s: Seq<char>, at: int, limit: int)
    requires
        0 <= at <= s.len(),
        0 <= limit,
    ensures
        0 <= digit_run(s, at, limit) <= limit,
        at + digit_run(s, at, limit) <= s.len(),
        forall|i: int| at <= i < at + digit_run(s, at, limit) ==> is_digit(#[trigger] s[i]),
        digit_run(s, at, limit) < limit ==> !(at + digit_run(s, at, limit) < s.len()
            && is_digit(s[at + digit_run(s, at, limit)])),
    decreases limit,
{
    if limit > 0 && at < s.len() && is_digit(s[at]) {
        lemma_digit_run(s, at + 1, limit - 1);
    }
}

/// Groups of two digits take up at least two characters and end inside the
/// text, and there is at least one.
pub proof fn lemma_groups_at_end(s: Seq<char>, at: int, colon_optional: bool)
    requires
        groups_at(s, at, colon_optional) is Some,
    ensures
        0 <= at,
        at + 2 <= (groups_at(s, at, colon_optional)->0).1 <= s.len(),
        (groups_at(s, at, colon_optional)->0).0.len() >= 1,
    decreases s.len() - at,
{
    match next_group(s, at + 2, colon_optional) {
        None => {},
        Some(next) => {
            lemma_groups_at_end(s, next, colon_optional);
        },
    }
}

/// A time takes up at least two characters and ends inside the text, and
/// its fields lie in their ranges.
pub proof fn lemma_time_at_end(s: Seq<char>, at: int, colon_optional: bool)
    ensures
        time_at(s, at, colon_optional) matches Some((time, end)) ==> 0 <= at && at + 2 <= end
            <= s.len() && time.is_valid(),
{
    if time_at(s, at, colon_optional) is Some {
        lemma_groups_at_end(s, at, colon_optional);
        let end = (groups_at(s, at, colon_optional)->0).1;
        if end < s.len() {
            lemma_digit_run(s, end + 1, 3);
            let micro_at = end + 1 + digit_run(s, end + 1, 3);
            lemma_digit_run(s, micro_at, 3);
            lemma_digit_run(s, micro_at + digit_run(s, micro_at, 3), 3);
        }
    }
}

/// Where a number is spelled by digits, it is below the power of ten with
/// as many zeros, and each shorter prefix is spelled by digits too.
pub proof fn lemma_digits_at(s: Seq<char>, at: int, count: int, shorter: int)
    requires
        digits_at(s, at, count),
        0 <= shorter <= count,
    ensures
        digits_at(s, at, shorter),
        shorter < count ==> 0 <= at + shorter < s.len() && is_digit(s[at + shorter]),
        0 <= number_at(s, at, shorter) < power_of_ten(shorter),
    decreases count,
{
    if shorter < count {
        lemma_digits_at(s, at, count - 1, shorter);
    } else if count > 0 {
        lemma_digits_at(s, at, count - 1, count - 1);
    }
}

/// One followed by `n` zeros.
pub open spec fn power_of_ten(n: int) -> int
    decreases n,
{
    if n <= 0 {
        1
    } else {
        10 * power_of_ten(n - 1)
    }
}

/// A group of two digits, and the groups that follow it, are the groups
/// that start with it.
pub proof fn lemma_groups_at_unfold(s: Seq<char>, at: int, colon_optional: bool)
    ensures
        groups_at(s, at, colon_optional) == if !two_digits_at(s, at) {
            None
        } else {
            match further_groups(s, at + 2, colon_optional) {
                None => None,
                Some((rest, end)) => Some((seq![two_digit_value(s, at) as u8] + rest, end)),
            }
        },
{
}

/// The first closing bracket stands at or behind the place the search
/// started from, and no other stands in between.
pub proof fn lemma_closing_bracket(s: Seq<char>, from: int)
    ensures
        closing_bracket(s, from) matches Some(close) ==> 0 <= from <= close < s.len() && s[close]
            == ']' && forall|i: int| from <= i < close ==> #[trigger] s[i] != ']',
        closing_bracket(s, from) is None && 0 <= from ==> forall|i: int|
            from <= i < s.len() ==> #[trigger] s[i] != ']',
    decreases s.len() - from,
{
    if 0 <= from < s.len() && s[from] != ']' {
        lemma_closing_bracket(s, from + 1);
    }
}

} // verus!
