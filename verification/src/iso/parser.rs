//! The reader of date-time texts. Each function reads one part of the
//! grammar from a place in the text and says where that part ends.

use crate::iso::grammar::{
    annotations_at, bracket_at, calendar_key, closing_bracket, date_at_start, digit_run, digits_at,
    further_groups, groups_at, lemma_digits_at, lemma_groups_at_end, lemma_groups_at_unfold,
    lemma_time_at_end, number_at, numeric_offset_at, power_of_ten, run_digit, sign_of, starts_with,
    text_parsed, three_digit_value, time_at, two_digit_value, two_digits_at,
};
use crate::iso::{IsoDate, IsoNumericOffset, IsoOffset, IsoParsed, IsoTime};
use crate::text::{chars_of, substring, to_digit};
use vstd::prelude::*;

verus! {

/// The sign that a character stands for: `Some(true)` for a minus.
pub fn parse_sign(c: char) -> (r: Option<bool>)
    ensures
        r == sign_of(c),
{
    if c == '-' || c == '\u{2212}' {
        Some(true)
    } else if c == '+' {
        Some(false)
    } else {
        None
    }
}

/// The place behind the character at `at`, where that character is `c`.
fn eat_char(s: &[char], at: usize, c: char) -> (r: Option<usize>)
    ensures
        r is Some <==> at < s@.len() && s@[at as int] == c,
        r matches Some(next) ==> next == at + 1,
{
    if at < s.len() && s[at] == c {
        Some(at + 1)
    } else {
        None
    }
}

/// The number that exactly `cnt` digits at `at` spell, and the place behind
/// them.
fn parse_num(s: &[char], at: usize, cnt: usize) -> (r: Option<(u32, usize)>)
    requires
        at <= s@.len(),
        cnt <= 9,
    ensures
        r is Some <==> digits_at(s@, at as int, cnt as int),
        r matches Some((n, next)) ==> n == number_at(s@, at as int, cnt as int) && next == at
            + cnt,
{
    let len = s.len();
    let mut result: u32 = 0;
    let mut read: usize = 0;
    while read < cnt
        invariant
            at <= s@.len() == len,
            read <= cnt <= 9,
            digits_at(s@, at as int, read as int),
            result == number_at(s@, at as int, read as int),
        decreases cnt - read,
    {
        if len - at <= read {
            proof {
                if digits_at(s@, at as int, cnt as int) {
                    lemma_digits_at(s@, at as int, cnt as int, read as int);
                }
            }
            return None;
        }
        match to_digit(s[at + read]) {
            None => {
                proof {
                    if digits_at(s@, at as int, cnt as int) {
                        lemma_digits_at(s@, at as int, cnt as int, read as int);
                    }
                }
                return None;
            },
            Some(d) => {
                proof {
                    lemma_digits_at(s@, at as int, read as int, read as int);
                    reveal_with_fuel(power_of_ten, 10);
                }
                result = result * 10 + d as u32;
                read = read + 1;
            },
        }
    }
    proof {
        if cnt > 0 {
            lemma_digits_at(s@, at as int, cnt as int, cnt - 1);
        }
    }
    Some((result, at + cnt))
}

/// The date that the text starts with.
fn parse_date(s: &[char]) -> (r: Option<IsoDate>)
    ensures
        r matches Some(d) ==> date_at_start(s@) == Some(d@),
        r is None ==> date_at_start(s@) is None,
{
    let (year, at) = match parse_num(s, 0, 4) {
        Some(read) => read,
        None => {
            return None;
        },
    };
    let at = match eat_char(s, at, '-') {
        Some(next) => next,
        None => {
            return None;
        },
    };
    let (month, at) = match parse_num(s, at, 2) {
        Some(read) => read,
        None => {
            return None;
        },
    };
    let at = match eat_char(s, at, '-') {
        Some(next) => next,
        None => {
            return None;
        },
    };
    let (day, at) = match parse_num(s, at, 2) {
        Some(read) => read,
        None => {
            return None;
        },
    };
    proof {
        reveal_with_fuel(power_of_ten, 5);
        lemma_digits_at(s@, 0, 4, 4);
        lemma_digits_at(s@, 5, 2, 2);
        lemma_digits_at(s@, 8, 2, 2);
    }
    IsoDate::new(year as i32, month as u8, day as u8)
}

/// The number that two digits at `at` spell, and the place behind them.
fn parse_two_digit(s: &[char], at: usize) -> (r: Option<(u8, usize)>)
    ensures
        r is Some <==> two_digits_at(s@, at as int),
        r matches Some((n, next)) ==> n == two_digit_value(s@, at as int) && next == at + 2,
{
    if at >= s.len() || s.len() - at < 2 {
        return None;
    }
    match (to_digit(s[at]), to_digit(s[at + 1])) {
        (Some(d1), Some(d2)) => Some((d1 * 10 + d2, at + 2)),
        _ => None,
    }
}

/// The groups of two digits at `at`, and the place behind them: the first
/// at once, each further one behind a colon or, where colons may be left out,
/// straight behind the one before.
fn parse_two_digit_colon(s: &[char], at: usize, colon_optional: bool) -> (r: Option<
    (Vec<u8>, usize),
>)
    ensures
        r matches Some((groups, end)) ==> groups_at(s@, at as int, colon_optional) == Some(
            (groups@, end as int),
        ),
        r is None ==> groups_at(s@, at as int, colon_optional) is None,
{
    let (first, mut cur) = match parse_two_digit(s, at) {
        Some(read) => read,
        None => {
            return None;
        },
    };
    let mut groups: Vec<u8> = Vec::new();
    groups.push(first);
    proof {
        lemma_groups_at_unfold(s@, at as int, colon_optional);
    }
    loop
        invariant
            cur <= s@.len(),
            groups_at(s@, at as int, colon_optional) == match further_groups(
                s@,
                cur as int,
                colon_optional,
            ) {
                None => None,
                Some((rest, end)) => Some((groups@ + rest, end)),
            },
        ensures
            groups_at(s@, at as int, colon_optional) == Some((groups@, cur as int)),
        decreases s@.len() - cur,
    {
        let next = if cur < s.len() && s[cur] == ':' {
            cur + 1
        } else if colon_optional && cur < s.len() && to_digit(s[cur]).is_some() {
            cur
        } else {
            break ;
        };
        proof {
            lemma_groups_at_unfold(s@, next as int, colon_optional);
        }
        match parse_two_digit(s, next) {
            None => {
                return None;
            },
            Some((group, behind)) => {
                groups.push(group);
                cur = behind;
            },
        }
    }
    Some((groups, cur))
}

/// The digit at `at`, and the place behind it; zero, and `at` itself, where
/// no digit stands there.
fn parse_fraction_digit(s: &[char], at: usize) -> (r: (u16, usize))
    requires
        at <= s@.len(),
    ensures
        r.1 == at + digit_run(s@, at as int, 1),
        r.0 == run_digit(s@, at as int, digit_run(s@, at as int, 1), 0),
        r.0 <= 9,
        r.1 <= s@.len(),
{
    reveal_with_fuel(digit_run, 2);
    if at < s.len() {
        match to_digit(s[at]) {
            Some(d) => (d as u16, at + 1),
            None => (0, at),
        }
    } else {
        (0, at)
    }
}

/// The number that up to three digits at `at` spell when they are read as
/// the first of three, and the place behind them.
fn parse3(s: &[char], at: usize) -> (r: (u16, usize))
    requires
        at <= s@.len(),
    ensures
        r.0 == three_digit_value(s@, at as int),
        r.0 <= 999,
        r.1 == at + digit_run(s@, at as int, 3),
        r.1 <= s@.len(),
{
    reveal_with_fuel(digit_run, 4);
    let (hundreds, at1) = parse_fraction_digit(s, at);
    let (tens, at2) = parse_fraction_digit(s, at1);
    let (ones, at3) = parse_fraction_digit(s, at2);
    (hundreds * 100 + tens * 10 + ones, at3)
}

/// The time at `at`, and the place behind it.
pub fn parse_time(s: &[char], at: usize, colon_optional: bool) -> (r: Option<(IsoTime, usize)>)
    ensures
        r matches Some((time, end)) ==> time_at(s@, at as int, colon_optional) == Some(
            (time, end as int),
        ) && at + 2 <= end <= s@.len() && time.is_valid(),
        r is None ==> time_at(s@, at as int, colon_optional) is None,
{
    let (groups, end) = match parse_two_digit_colon(s, at, colon_optional) {
        Some(read) => read,
        None => {
            return None;
        },
    };
    proof {
        lemma_groups_at_end(s@, at as int, colon_optional);
        lemma_time_at_end(s@, at as int, colon_optional);
    }
    if groups.len() > 3 {
        return None;
    }
    let hour = groups[0];
    let minute = if groups.len() >= 2 {
        groups[1]
    } else {
        0
    };
    let second = if groups.len() >= 3 {
        groups[2]
    } else {
        0
    };
    let has_fraction = groups.len() == 3 && end < s.len() && s[end] == '.';
    let (millisecond, microsecond, nanosecond, end) = if has_fraction {
        let (a, at1) = parse3(s, end + 1);
        let (b, at2) = parse3(s, at1);
        let (c, at3) = parse3(s, at2);
        (a, b, c, at3)
    } else {
        (0, 0, 0, end)
    };
    if hour > 23 || minute > 59 || second > 59 {
        return None;
    }
    Some((IsoTime { hour, minute, second, millisecond, microsecond, nanosecond }, end))
}

/// The numeric offset at `at`, and the place behind it.
fn parse_numeric_timezone(s: &[char], at: usize) -> (r: Option<(IsoNumericOffset, usize)>)
    ensures
        r matches Some((offset, end)) ==> numeric_offset_at(s@, at as int) == Some(
            (offset, end as int),
        ) && at < end <= s@.len(),
        r is None ==> numeric_offset_at(s@, at as int) is None,
{
    if at >= s.len() {
        return None;
    }
    let is_neg = match parse_sign(s[at]) {
        Some(sign) => sign,
        None => {
            return None;
        },
    };
    match parse_time(s, at + 1, true) {
        Some((time, end)) => Some((IsoNumericOffset { is_neg, time }, end)),
        None => None,
    }
}

/// Whether the five characters at `at` are `u-ca=`.
fn calendar_key_at(s: &[char], at: usize, end: usize) -> (r: bool)
    requires
        at <= end <= s@.len(),
    ensures
        r == starts_with(s@.subrange(at as int, end as int), calendar_key()),
{
    let found = end - at >= 5 && s[at] == 'u' && s[at + 1] == '-' && s[at + 2] == 'c' && s[at + 3]
        == 'a' && s[at + 4] == '=';
    proof {
        let content = s@.subrange(at as int, end as int);
        if end - at >= 5 {
            let head = content.subrange(0, 5);
            if found {
                assert(head =~= calendar_key());
            }
        }
    }
    found
}

/// The bracketed text at `at`, whether it names a calendar, and the place
/// behind the closing bracket.
fn parse_bracket(text: &str, s: &[char], at: usize) -> (r: Option<(String, bool, usize)>)
    requires
        text@ == s@,
    ensures
        r matches Some((content, names_calendar, end)) ==> bracket_at(s@, at as int) == Some(
            (content@, names_calendar, end as int),
        ) && at < end <= s@.len(),
        r is None ==> bracket_at(s@, at as int) is None,
{
    if at >= s.len() || s[at] != '[' {
        return None;
    }
    let mut close = at + 1;
    while close < s.len() && s[close] != ']'
        invariant
            at < close <= s@.len(),
            closing_bracket(s@, at + 1) == closing_bracket(s@, close as int),
        decreases s@.len() - close,
    {
        close = close + 1;
    }
    if close >= s.len() {
        return None;
    }
    if calendar_key_at(s, at + 1, close) {
        proof {
            assert(s@.subrange(at + 1, close as int).skip(5) =~= s@.subrange(
                at + 6,
                close as int,
            ));
        }
        Some((substring(text, at + 6, close), true, close + 1))
    } else {
        Some((substring(text, at + 1, close), false, close + 1))
    }
}

/// What the whole text reads as.
fn parse_root(text: &str, s: &[char]) -> (r: Option<IsoParsed>)
    requires
        text@ == s@,
    ensures
        r matches Some(parsed) ==> text_parsed(s@) == Some(parsed@),
        r is None ==> text_parsed(s@) is None,
{
    let date = match parse_date(s) {
        Some(date) => date,
        None => {
            return None;
        },
    };
    let mut parsed = IsoParsed {
        date,
        time: None,
        timezone_offset: None,
        timezone_name: None,
        calendar: None,
    };
    let mut at: usize = 10;
    if s.len() > 10 && s[10] == 'T' {
        match parse_time(s, 11, false) {
            Some((time, end)) => {
                parsed.time = Some(time);
                at = end;
            },
            None => {
                return None;
            },
        }
    }
    while at < s.len()
        invariant
            text@ == s@,
            text_parsed(s@) == annotations_at(s@, at as int, parsed@),
        decreases s@.len() - at,
    {
        let c = s[at];
        if c == 'Z' {
            parsed.timezone_offset = Some(IsoOffset::Z);
            at = at + 1;
        } else if parse_sign(c).is_some() {
            match parse_numeric_timezone(s, at) {
                Some((offset, end)) => {
                    parsed.timezone_offset = Some(IsoOffset::Numeric(offset));
                    at = end;
                },
                None => {
                    return None;
                },
            }
        } else if c == '[' {
            match parse_bracket(text, s, at) {
                Some((content, names_calendar, end)) => {
                    if names_calendar {
                        parsed.calendar = Some(content);
                    } else {
                        parsed.timezone_name = Some(content);
                    }
                    at = end;
                },
                None => {
                    return None;
                },
            }
        } else {
            return None;
        }
    }
    Some(parsed)
}

/// Reads a date-time text: a date `YYYY-MM-DD`, a time behind a `T`, and
/// annotations: `Z`, a numeric offset, and bracketed names of the time zone
/// and of the calendar. `None` where the text does not follow the grammar or
/// its date is no calendar day.
pub fn parse(text: &str) -> (r: Option<IsoParsed>)
    ensures
        r matches Some(parsed) ==> text_parsed(text@) == Some(parsed@),
        r is None ==> text_parsed(text@) is None,
{
    let chars = chars_of(text);
    parse_root(text, chars.as_slice())
}

} // verus!
