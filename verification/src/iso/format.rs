//! Dates as texts, and the way back: a date that is written out reads as
//! itself.

use crate::civil::CivilDate;
use crate::iso::grammar::{
    annotations_at, date_at_start, digits_at, lemma_parsed_valid, number_at, text_parsed,
    ParsedText,
};
use crate::iso::IsoDate;
use crate::text::{digit_char, digit_value, is_digit, push_digit, push_two_digits, two_digit_text};
use vstd::prelude::*;
use vstd::string::StringExecFns;

verus! {

/// A number below 10000 in four decimal digits.
pub open spec fn four_digit_text(n: int) -> Seq<char> {
    seq![
        digit_char(n / 1000),
        digit_char((n / 100) % 10),
        digit_char((n / 10) % 10),
        digit_char(n % 10),
    ]
}

/// The year of a date as a text: four digits for the years 0 to 9999, and
/// a sign and six digits for any other representable year.
pub open spec fn year_text(year: int) -> Seq<char> {
    if 0 <= year <= 9999 {
        four_digit_text(year)
    } else if year < 0 {
        seq!['-'] + two_digit_text((-year) / 10000) + four_digit_text((-year) % 10000)
    } else {
        seq!['+'] + two_digit_text(year / 10000) + four_digit_text(year % 10000)
    }
}

/// A date as a text: the year, the month and the day of the month, with a
/// hyphen between them.
pub open spec fn date_text(date: CivilDate) -> Seq<char> {
    year_text(date.year) + seq!['-'] + two_digit_text(date.month) + seq!['-'] + two_digit_text(
        date.day,
    )
}

/// A text that holds a date and nothing else.
pub open spec fn only_date(date: CivilDate) -> ParsedText {
    ParsedText { date, time: None, timezone_offset: None, timezone_name: None, calendar: None }
}

/// The digit of a number below ten is a digit, and stands for that number.
pub proof fn lemma_digit_char(d: int)
    requires
        0 <= d <= 9,
    ensures
        is_digit(digit_char(d)),
        digit_value(digit_char(d)) == d,
{
}

/// Four digits that spell a number below 10000 read as that number.
proof fn lemma_four_digits_read(t: Seq<char>, at: int, n: int)
    requires
        0 <= n <= 9999,
        0 <= at,
        at + 4 <= t.len(),
        t[at] == digit_char(n / 1000),
        t[at + 1] == digit_char((n / 100) % 10),
        t[at + 2] == digit_char((n / 10) % 10),
        t[at + 3] == digit_char(n % 10),
    ensures
        digits_at(t, at, 4),
        number_at(t, at, 4) == n,
{
    lemma_digit_char(n / 1000);
    lemma_digit_char((n / 100) % 10);
    lemma_digit_char((n / 10) % 10);
    lemma_digit_char(n % 10);
    reveal_with_fuel(digits_at, 5);
    reveal_with_fuel(number_at, 5);
}

/// Two digits that spell a number below 100 read as that number.
proof fn lemma_two_digits_read(t: Seq<char>, at: int, n: int)
    requires
        0 <= n <= 99,
        0 <= at,
        at + 2 <= t.len(),
        t[at] == digit_char(n / 10),
        t[at + 1] == digit_char(n % 10),
    ensures
        digits_at(t, at, 2),
        number_at(t, at, 2) == n,
{
    lemma_digit_char(n / 10);
    lemma_digit_char(n % 10);
    reveal_with_fuel(digits_at, 3);
    reveal_with_fuel(number_at, 3);
}

/// A date of a year from 0 to 9999 that is written out reads as that date,
/// and as nothing more.
pub proof fn lemma_date_text_parses(date: CivilDate)
    requires
        date.is_calendar_day(),
        0 <= date.year <= 9999,
    ensures
        date_text(date).len() == 10,
        text_parsed(date_text(date)) == Some(only_date(date)),
{
    let t = date_text(date);
    assert(t.len() == 10);
    assert(t[4] == '-' && t[7] == '-');
    lemma_four_digits_read(t, 0, date.year);
    lemma_two_digits_read(t, 5, date.month);
    lemma_two_digits_read(t, 8, date.day);
    assert(date_at_start(t) == Some(date));
    assert(annotations_at(t, 10, only_date(date)) == Some(only_date(date)));
}

/// The date of a text that follows the grammar, written out, is a text that
/// follows the grammar and holds the same date.
pub proof fn lemma_parse_format_round_trip(s: Seq<char>)
    requires
        text_parsed(s) is Some,
    ensures
        text_parsed(date_text(text_parsed(s)->0.date)) == Some(only_date(text_parsed(s)->0.date)),
{
    lemma_parsed_valid(s);
    lemma_date_text_parses(text_parsed(s)->0.date);
}

/// Appends a number below 10000 in four decimal digits.
fn push_four_digits(text: &mut String, n: u16)
    requires
        n <= 9999,
    ensures
        final(text)@ == old(text)@ + four_digit_text(n as int),
{
    push_digit(text, (n / 1000) as u8);
    push_digit(text, ((n / 100) % 10) as u8);
    push_digit(text, ((n / 10) % 10) as u8);
    push_digit(text, (n % 10) as u8);
}

impl IsoDate {
    /// The date as a text `YYYY-MM-DD`; a year outside 0 to 9999 is written
    /// with a sign and six digits.
    pub fn to_iso_string(&self) -> (r: String)
        ensures
            r@ == date_text(self@),
    {
        let year = self.year();
        let mut text = String::new();
        if 0 <= year && year <= 9999 {
            push_four_digits(&mut text, year as u16);
        } else {
            let size = if year < 0 {
                text.append("-");
                -year
            } else {
                text.append("+");
                year
            };
            proof {
                reveal_strlit("-");
                reveal_strlit("+");
            }
            push_two_digits(&mut text, (size / 10000) as u8);
            push_four_digits(&mut text, (size % 10000) as u16);
        }
        proof {
            reveal_strlit("-");
        }
        text.append("-");
        push_two_digits(&mut text, self.month());
        text.append("-");
        push_two_digits(&mut text, self.day() as u8);
        text
    }
}

} // verus!
