use temporal_core::text::{
    chars_of, matches_ignoring_case, push_decimal, push_digit, push_two_digits, same_text,
    substring, to_digit,
};

#[test]
fn digits() {
    assert_eq!(to_digit('0'), Some(0));
    assert_eq!(to_digit('7'), Some(7));
    assert_eq!(to_digit('9'), Some(9));
    assert_eq!(to_digit('/'), None);
    assert_eq!(to_digit(':'), None);
    assert_eq!(to_digit('a'), None);
    assert_eq!(to_digit('\u{0663}'), None);
    assert_eq!(to_digit('\u{ff11}'), None);
}

#[test]
fn characters_of_a_text() {
    assert_eq!(chars_of(""), Vec::<char>::new());
    assert_eq!(chars_of("a-b"), vec!['a', '-', 'b']);
    assert_eq!(chars_of("\u{2212}1\u{00e9}"), vec!['\u{2212}', '1', '\u{00e9}']);
}

#[test]
fn parts_of_a_text() {
    assert_eq!(substring("2022-09-01", 5, 7), "09");
    assert_eq!(substring("2022-09-01", 0, 10), "2022-09-01");
    assert_eq!(substring("2022-09-01", 4, 4), "");
    assert_eq!(substring("a\u{2212}b\u{00e9}c", 1, 4), "\u{2212}b\u{00e9}");
}

#[test]
fn texts_that_are_the_same() {
    assert!(same_text("iso8601", "iso8601"));
    assert!(same_text("", ""));
    assert!(!same_text("iso8601", "ISO8601"));
    assert!(!same_text("iso8601", "iso860"));
    assert!(!same_text("iso8601", "iso8602"));
    assert!(!same_text("", "a"));
}

#[test]
fn texts_that_are_the_same_but_for_the_case() {
    let text: Vec<char> = "aSiA/tEhRaN".chars().collect();
    assert!(matches_ignoring_case(&text, "Asia/Tehran"));
    assert!(matches_ignoring_case(&text, "ASIA/TEHRAN"));
    assert!(!matches_ignoring_case(&text, "Asia/Tehra"));
    assert!(!matches_ignoring_case(&text, "Asia_Tehran"));
    let odd: Vec<char> = "@[`{".chars().collect();
    assert!(matches_ignoring_case(&odd, "@[`{"));
    assert!(!matches_ignoring_case(&odd, "`{@["));
    let kelvin: Vec<char> = "\u{212a}".chars().collect();
    assert!(!matches_ignoring_case(&kelvin, "k"));
    let empty: Vec<char> = Vec::new();
    assert!(matches_ignoring_case(&empty, ""));
}

#[test]
fn numbers_as_digits() {
    let mut text = String::from("x");
    push_digit(&mut text, 0);
    push_digit(&mut text, 9);
    assert_eq!(text, "x09");
    push_two_digits(&mut text, 7);
    push_two_digits(&mut text, 42);
    push_two_digits(&mut text, 0);
    assert_eq!(text, "x09074200");
    let mut text = String::new();
    push_decimal(&mut text, 0);
    push_decimal(&mut text, 12);
    push_decimal(&mut text, 4_294_967_295);
    assert_eq!(text, "0124294967295");
}
