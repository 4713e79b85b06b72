use fetcher_bot::text::{
    contains, decimal_text, ends_with, eq_ignore_ascii_case, parse_number, same_text,
    split_at_char, split_lines, split_words, strip_prefix, trim, zero_padded_text, NumberError,
};

const TEXTS: [&str; 14] = [
    "",
    " ",
    "a",
    "a b",
    " a\tb\n",
    "\r\n",
    "a\r\nb\rc\n",
    "\n\na",
    "aXbXX",
    "Xa",
    "é\u{a0}ü",
    "\u{2003}x\u{205f}",
    "\u{feff}x",
    "a\u{b}b\u{1c}c",
];

#[test]
fn splitting_agrees_with_the_standard_library() {
    for text in TEXTS {
        assert_eq!(split_lines(text), text.lines().collect::<Vec<_>>());
        assert_eq!(split_words(text), text.split_whitespace().collect::<Vec<_>>());
        assert_eq!(split_at_char(text, 'X'), text.split('X').collect::<Vec<_>>());
        assert_eq!(trim(text), text.trim());
    }
}

#[test]
fn white_space_is_what_unicode_says() {
    for code in 0..=0x10_ffff {
        if let Some(c) = char::from_u32(code) {
            let text = c.to_string();
            assert_eq!(trim(&text).is_empty(), c.is_whitespace());
        }
    }
}

#[test]
fn searching_agrees_with_the_standard_library() {
    for text in TEXTS {
        for part in ["", "a", "X", "XX", "b", "é", "\n", "a b c"] {
            assert_eq!(contains(text, part), text.contains(part));
            assert_eq!(ends_with(text, part), text.ends_with(part));
            assert_eq!(strip_prefix(text, part), text.strip_prefix(part));
            assert_eq!(eq_ignore_ascii_case(text, part), text.eq_ignore_ascii_case(part));
            assert_eq!(same_text(text, part), text == part);
        }
    }
    assert!(eq_ignore_ascii_case("TrUe", "tRUE"));
    assert!(!eq_ignore_ascii_case("É", "é"));
}

#[test]
fn numbers_are_written_and_read_back() {
    for n in [0, 9, 10, 99, 1_000, 65_535, u64::MAX] {
        assert_eq!(decimal_text(n), n.to_string());
        assert_eq!(parse_number(&decimal_text(n), u64::MAX), Ok(n));
        assert_eq!(zero_padded_text(n, 3), format!("{n:03}"));
        assert_eq!(zero_padded_text(n, 0), n.to_string());
        assert_eq!(parse_number(&zero_padded_text(n, 30), u64::MAX), Ok(n));
    }
}

#[test]
fn numbers_are_refused_as_the_standard_library_does() {
    assert_eq!(parse_number("", u64::MAX), Err(NumberError::Empty));
    assert_eq!(parse_number("+", u64::MAX), Err(NumberError::InvalidDigit));
    assert_eq!(parse_number("256", 255), Err(NumberError::TooLarge));
    for text in ["", "+", "-", "+-1", "++1", "1_0", "٣", "256", "2560x", "25x", "99x", "-0", "+255"] {
        match text.parse::<u8>() {
            Ok(n) => assert_eq!(parse_number(text, 255), Ok(u64::from(n))),
            Err(error) => {
                assert_eq!(parse_number(text, 255).unwrap_err().describe(), error.to_string());
            }
        }
    }
}
