use prayer::text::{
    chars_of, contains, decimal, file_name, is_all_digits, parse_unsigned, pop_char, signed_decimal, split_once, string_of,
    text_eq, to_lowercase, trim,
};

#[test]
fn trim_removes_surrounding_whitespace() {
    assert_eq!(trim("  hello world \t\n"), "hello world");
    assert_eq!(trim("   "), "");
    assert_eq!(trim("x"), "x");
}

#[test]
fn split_once_splits_at_first_separator() {
    assert_eq!(split_once("01 - Intro - Live", " - "), Some(("01".to_string(), "Intro - Live".to_string())));
    assert_eq!(split_once("no separator", " - "), None);
    assert_eq!(split_once(" - x", " - "), Some(("".to_string(), "x".to_string())));
}

#[test]
fn parse_unsigned_follows_str_parse() {
    let digits = chars_of("65535");
    assert_eq!(parse_unsigned(&digits, 65535), Some(65535));
    assert_eq!(parse_unsigned(&chars_of("65536"), 65535), None);
    assert_eq!(parse_unsigned(&chars_of("+12"), 65535), Some(12));
    assert_eq!(parse_unsigned(&chars_of("1a"), 65535), None);
    assert_eq!(parse_unsigned(&chars_of(""), 65535), None);
    assert_eq!(parse_unsigned(&chars_of("+"), 65535), None);
    assert_eq!(parse_unsigned(&chars_of("007"), 65535), Some(7));
}

#[test]
fn decimal_writes_numbers_as_to_string() {
    assert_eq!(decimal(0), "0");
    assert_eq!(decimal(1234567890), "1234567890");
    assert_eq!(decimal(u64::MAX), u64::MAX.to_string());
    assert_eq!(signed_decimal(-42), "-42");
    assert_eq!(signed_decimal(i64::MIN), i64::MIN.to_string());
}

#[test]
fn decimal_then_parse_gives_the_number_back() {
    for n in [0u64, 9, 10, 999, 65535] {
        let text = decimal(n);
        assert_eq!(parse_unsigned(&chars_of(&text), 65535), Some(n));
    }
}

#[test]
fn pop_char_drops_the_last_character() {
    let mut s = "abç".to_string();
    pop_char(&mut s);
    assert_eq!(s, "ab");
    let mut e = String::new();
    pop_char(&mut e);
    assert_eq!(e, "");
}

#[test]
fn file_name_is_the_last_path_segment() {
    assert_eq!(file_name("/music/Artist/01 - Song.m4a"), "01 - Song.m4a");
    assert_eq!(file_name("plain.mp3"), "plain.mp3");
    assert_eq!(file_name("/dir/"), "");
}

#[test]
fn contains_and_equality() {
    assert!(contains("hello world", "lo w"));
    assert!(contains("abc", ""));
    assert!(!contains("abc", "abcd"));
    assert!(text_eq("same", "same"));
    assert!(!text_eq("same", "Same"));
    assert!(is_all_digits("0123"));
    assert!(is_all_digits(""));
    assert!(!is_all_digits("12a"));
}

#[test]
fn lowercase_goes_through_std() {
    assert_eq!(to_lowercase("ÀBC"), "àbc");
    assert_eq!(string_of(&chars_of("round trip")), "round trip");
}

#[test]
fn trim_removes_unicode_white_space() {
    assert_eq!(trim("\u{3000}\u{a0}abc\u{2028}\u{85}"), "abc");
    assert_eq!(trim("\u{200b}x"), "\u{200b}x");
}

#[test]
fn lowercase_of_ascii_maps_capitals_only() {
    assert_eq!(to_lowercase("AbC-9 Z"), "abc-9 z");
    assert_eq!(to_lowercase(""), "");
}
