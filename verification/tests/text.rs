use mikaana::sanitize::{require_content, sanitize_field};
use mikaana::error::ApiError;
use mikaana::scan::{decimal, digits, find_char, matches_at, parse_i64, rfind, slice};
use mikaana::text::{
    contains_char, from_chars, is_blank, is_whitespace, push_chars, starts_with, text_le, to_chars,
};

fn chars(s: &str) -> Vec<char> {
    s.chars().collect()
}

#[test]
fn characters_go_in_and_out_of_strings() {
    for s in ["", "a", "hello", "caf\u{e9} \u{1F600}\n"] {
        assert_eq!(to_chars(s), chars(s));
        assert_eq!(from_chars(&chars(s)), s);
    }
    let mut out = "ab".to_string();
    push_chars(&mut out, &chars("hello"), 1, 4);
    assert_eq!(out, "abell");
}

#[test]
fn whitespace_is_the_unicode_property() {
    for n in 0..=0x10FFFFu32 {
        if let Some(c) = char::from_u32(n) {
            assert_eq!(is_whitespace(c), c.is_whitespace(), "U+{n:04X}");
        }
    }
}

#[test]
fn blank_is_empty_after_trimming() {
    for s in ["", " ", "\t\n\r ", "\u{a0}", "\u{3000}\u{2003}", " a ", "a", "\u{200b}", " . "] {
        assert_eq!(is_blank(s), s.trim().is_empty(), "{s:?}");
    }
}

#[test]
fn sanitised_text_is_accepted_unless_blank() {
    assert_eq!(require_content("hello".to_string()), Ok("hello".to_string()));
    assert_eq!(require_content(" x ".to_string()), Ok(" x ".to_string()));
    assert_eq!(require_content("".to_string()), Err(ApiError::BadRequest));
    assert_eq!(require_content(" \n ".to_string()), Err(ApiError::BadRequest));
}

#[test]
fn fields_are_sanitised_before_they_are_judged() {
    assert_eq!(sanitize_field("<script>x</script>Hello"), Ok("Hello".to_string()));
    assert_eq!(sanitize_field("XSS<script>attack</script>"), Ok("XSS".to_string()));
    assert_eq!(sanitize_field("<script>x</script>"), Err(ApiError::BadRequest));
    assert_eq!(sanitize_field("<!-- note -->  "), Err(ApiError::BadRequest));
    assert_eq!(sanitize_field("a < b"), Ok("a &lt; b".to_string()));
    assert_eq!(
        sanitize_field("<a href=\"https://example.org\" onclick=\"x()\">link</a>"),
        Ok("<a href=\"https://example.org\" rel=\"noopener noreferrer\">link</a>".to_string())
    );
}

#[test]
fn prefixes_and_single_characters() {
    assert!(starts_with(&chars("Bearer x"), &chars("Bearer ")));
    assert!(starts_with(&chars("abc"), &chars("")));
    assert!(starts_with(&chars("abc"), &chars("abc")));
    assert!(!starts_with(&chars("ab"), &chars("abc")));
    assert!(!starts_with(&chars("xbc"), &chars("ab")));
    assert!(contains_char(&chars("a?b"), '?'));
    assert!(!contains_char(&chars("ab"), '?'));
    assert!(!contains_char(&chars(""), '?'));
}

#[test]
fn order_of_texts_is_the_order_of_strings() {
    let samples = [
        "", "a", "ab", "b", "B", "2024-05-01 00:00:00", "2024-05-01 00:00:01", "2024-04-30 23:59:59",
        "10", "9", "\u{e9}", "z", "\u{1F600}", "\u{ffff}",
    ];
    for a in samples {
        for b in samples {
            assert_eq!(text_le(&chars(a), &chars(b)), a <= b, "{a:?} <= {b:?}");
        }
    }
}

#[test]
fn searching_in_texts() {
    let s = chars("page=1&page=22>x>");
    assert_eq!(slice(&s, 5, 6), chars("1"));
    assert_eq!(slice(&s, 0, 0), chars(""));
    assert_eq!(find_char(&s, '>'), Some(14));
    assert_eq!(find_char(&s, '#'), None);
    assert_eq!(find_char(&chars(""), '>'), None);
    assert!(matches_at(&s, &chars("page="), 0));
    assert!(matches_at(&s, &chars("page="), 7));
    assert!(!matches_at(&s, &chars("page="), 1));
    assert_eq!(rfind(&s, &chars("page=")), Some(7));
    assert_eq!(rfind(&s, &chars("x>")), Some(15));
    assert_eq!(rfind(&s, &chars("nope")), None);
    assert_eq!(rfind(&s, &chars("")), Some(17));
    assert_eq!(rfind(&chars("ab"), &chars("abc")), None);
    assert_eq!(rfind(&chars("aaa"), &chars("aa")), Some(1));
}

#[test]
fn numbers_are_read_as_std_reads_them() {
    for s in [
        "0", "7", "42", "-42", "+42", "007", "-0", "+0", "", "-", "+", "--1", "+-1", "1-", "12a", "a12",
        " 12", "12 ", "1_000", "9223372036854775807", "9223372036854775808", "-9223372036854775808",
        "-9223372036854775809", "99999999999999999999999999", "-99999999999999999999999999",
        "00000000000000000000000000000000000001", "\u{661}\u{662}", "1.5", "0x10",
    ] {
        assert_eq!(parse_i64(&chars(s)), s.parse::<i64>().ok(), "{s:?}");
    }
}

#[test]
fn numbers_are_written_as_std_writes_them() {
    for n in [0i64, 1, 9, 10, 11, 99, 100, 12345, -1, -10, -12345, i64::MAX, i64::MIN, i64::MIN + 1] {
        assert_eq!(decimal(n), chars(&n.to_string()));
    }
    for n in [0u64, 5, 10, 1234567890, u64::MAX] {
        assert_eq!(digits(n), chars(&n.to_string()));
    }
}
