use pebbles::text::{
    chars_of, dec_chars, find_str, parse_uint_chars, split_chars, split_once_chars,
    split_once_str_chars, trim_char, trim_end_str, trim_start_str, trim_str, int_error_of, IntError,
};

fn s(v: &[char]) -> String {
    v.iter().collect()
}

#[test]
fn trim_matches_std_trim() {
    assert_eq!(trim_str("  \t hello world \r\n"), "hello world");
    assert_eq!(trim_str("\u{3000}x\u{a0}"), "x");
    assert_eq!(trim_str(""), "");
}

#[test]
fn trim_patterns_repeat() {
    let v = chars_of("FROM:FROM:<a@b>");
    assert_eq!(s(&trim_start_str(&v, "FROM:")), "<a@b>");
    let w = chars_of("line\r\n\r\n");
    assert_eq!(s(&trim_end_str(&w, "\r\n")), "line");
    let q = chars_of("<<x>>");
    assert_eq!(s(&trim_char(&q, '<')), "x>>");
}

#[test]
fn split_on_char_keeps_empty_pieces() {
    let v = chars_of("a^^b^");
    let parts: Vec<String> = split_chars(&v, '^').iter().map(|p| s(p)).collect();
    assert_eq!(parts, vec!["a", "", "b", ""]);
}

#[test]
fn split_once_on_char() {
    let v = chars_of("USER bob smith");
    let (head, rest) = split_once_chars(&v, ' ');
    assert_eq!(s(&head), "USER");
    assert_eq!(s(&rest.unwrap()), "bob smith");
    let w = chars_of("PWD");
    let (head, rest) = split_once_chars(&w, ' ');
    assert_eq!(s(&head), "PWD");
    assert!(rest.is_none());
}

#[test]
fn split_once_on_text() {
    let v = chars_of("attachment; filename=\"a.png\"");
    let (head, rest) = split_once_str_chars(&v, "filename=");
    assert_eq!(s(&head), "attachment; ");
    assert_eq!(s(&rest.unwrap()), "\"a.png\"");
    let (_, none) = split_once_str_chars(&v, "name:");
    assert!(none.is_none());
    assert_eq!(find_str(&chars_of("a: b: c"), &chars_of(": ")), Some(1));
}

#[test]
fn decimal_round_trip() {
    assert_eq!(s(&dec_chars(0)), "0");
    assert_eq!(s(&dec_chars(65535)), "65535");
    assert_eq!(parse_uint_chars(&chars_of("65535"), 65535), Some(65535));
    assert_eq!(parse_uint_chars(&chars_of("65536"), 65535), None);
    assert_eq!(parse_uint_chars(&chars_of("+21"), 65535), Some(21));
    assert_eq!(parse_uint_chars(&chars_of(""), 65535), None);
    assert_eq!(parse_uint_chars(&chars_of("2a"), 65535), None);
}

#[test]
fn int_errors_match_parse_int() {
    for s in ["", "+", "x1", "-1", "12a", "70000", "99999999999999999999", "+99999999999999999999"] {
        let v: Vec<char> = s.chars().collect();
        let e = int_error_of(&v);
        let std_text = s.parse::<u16>().err().unwrap().to_string();
        assert_eq!(e.message(), std_text, "for {:?}", s);
    }
    assert_eq!(int_error_of(&"".chars().collect()), IntError::Empty);
    assert_eq!(int_error_of(&"-1".chars().collect()), IntError::InvalidDigit);
}
