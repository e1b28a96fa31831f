use temperpaw::backoff::Backoff;
use temperpaw::duration::Duration;
use temperpaw::text::{
    chars_of, contains_str, find_from_exec, i64_to_decimal, lines_of, parse_i64_exec, trim_str,
    u64_to_decimal,
};

fn lines(s: &str) -> Vec<String> {
    lines_of(&chars_of(s))
        .into_iter()
        .map(|l| l.into_iter().collect())
        .collect()
}

#[test]
fn trim_removes_unicode_whitespace() {
    assert_eq!(trim_str("\u{3000}\t a b \u{A0}\n"), "a b");
    assert_eq!(trim_str("   "), "");
    assert_eq!(trim_str(""), "");
    for s in ["  x ", "\u{2028}y\u{85}", "z"] {
        assert_eq!(trim_str(s), s.trim());
    }
}

#[test]
fn lines_split_like_str_lines() {
    for s in ["a\nb\r\nc", "a\n", "", "\n\n", "x\ry\r", "one"] {
        let expected: Vec<String> = s.lines().map(|l| l.to_string()).collect();
        assert_eq!(lines(s), expected, "{s:?}");
    }
}

#[test]
fn integers_parse_like_str_parse() {
    for s in ["0", "-0", "+7", "-", "+", "", "12a", "9223372036854775807", "9223372036854775808",
        "-9223372036854775808", "-9223372036854775809", "00042", " 1"]
    {
        let expected = s.parse::<i64>().ok();
        assert_eq!(parse_i64_exec(&chars_of(s)), expected, "{s:?}");
    }
}

#[test]
fn decimals_print_like_display() {
    for n in [0u64, 9, 10, 4014, u64::MAX] {
        assert_eq!(u64_to_decimal(n), n.to_string());
    }
    for n in [0i64, -1, 42, i64::MIN, i64::MAX] {
        assert_eq!(i64_to_decimal(n), n.to_string());
    }
}

#[test]
fn search_finds_first_occurrence() {
    let s = chars_of("abcabc");
    assert_eq!(find_from_exec(&s, &chars_of("bc"), 0), Some(1));
    assert_eq!(find_from_exec(&s, &chars_of("bc"), 2), Some(4));
    assert_eq!(find_from_exec(&s, &chars_of("bd"), 0), None);
    assert_eq!(find_from_exec(&s, &chars_of(""), 3), Some(3));
    assert!(contains_str(&s, "cab"));
}

#[test]
fn backoff_exposes_its_state() {
    let mut b = Backoff::new(Duration::from_secs(1), Duration::from_secs(4));
    assert_eq!(b.base(), Duration::from_secs(1));
    assert_eq!(b.cap(), Duration::from_secs(4));
    b.advance();
    assert_eq!(b.current(), Duration::from_secs(2));
    assert!(b.can_advance());
    let huge = Backoff::new(Duration::max_value(), Duration::from_secs(1));
    assert!(!huge.can_advance());
}

#[test]
fn decimal_form_parses_back() {
    for n in [i64::MIN, -1_700_000_000_000, -1, 0, 7, 1_700_000_000_000, i64::MAX] {
        let text = i64_to_decimal(n);
        assert_eq!(parse_i64_exec(&chars_of(&trim_str(&text))), Some(n));
    }
}
