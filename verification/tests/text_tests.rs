use trisig::text::{chars_of, decimal, parse_usize, same_text, strip_prefix};

#[test]
fn decimal_writes_numbers() {
    assert_eq!(decimal(0), "0");
    assert_eq!(decimal(7), "7");
    assert_eq!(decimal(10), "10");
    assert_eq!(decimal(53789), "53789");
    assert_eq!(decimal(u64::MAX), "18446744073709551615");
}

#[test]
fn parse_usize_reads_unsigned_integers() {
    assert_eq!(parse_usize("0"), Some(0));
    assert_eq!(parse_usize("42"), Some(42));
    assert_eq!(parse_usize("+5"), Some(5));
    assert_eq!(parse_usize("007"), Some(7));
    assert_eq!(parse_usize(""), None);
    assert_eq!(parse_usize("+"), None);
    assert_eq!(parse_usize("-1"), None);
    assert_eq!(parse_usize("1a"), None);
    assert_eq!(parse_usize(" 1"), None);
    assert_eq!(parse_usize("++1"), None);
}

#[test]
fn parse_usize_agrees_with_std() {
    for s in ["0", "1", "+9", "12x", "", "+", "-0", "99999999999999999999999", "18446744073709551615", "4294967296"] {
        assert_eq!(parse_usize(s), s.parse::<usize>().ok(), "on {:?}", s);
    }
}

#[test]
fn parse_usize_rejects_overflow() {
    let max = usize::MAX.to_string();
    assert_eq!(parse_usize(&max), Some(usize::MAX));
    let over = format!("{}0", max);
    assert_eq!(parse_usize(&over), None);
}

#[test]
fn decimal_reads_back() {
    for n in [0u64, 1, 9, 10, 99, 100, 12345, 53888] {
        assert_eq!(parse_usize(&decimal(n)), Some(n as usize));
    }
}

#[test]
fn text_helpers() {
    assert!(same_text("abc", "abc"));
    assert!(!same_text("abc", "abd"));
    assert_eq!(strip_prefix("monitor:3", "monitor:"), Some("3"));
    assert_eq!(strip_prefix("monitor:", "monitor:"), Some(""));
    assert_eq!(strip_prefix("moni", "monitor:"), None);
    assert_eq!(strip_prefix("显示器 1", "显示器"), Some(" 1"));
    assert_eq!(chars_of("a局b"), vec!['a', '局', 'b']);
}
