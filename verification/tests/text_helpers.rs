use tinybot::text::{parse_i64, parse_u32, str_equal, trim_str, truncate_bytes, u64_decimal, i64_decimal};

fn chars(s: &str) -> Vec<char> {
    s.chars().collect()
}

#[test]
fn trim_matches_std() {
    for s in ["  a b  ", "\t\nx\u{3000}", "", "   ", "no-space"] {
        assert_eq!(trim_str(s), s.trim());
    }
}

#[test]
fn parse_numbers_like_std() {
    for s in ["0", "42", "+7", "4294967295", "4294967296", "-1", "", "+", "1a", "007"] {
        assert_eq!(parse_u32(&chars(s)), s.parse::<u32>().ok(), "{}", s);
    }
    for s in ["0", "-42", "+7", "9223372036854775807", "-9223372036854775808", "9223372036854775808", "-", "x"] {
        assert_eq!(parse_i64(&chars(s)), s.parse::<i64>().ok(), "{}", s);
    }
}

#[test]
fn decimals() {
    assert_eq!(u64_decimal(0).into_iter().collect::<String>(), "0");
    assert_eq!(u64_decimal(18446744073709551615).into_iter().collect::<String>(), "18446744073709551615");
    assert_eq!(i64_decimal(i64::MIN).into_iter().collect::<String>(), "-9223372036854775808");
}

#[test]
fn truncation_respects_characters() {
    assert_eq!(truncate_bytes("hello", 3), Some("hel"));
    assert_eq!(truncate_bytes("hi", 3), Some("hi"));
    assert_eq!(truncate_bytes("你好", 3), Some("你"));
    assert_eq!(truncate_bytes("你好", 4), None);
    assert!(str_equal("ab", "ab"));
    assert!(!str_equal("ab", "abc"));
}
