use mobility_map::text::{
    decimal_pad2_string, decimal_string, parse_i32, parse_u32, parse_usize,
    signed_decimal_string, split_on, str_equal,
};

#[test]
fn split_matches_std() {
    for (s, sep) in [("a:b:c", ':'), ("", ':'), (":", ':'), ("abc", ':'), ("a::b:", ':'), ("ä,ö", ',')] {
        let expected: Vec<String> = s.split(sep).map(|p| p.to_string()).collect();
        assert_eq!(split_on(s, sep), expected);
    }
}

#[test]
fn numbers_parse_like_std() {
    for s in ["0", "42", "+42", "-42", "", "+", "-", "4294967295", "4294967296", "007", " 1", "1 ", "1a", "-0", "2147483647", "2147483648", "-2147483648", "-2147483649", "99999999999999999999"] {
        assert_eq!(parse_u32(s), s.parse::<u32>().ok(), "u32 {:?}", s);
        assert_eq!(parse_i32(s), s.parse::<i32>().ok(), "i32 {:?}", s);
        assert_eq!(parse_usize(s), s.parse::<usize>().ok(), "usize {:?}", s);
    }
}

#[test]
fn decimals_format_like_std() {
    for n in [0u64, 5, 9, 10, 99, 100, 12345, u64::MAX] {
        assert_eq!(decimal_string(n), format!("{}", n));
        assert_eq!(decimal_pad2_string(n), format!("{:02}", n));
    }
    for n in [0i64, -1, 7, -2147483648, i64::MIN, i64::MAX] {
        assert_eq!(signed_decimal_string(n), format!("{}", n));
    }
}

#[test]
fn string_equality() {
    assert!(str_equal("abc", "abc"));
    assert!(!str_equal("abc", "abd"));
    assert!(!str_equal("abc", "ab"));
    assert!(str_equal("", ""));
}
