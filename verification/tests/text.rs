use satur8::text::{
    i32_to_decimal, is_all_digits, join_strings, parse_u32_str, str_lt, strip_prefix_str,
    to_ascii_lowercase, trim_end_matches_str, trim_str, u64_to_decimal,
};

#[test]
fn decimal_spellings() {
    assert_eq!(u64_to_decimal(0), "0");
    assert_eq!(u64_to_decimal(u64::MAX), u64::MAX.to_string());
    assert_eq!(i32_to_decimal(i32::MIN), i32::MIN.to_string());
    assert_eq!(i32_to_decimal(-7), "-7");
}

#[test]
fn parse_u32_matches_std() {
    for s in ["0", "42", "+42", "-1", "", "+", "4294967295", "4294967296", "00012", " 1", "1a"] {
        assert_eq!(parse_u32_str(s), s.parse::<u32>().ok(), "{s:?}");
    }
}

#[test]
fn trimming_and_prefixes() {
    for s in ["  a b \t\n", "", "   ", "\u{3000}x\u{85}", "x"] {
        assert_eq!(trim_str(s), s.trim(), "{s:?}");
    }
    for (s, p) in [("a.exe.exe", ".exe"), ("a.ex", ".exe"), ("", ".exe"), ("abab", "ab"), ("x", "")] {
        assert_eq!(trim_end_matches_str(s, p), s.trim_end_matches(p), "{s:?} {p:?}");
    }
    assert_eq!(strip_prefix_str("SteamAppId=7", "SteamAppId="), Some("7".to_string()));
    assert_eq!(strip_prefix_str("Steam", "SteamAppId="), None);
    assert_eq!(to_ascii_lowercase("CS2.Exe-É"), "cs2.exe-É");
}

#[test]
fn order_and_digits() {
    for (a, b) in [("a", "b"), ("10", "9"), ("", "a"), ("ab", "a"), ("Z", "a"), ("é", "z"), ("x", "x")] {
        assert_eq!(str_lt(a, b), a < b, "{a:?} < {b:?}");
    }
    assert!(is_all_digits("0123"));
    assert!(is_all_digits(""));
    assert!(!is_all_digits("12a"));
    assert_eq!(join_strings(&vec!["a".to_string(), "b".to_string()], "; "), "a; b");
}
