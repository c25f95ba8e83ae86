use mediary_plugins::names::NameSet;
use mediary_plugins::text;

#[test]
fn white_space_is_what_char_calls_whitespace() {
    for code in 0..=0x10ffffu32 {
        if let Some(c) = char::from_u32(code) {
            assert_eq!(text::is_white_space(c), c.is_whitespace(), "{:?}", c);
        }
    }
}

#[test]
fn trims_as_str_does() {
    for s in ["", " ", "a", " a ", "\u{3000}剧集\u{a0}\n", "a b", "\t\r\n", "　a　b　"] {
        assert_eq!(text::trim(s), s.trim());
        assert_eq!(text::trim(text::trim(s)), text::trim(s));
    }
    assert_eq!(text::trim_end_matches("http://x//", '/'), "http://x");
    assert_eq!(text::trim_end_matches("///", '/'), "");
    assert_eq!(text::trim_start_matches("//api/x", '/'), "api/x");
    assert_eq!(text::trim_start_matches("api/", '/'), "api/");
}

#[test]
fn searches_and_replaces_as_str_does() {
    assert!(text::starts_with("sha256:abc", "sha256:"));
    assert!(!text::starts_with("sha256", "sha256:"));
    assert!(text::starts_with("剧集", ""));
    for (s, from, to) in [("aaa", "aa", "b"), ("abcabc", "bc", ""), ("剧a剧", "剧", "集集"), ("x", "xy", "z"), ("", "a", "b")] {
        assert_eq!(text::replace(s, from, to), s.replace(from, to));
    }
    assert_eq!(text::without("1,234，5", ',', '，'), "12345");
    assert_eq!(text::to_ascii_lowercase("TvÄ剧"), "tvÄ剧".to_string());
    assert!(text::same("剧", "剧"));
    assert!(!text::same("剧", "集"));
}

#[test]
fn splits_and_joins() {
    assert_eq!(text::split("", ','), vec![""]);
    assert_eq!(text::split("a,,b,", ','), vec!["a", "", "b", ""]);
    let parts = text::split("甲,乙,丙", ',');
    assert_eq!(text::join(&parts, "、"), "甲、乙、丙");
    assert_eq!(text::join(&Vec::new(), "、"), "");
    assert_eq!(text::join(&vec!["x".to_string()], "、"), "x");
}

#[test]
fn writes_and_reads_decimals_as_std_does() {
    for n in [0u64, 7, 10, 99, 100, 2027, u64::MAX] {
        assert_eq!(text::decimal_u64(n), n.to_string());
    }
    for n in [0i64, -1, 42, i64::MIN, i64::MAX] {
        assert_eq!(text::decimal_i64(n), n.to_string());
    }
    for s in ["", "+", "-", "0", "-0", "+5", "-5", "007", "12a", "１２", "9223372036854775807", "9223372036854775808", "-9223372036854775808", "-9223372036854775809", "2147483648", "-2147483648", "4294967295", "4294967296", "99999999999999999999999"] {
        assert_eq!(text::parse_i64(s), s.parse::<i64>().ok(), "{}", s);
        assert_eq!(text::parse_i32(s), s.parse::<i32>().ok(), "{}", s);
        assert_eq!(text::parse_u32(s), s.parse::<u32>().ok(), "{}", s);
    }
}

#[test]
fn name_sets_list_each_name_once_in_order() {
    let set = NameSet::new().with("b").with("a").with("b");
    assert_eq!(set.len(), 2);
    assert!(!set.is_empty());
    assert!(set.contains("a"));
    assert!(!set.contains("c"));
    assert_eq!(set.list(), &vec!["b".to_string(), "a".to_string()]);
    assert_eq!(set.duplicate().list(), set.list());
    assert!(NameSet::new().is_empty());
}
