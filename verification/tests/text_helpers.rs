use turbogithub::text::{
    contains, decimal_string, ends_with, find_char, first_line, is_whitespace, parse_u16, replace_char, split_whitespace,
    starts_with, str_eq, trim, trim_start_char, trim_start_matches,
};

#[test]
fn port_numbers_parse_like_u16_from_str() {
    assert_eq!(parse_u16("7890"), Some(7890));
    assert_eq!(parse_u16("+53"), Some(53));
    assert_eq!(parse_u16("0"), Some(0));
    assert_eq!(parse_u16("65535"), Some(65535));
    assert_eq!(parse_u16("65536"), None);
    assert_eq!(parse_u16(""), None);
    assert_eq!(parse_u16("+"), None);
    assert_eq!(parse_u16("-1"), None);
    assert_eq!(parse_u16(" 1"), None);
    for s in ["12", "00042", "+7", "999999", "1a"] {
        assert_eq!(parse_u16(s), s.parse::<u16>().ok());
    }
}

#[test]
fn white_space_matches_char_is_whitespace() {
    for c in (0u32..=0x10FFFF).filter_map(char::from_u32) {
        assert_eq!(is_whitespace(c), c.is_whitespace(), "{:?}", c);
    }
}

#[test]
fn trimming_matches_str_trim() {
    for s in ["  a b \n", "\t\r\n", "x", "", " 13626\r\n"] {
        assert_eq!(trim(s), s.trim());
    }
    assert_eq!(trim_start_matches("http://http://x", "http://"), "x");
    assert_eq!(trim_start_char("///a/b", '/'), "a/b");
    assert_eq!(replace_char("a\\b\\c", '\\', '/'), "a/b/c");
}

#[test]
fn words_and_first_line_match_std() {
    for s in ["GET / HTTP/1.1", "  a\tb  c ", "", "   ", "one"] {
        let ours = split_whitespace(s);
        let theirs: Vec<String> = s.split_whitespace().map(|w| w.to_string()).collect();
        assert_eq!(ours, theirs);
    }
    assert_eq!(first_line("GET / HTTP/1.1\r\nHost: x\r\n"), "GET / HTTP/1.1");
    assert_eq!(first_line("a\nb"), "a");
    assert_eq!(first_line("only"), "only");
    assert_eq!(first_line("\nrest"), "");
}

#[test]
fn suffix_prefix_and_substring_tests() {
    assert!(ends_with("api.github.com", "github.com"));
    assert!(!ends_with("github.com.", "github.com"));
    assert!(starts_with("https://x", "https://"));
    assert!(contains("turbogithub-core.exe   1234 Console", "turbogithub-core.exe"));
    assert!(!contains("abc", "abd"));
    assert!(str_eq("dynamic", "dynamic"));
    assert!(!str_eq("dynamic", "dynamo"));
    assert_eq!(find_char("host:443", ':'), Some(4));
    assert_eq!(find_char("host", ':'), None);
    assert_eq!(decimal_string(0), "0");
    assert_eq!(decimal_string(18446744073709551615), "18446744073709551615");
}
