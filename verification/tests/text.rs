use openab_agent::settings::{check_key, read_either, read_setting, read_token_limit};
use openab_agent::text::{
    characters, decimal_text, parse_unsigned, same_text, spell, split_last, split_text,
    strip_prefix, text_lines, trim_end_of,
};

#[test]
fn characters_are_spelled() {
    let chars = characters("aéz");
    assert_eq!(chars, vec!['a', 'é', 'z']);
    assert_eq!(spell(&chars, 1, 3), "éz");
    assert_eq!(spell(&chars, 1, 1), "");
}

#[test]
fn prefixes_are_taken_off() {
    assert_eq!(strip_prefix("data: x", "data: ").as_deref(), Some("x"));
    assert_eq!(strip_prefix("data: ", "data: ").as_deref(), Some(""));
    assert_eq!(strip_prefix("data", "data: "), None);
    assert_eq!(strip_prefix("x", "").as_deref(), Some("x"));
}

#[test]
fn texts_are_compared() {
    assert!(same_text("", ""));
    assert!(same_text("aé", "aé"));
    assert!(!same_text("aé", "ae"));
    assert!(!same_text("a", "ab"));
    assert!(!same_text("ab", "a"));
}

#[test]
fn texts_are_split() {
    assert_eq!(split_text("a.b..c", '.'), vec!["a", "b", "", "c"]);
    assert_eq!(split_text("", '.'), vec![""]);
    assert_eq!(split_text(".", '.'), vec!["", ""]);
    for text in ["", "a", "a\n", "a\r\nb", "a\n\nb\r", "\n", "\r\n", "a\r\r\n", "a\n\r"] {
        let expected: Vec<&str> = text.lines().collect();
        assert_eq!(text_lines(text), expected);
    }
}

#[test]
fn ends_are_trimmed() {
    assert_eq!(trim_end_of("a//", '/'), "a");
    assert_eq!(trim_end_of("/a", '/'), "/a");
    assert_eq!(trim_end_of("//", '/'), "");
    assert_eq!(split_last("a:b:c", ':'), Some(("a:b".to_string(), "c".to_string())));
    assert_eq!(split_last(":", ':'), Some((String::new(), String::new())));
    assert_eq!(split_last("abc", ':'), None);
}

#[test]
fn numbers_are_parsed() {
    for text in ["0", "+7", "007", "65535", "65536", "", "+", "-1", "-0", " 1", "1 ", "+-1", "x"] {
        let expected = text.parse::<u16>().ok().map(u32::from);
        assert_eq!(parse_unsigned(text, 65535), expected);
    }
    for text in ["4294967295", "4294967296", "99999999999999999999"] {
        assert_eq!(parse_unsigned(text, u32::MAX), text.parse::<u32>().ok());
    }
}

#[test]
fn numbers_round_trip() {
    for n in [0, 9, 10, 1234567890, u32::MAX] {
        assert_eq!(decimal_text(n as u64), n.to_string());
        assert_eq!(parse_unsigned(&decimal_text(n as u64), u32::MAX), Some(n));
    }
    assert_eq!(decimal_text(u64::MAX), "18446744073709551615");
}

#[test]
fn settings_fall_back() {
    let some = |s: &str| Some(s.to_string());
    assert_eq!(read_setting(some("x"), "d"), "x");
    assert_eq!(read_setting(some(""), "d"), "");
    assert_eq!(read_setting(None, "d"), "d");
    assert_eq!(read_either(some("a"), some("b")), some("a"));
    assert_eq!(read_either(None, some("b")), some("b"));
    assert_eq!(read_either(None, None), None);
    assert_eq!(read_token_limit(some("4096")), 4096);
    assert_eq!(read_token_limit(some("many")), 8192);
    assert_eq!(read_token_limit(some("4294967296")), 8192);
    assert_eq!(read_token_limit(None), 8192);
    assert_eq!(check_key(some("k"), "KEY"), Ok("k".to_string()));
    assert_eq!(check_key(some(""), "KEY"), Err("KEY is empty".to_string()));
    assert_eq!(check_key(None, "KEY"), Err("KEY not set".to_string()));
}
