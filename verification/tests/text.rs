use apphatch::text::{
    comes_before, followed_by, from_chars, hyphenate, starts_with, to_ascii_upper, to_chars, trim,
    whitespace,
};

#[test]
fn trim_removes_white_space_at_both_ends() {
    assert_eq!(trim("  My App \t\n"), "My App");
    assert_eq!(trim("My App"), "My App");
    assert_eq!(trim("a  b"), "a  b");
}

#[test]
fn trim_of_white_space_alone_is_empty() {
    assert_eq!(trim(" \t \n"), "");
    assert_eq!(trim(""), "");
    assert_eq!(trim("\u{2003}\u{a0}"), "");
}

#[test]
fn trim_agrees_with_std() {
    for s in ["", " ", "x", " x", "x ", "\u{3000}x y\u{2028}", "\r\n a \r\n"] {
        assert_eq!(trim(s), s.trim());
    }
}

#[test]
fn hyphenate_replaces_each_space() {
    assert_eq!(hyphenate("my cool app"), "my-cool-app");
    assert_eq!(hyphenate("  a"), "--a");
    assert_eq!(hyphenate("tab\there"), "tab\there");
    assert_eq!(hyphenate(""), "");
}

#[test]
fn starts_with_compares_the_prefix() {
    assert!(starts_with("~/a", "~/"));
    assert!(!starts_with("~", "~/"));
    assert!(!starts_with("/~/a", "~/"));
    assert!(starts_with("abc", ""));
    assert!(starts_with("abc", "abc"));
    assert!(!starts_with("abc", "abd"));
}

#[test]
fn comes_before_is_the_order_of_str() {
    let samples = ["", "a", "A", "ab", "b", "a-b", "_a", "é", "z", "zz", "\u{10000}", "\u{ffff}"];
    for a in samples {
        for b in samples {
            assert_eq!(comes_before(a, b), a < b);
        }
    }
}

#[test]
fn to_ascii_upper_moves_only_ascii_letters() {
    assert_eq!(to_ascii_upper('a'), 'A');
    assert_eq!(to_ascii_upper('z'), 'Z');
    assert_eq!(to_ascii_upper('m'), 'M');
    assert_eq!(to_ascii_upper('A'), 'A');
    assert_eq!(to_ascii_upper('-'), '-');
    assert_eq!(to_ascii_upper('{'), '{');
    assert_eq!(to_ascii_upper('`'), '`');
    assert_eq!(to_ascii_upper('é'), 'é');
    for c in ['a', 'q', '1', 'ß', 'ä', ' '] {
        assert_eq!(to_ascii_upper(c), c.to_ascii_uppercase());
    }
}

#[test]
fn chars_and_strings_convert_both_ways() {
    let v = to_chars("héllo");
    assert_eq!(v, vec!['h', 'é', 'l', 'l', 'o']);
    assert_eq!(from_chars(&v, 0, 5), "héllo");
    assert_eq!(from_chars(&v, 1, 3), "él");
    assert_eq!(from_chars(&v, 2, 2), "");
}

#[test]
fn followed_by_appends() {
    assert_eq!(followed_by("/opt/", "abc"), "/opt/abc");
    assert_eq!(followed_by("", ""), "");
}

#[test]
fn whitespace_is_what_std_tells() {
    for code in 0u32..=0x10ffff {
        if let Some(c) = char::from_u32(code) {
            assert_eq!(whitespace(c), c.is_whitespace(), "U+{:04X}", code);
        }
    }
}

#[test]
fn whitespace_of_common_characters() {
    assert!(whitespace(' '));
    assert!(whitespace('\t'));
    assert!(whitespace('\n'));
    assert!(whitespace('\r'));
    assert!(whitespace('\u{a0}'));
    assert!(whitespace('\u{3000}'));
    assert!(!whitespace('a'));
    assert!(!whitespace('\u{200b}'));
    assert!(!whitespace('\u{1c}'));
}
