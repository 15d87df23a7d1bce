use volumesetup::text::{
    chars_of, contains_text, decimal_text, has_segment, is_whitespace, parse_index, split_once,
    strip_prefix, text_eq, trim,
};

#[test]
fn trim_removes_white_space_at_both_ends_only() {
    assert_eq!(trim("  a b \n"), "a b");
    assert_eq!(trim("\t\r\n x\u{a0}\u{2003}"), "x");
    assert_eq!(trim("secret"), "secret");
    assert_eq!(trim(""), "");
    assert_eq!(trim(" \n\t "), "");
    assert_eq!(trim("\u{feff}x "), "\u{feff}x");
}

#[test]
fn trim_agrees_with_the_standard_library() {
    let samples = [
        "", " ", "a", " a", "a ", " a b ", "\u{85}a\u{85}", "\u{1680}a\u{3000}",
        "\u{2028}\u{2029}a\u{202f}\u{205f}", "\u{200b}a", "\u{180e}a", "é ", " 日本 ",
        "\u{b}\u{c}x\u{1c}", "\u{2000}\u{200a} y \u{2001}",
    ];
    for s in samples {
        assert_eq!(trim(s), s.trim(), "sample {:?}", s);
    }
}

#[test]
fn is_whitespace_agrees_with_the_standard_library() {
    for code in 0u32..0x3100 {
        if let Some(c) = char::from_u32(code) {
            assert_eq!(is_whitespace(c), c.is_whitespace(), "U+{:04X}", code);
        }
    }
}

#[test]
fn chars_of_lists_each_character() {
    assert_eq!(chars_of("aé日"), vec!['a', 'é', '日']);
    assert!(chars_of("").is_empty());
}

#[test]
fn text_eq_compares_whole_texts() {
    assert!(text_eq("disk", "disk"));
    assert!(!text_eq("disk", "disks"));
    assert!(!text_eq("disk", "dish"));
    assert!(text_eq("", ""));
}

#[test]
fn has_segment_matches_whole_parts() {
    assert!(has_segment("block:scsi:usb:pci", ':', "usb"));
    assert!(has_segment("usb", ':', "usb"));
    assert!(has_segment("a:usb", ':', "usb"));
    assert!(!has_segment("block:usbx:pci", ':', "usb"));
    assert!(!has_segment("", ':', "usb"));
    assert!(has_segment("", ':', ""));
    assert!(has_segment("a::b", ':', ""));
    assert!(has_segment("a:", ':', ""));
    assert!(!has_segment("a:b", ':', ""));
}

#[test]
fn decimal_text_writes_numerals() {
    assert_eq!(decimal_text(0), "0");
    assert_eq!(decimal_text(7), "7");
    assert_eq!(decimal_text(10), "10");
    assert_eq!(decimal_text(1203), "1203");
    assert_eq!(decimal_text(usize::MAX), usize::MAX.to_string());
}

#[test]
fn parse_index_reads_numerals() {
    assert_eq!(parse_index("0"), Some(0));
    assert_eq!(parse_index("12"), Some(12));
    assert_eq!(parse_index("+5"), Some(5));
    assert_eq!(parse_index("007"), Some(7));
    assert_eq!(parse_index(""), None);
    assert_eq!(parse_index("+"), None);
    assert_eq!(parse_index("-1"), None);
    assert_eq!(parse_index("1 "), None);
    assert_eq!(parse_index("1_0"), None);
    assert_eq!(parse_index("1a"), None);
    assert_eq!(parse_index("++1"), None);
    let max = usize::MAX.to_string();
    assert_eq!(parse_index(&max), Some(usize::MAX));
    let mut beyond = max.clone();
    beyond.push('0');
    assert_eq!(parse_index(&beyond), None);
    let mut chars: Vec<char> = max.chars().collect();
    let last = chars.len() - 1;
    chars[last] = char::from_digit(chars[last].to_digit(10).unwrap() + 1, 10).unwrap();
    let next: String = chars.into_iter().collect();
    assert_eq!(parse_index(&next), None);
}

#[test]
fn parse_index_agrees_with_the_standard_library() {
    for s in ["3", "+3", "03", "", "+", "x", "3x", " 3", "18446744073709551615", "99999999999999999999999"] {
        assert_eq!(parse_index(s), usize::from_str_radix(s, 10).ok(), "sample {:?}", s);
    }
}

#[test]
fn strip_prefix_takes_the_prefix_off() {
    assert_eq!(strip_prefix("dev-12", "dev-"), Some("12".to_string()));
    assert_eq!(strip_prefix("dev-", "dev-"), Some(String::new()));
    assert_eq!(strip_prefix("dev", "dev-"), None);
    assert_eq!(strip_prefix("xdev-1", "dev-"), None);
    assert_eq!(strip_prefix("abc", ""), Some("abc".to_string()));
}

#[test]
fn split_once_splits_at_the_first_separator() {
    assert_eq!(
        split_once("ActiveState=active", '='),
        Some(("ActiveState".to_string(), "active".to_string()))
    );
    assert_eq!(split_once("a=b=c", '='), Some(("a".to_string(), "b=c".to_string())));
    assert_eq!(split_once("=x", '='), Some((String::new(), "x".to_string())));
    assert_eq!(split_once("x=", '='), Some(("x".to_string(), String::new())));
    assert_eq!(split_once("none", '='), None);
    assert_eq!(split_once("", '='), None);
}

#[test]
fn contains_text_looks_for_an_equal_text() {
    let list = vec!["sda".to_string(), "sdb".to_string()];
    assert!(contains_text(&list, "sdb"));
    assert!(!contains_text(&list, "sd"));
    assert!(!contains_text(&vec![], "sda"));
}
