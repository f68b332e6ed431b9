use idea_ime::text::{
    chars_eq_str, decimal_string, decode_utf16_lossy, encode_utf16, fill_utf16, is_whitespace,
    str_chars, string_from_chars, to_ascii_lower, trim_chars, wide_null,
};

#[test]
fn wide_null_ascii_and_cjk() {
    assert_eq!(wide_null("ab"), vec![97u16, 98, 0]);
    assert_eq!(wide_null("中"), vec![0x4E2Du16, 0]);
    assert_eq!(wide_null(""), vec![0u16]);
}

#[test]
fn wide_null_surrogate_pair() {
    assert_eq!(wide_null("😀"), vec![0xD83Du16, 0xDE00, 0]);
}

#[test]
fn encode_utf16_matches_std() {
    for s in ["", "hello", "输入法：中文", "a😀b", "\u{FFFF}\u{10000}\u{10FFFF}", "IdeaInputSwitch: 已暂停"] {
        let expected: Vec<u16> = s.encode_utf16().collect();
        assert_eq!(encode_utf16(s), expected);
    }
}

#[test]
fn decode_utf16_lossy_matches_std() {
    let cases: Vec<Vec<u16>> = vec![
        vec![],
        vec![0x68, 0x69],
        vec![0xD83D, 0xDE00],
        vec![0xD83D],
        vec![0xDE00, 0x41],
        vec![0xD83D, 0x41, 0xDE00],
        vec![0xD800, 0xD800, 0xDC00],
        vec![0x4E2D, 0x6587],
    ];
    for units in cases {
        assert_eq!(decode_utf16_lossy(&units), String::from_utf16_lossy(&units));
    }
}

#[test]
fn decode_replaces_unpaired_surrogates() {
    assert_eq!(decode_utf16_lossy(&[0xD83D, 0x41]), "\u{FFFD}A");
}

#[test]
fn utf16_round_trip_examples() {
    for s in ["", "C:\\Program Files\\idea64.exe", "字符别名 😀 ok"] {
        assert_eq!(decode_utf16_lossy(&encode_utf16(s)), s);
    }
}

#[test]
fn fill_utf16_truncates_and_pads() {
    let mut buffer = [7u16; 4];
    fill_utf16(&mut buffer, "abcdef");
    assert_eq!(buffer, [97, 98, 99, 100]);
    let mut buffer = [7u16; 4];
    fill_utf16(&mut buffer, "a");
    assert_eq!(buffer, [97, 0, 0, 0]);
}

#[test]
fn decimal_rendering() {
    assert_eq!(decimal_string(0), "0");
    assert_eq!(decimal_string(7), "7");
    assert_eq!(decimal_string(1234), "1234");
    assert_eq!(decimal_string(u64::MAX), u64::MAX.to_string());
}

#[test]
fn whitespace_table_matches_std() {
    for v in 0u32..=0x10FFFF {
        if let Some(c) = char::from_u32(v) {
            assert_eq!(is_whitespace(c), c.is_whitespace(), "U+{v:04X}");
        }
    }
}

#[test]
fn trim_and_lowercase() {
    let v = str_chars("  \u{3000}MicroSoft\t\n");
    assert_eq!(string_from_chars(&trim_chars(&v)), "MicroSoft");
    assert_eq!(string_from_chars(&to_ascii_lower(&str_chars("MicroSoft_Pinyin 中"))), "microsoft_pinyin 中");
    assert_eq!(string_from_chars(&trim_chars(&str_chars(" \t "))), "");
}

#[test]
fn chars_eq_str_compares_exactly() {
    assert!(chars_eq_str(&['m', 's'], "ms"));
    assert!(!chars_eq_str(&['m'], "ms"));
    assert!(!chars_eq_str(&['m', 'x'], "ms"));
    assert!(chars_eq_str(&[], ""));
}
