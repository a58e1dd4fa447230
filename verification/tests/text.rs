use cliser::text::{
    contains_text, decimal, is_whitespace_char, parse_i32, parse_u16, parse_u32,
    split_once_char, split_words, starts_with_text, text_eq, trim_text,
};

#[test]
fn decimal_of_numbers() {
    assert_eq!(decimal(0), "0");
    assert_eq!(decimal(7), "7");
    assert_eq!(decimal(10), "10");
    assert_eq!(decimal(65535), "65535");
    assert_eq!(decimal(u64::MAX), u64::MAX.to_string());
}

#[test]
fn decimal_round_trip() {
    for n in [0u32, 1, 9, 10, 99, 100, 4096, 65535, 4294967295] {
        assert_eq!(parse_u32(&decimal(n as u64)), Some(n));
    }
}

#[test]
fn parse_unsigned_like_std() {
    for s in ["0", "42", "+42", "007", "", "+", "-1", "4294967295", "4294967296", "12a", " 1", "١٢"] {
        assert_eq!(parse_u32(s), s.parse::<u32>().ok(), "u32 {:?}", s);
        assert_eq!(parse_u16(s), s.parse::<u16>().ok(), "u16 {:?}", s);
    }
    assert_eq!(parse_u16("65535"), Some(65535));
    assert_eq!(parse_u16("65536"), None);
}

#[test]
fn parse_i32_like_std() {
    for s in ["0", "-0", "23125", "-2147483648", "2147483647", "2147483648", "-2147483649", "-", "+", "+5", "--5", "1.5"] {
        assert_eq!(parse_i32(s), s.parse::<i32>().ok(), "i32 {:?}", s);
    }
}

#[test]
fn whitespace_like_std() {
    for c in ['\t', '\n', ' ', '\u{85}', '\u{a0}', '\u{1680}', '\u{2003}', '\u{2028}', '\u{3000}', 'a', '\u{200b}', '\u{feff}'] {
        assert_eq!(is_whitespace_char(c), c.is_whitespace(), "{:?}", c);
    }
}

#[test]
fn trim_like_std() {
    for s in ["", "  ", " a b \n", "\u{3000}x\u{2028}", "abc"] {
        assert_eq!(trim_text(s), s.trim());
    }
}

#[test]
fn split_like_std() {
    for s in ["", " ", "LIST", " SEARCH  12 \n", "a\tb\u{a0}c"] {
        let expected: Vec<String> = s.split_whitespace().map(|w| w.to_string()).collect();
        assert_eq!(split_words(s), expected);
    }
}

#[test]
fn search_functions() {
    assert!(contains_text("abc999: x", "999:"));
    assert!(!contains_text("99:9", "999:"));
    assert!(contains_text("anything", ""));
    assert!(starts_with_text("28-0000", "28"));
    assert!(!starts_with_text("2", "28"));
    assert!(text_eq("L", "L"));
    assert!(!text_eq("L", "l"));
    assert_eq!(
        split_once_char("127.0.0.1:5000", ':'),
        Some(("127.0.0.1".to_string(), "5000".to_string()))
    );
    assert_eq!(split_once_char("nohost", ':'), None);
}
