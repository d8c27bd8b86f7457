use apt_transport_kyc::text::{
    decode_chars, first_word, from_chars, index_of, is_white_space, parse_number, push_decimal,
    same_text, starts_with, to_chars, trim, trim_end, trim_end_of, trim_start,
};

fn chars(s: &str) -> Vec<char> {
    s.chars().collect()
}

#[test]
fn white_space_is_that_of_unicode() {
    for n in 0..=0x10ffffu32 {
        if let Some(c) = char::from_u32(n) {
            assert_eq!(is_white_space(c), c.is_whitespace(), "{n:x}");
        }
    }
}

#[test]
fn trimming() {
    for s in ["", " ", "a", " a b\u{2003}", "\t\r\n x\u{a0}", "\u{85}é "] {
        let c = chars(s);
        assert_eq!(from_chars(trim(&c)), s.trim());
        assert_eq!(from_chars(trim_start(&c)), s.trim_start());
        assert_eq!(from_chars(trim_end(&c)), s.trim_end());
    }
}

#[test]
fn first_words() {
    for s in ["600 URI Acquire", "", "   ", " x y", "one"] {
        let expected = s.split_whitespace().next().unwrap_or("");
        assert_eq!(from_chars(first_word(&chars(s))), expected);
    }
}

#[test]
fn numbers() {
    for s in [
        "0", "600", "+600", "0600", "65535", "65536", "", "+", "-1", "6a", "++1", "1 ", "99999999999999999999",
        "\u{661}",
    ] {
        assert_eq!(parse_number(&chars(s)), s.parse::<u16>().ok(), "{s}");
    }
}

#[test]
fn decimals() {
    for n in [0, 9, 10, 99, 100, 600, 1234567890, u64::MAX] {
        let mut s = "x".to_string();
        push_decimal(&mut s, n);
        assert_eq!(s, format!("x{n}"));
    }
}

#[test]
fn decimals_read_back() {
    for n in 0..=u16::MAX {
        let mut s = String::new();
        push_decimal(&mut s, n as u64);
        assert_eq!(parse_number(&chars(&s)), Some(n));
    }
}

#[test]
fn characters_and_bytes() {
    let s = "a\u{e9}\u{2014}\u{1f600}";
    assert_eq!(to_chars(s), chars(s));
    assert_eq!(decode_chars(s.as_bytes()), Some(chars(s)));
    assert_eq!(decode_chars(b"a\xff"), None);
    assert_eq!(decode_chars(b"\xed\xa0\x80"), None);
    assert_eq!(decode_chars(b""), Some(vec![]));
}

#[test]
fn searching() {
    assert_eq!(index_of(&chars("ab:c:"), ':'), 2);
    assert_eq!(index_of(&chars("abc"), ':'), 3);
    assert_eq!(from_chars(trim_end_of(&chars("https://h//"), '/')), "https://h");
    assert_eq!(from_chars(trim_end_of(&chars("//"), '/')), "");
    assert!(starts_with(&chars("kyc://x"), "kyc://"));
    assert!(!starts_with(&chars("kyc"), "kyc://"));
    assert!(starts_with(&chars(""), ""));
    assert!(same_text("a", "a"));
    assert!(!same_text("a", "ab"));
}
