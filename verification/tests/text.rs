use strivo_plugins::number::{decimal, signed, two_digits};
use strivo_plugins::text::{
    byte_len, contains_text, find, first_bytes, first_chars, is_white, owned, same_str,
    split_words, strip_prefix, strip_suffix, trim_end_char, trimmed,
};

#[test]
fn white_space_is_unicode_white_space() {
    for n in 0..=0x10ffffu32 {
        if let Some(c) = char::from_u32(n) {
            assert_eq!(is_white(c), c.is_whitespace(), "{n:x}");
        }
    }
}

#[test]
fn words_and_trimming_agree_with_std() {
    for s in ["", " ", "a", " a  b\tc\n", "\u{3000}x\u{2028}y ", "one two  three"] {
        let want: Vec<String> = s.split_whitespace().map(|w| w.to_string()).collect();
        assert_eq!(split_words(s), want);
        assert_eq!(trimmed(s), s.trim());
    }
}

#[test]
fn searching_agrees_with_std() {
    for (s, p) in [("abcabc", "ca"), ("aaa", "aa"), ("", ""), ("x", ""), ("abc", "abcd"), ("äöü", "ö")] {
        assert_eq!(contains_text(s, p), s.contains(p), "{s} {p}");
        assert_eq!(strip_prefix(s, p), s.strip_prefix(p).map(|t| t.to_string()));
        assert_eq!(strip_suffix(s, p), s.strip_suffix(p).map(|t| t.to_string()));
    }
    let chars: Vec<char> = "a>>>b>>>".chars().collect();
    let mark: Vec<char> = ">>>".chars().collect();
    assert_eq!(find(&chars, &mark, 0), Some(1));
    assert_eq!(find(&chars, &mark, 2), Some(5));
    assert_eq!(find(&chars, &mark, 6), None);
}

#[test]
fn bytes_are_utf8_bytes() {
    for s in ["", "abc", "äöü", "日本", "a😀b"] {
        assert_eq!(byte_len(s), s.len() as u128);
    }
    let chars: Vec<char> = "aöb".chars().collect();
    assert_eq!(first_bytes(&chars, 0, 3, 3), Some("aö".to_string()));
    assert_eq!(first_bytes(&chars, 0, 3, 2), None);
    assert_eq!(first_bytes(&chars, 0, 3, 9), Some("aöb".to_string()));
    assert_eq!(first_bytes(&chars, 1, 2, 0), Some(String::new()));
}

#[test]
fn small_helpers() {
    assert!(same_str("a", "a") && !same_str("a", "b") && !same_str("a", "aa"));
    assert_eq!(first_chars("äbc", 2), "äb");
    assert_eq!(trim_end_char("http://x/v1///", '/'), "http://x/v1");
    assert_eq!(trim_end_char("///", '/'), "");
    assert_eq!(owned(&["a", "b"]), vec!["a".to_string(), "b".to_string()]);
}

#[test]
fn numbers_are_written_in_decimal() {
    for n in [0u64, 7, 10, 99, 100, 12345, u64::MAX] {
        assert_eq!(decimal(n), n.to_string());
    }
    for n in [0i64, -1, 42, i64::MIN, i64::MAX] {
        assert_eq!(signed(n), n.to_string());
    }
    assert_eq!(two_digits(5), "05");
    assert_eq!(two_digits(42), "42");
}
