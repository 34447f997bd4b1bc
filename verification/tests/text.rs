use perf_monitor::text::{
    chars_of, contains_chars, parse_u32, parse_unsigned_chars, push_decimal, push_signed_decimal,
    starts_with_chars, word_at, words_of,
};

fn chars(s: &str) -> Vec<char> {
    s.chars().collect()
}

fn text(v: &[char]) -> String {
    v.iter().collect()
}

#[test]
fn parse_u32_follows_std() {
    for s in ["0", "7", "+5", "007", "4294967295", "", "+", "-1", "4294967296", "12a", " 1", "++1", "１"] {
        assert_eq!(parse_u32(s), s.parse::<u32>().ok(), "input {:?}", s);
    }
}

#[test]
fn parse_u64_bounds() {
    assert_eq!(parse_unsigned_chars(&chars("18446744073709551615"), u64::MAX), Some(u64::MAX));
    assert_eq!(parse_unsigned_chars(&chars("18446744073709551616"), u64::MAX), None);
    assert_eq!(parse_unsigned_chars(&chars("99999999999999999999x"), u64::MAX), None);
    assert_eq!(parse_unsigned_chars(&chars("256"), 255), None);
    assert_eq!(parse_unsigned_chars(&chars("+255"), 255), Some(255));
}

#[test]
fn words_follow_split_whitespace() {
    for s in ["", "   ", "a", " a  bb\tccc\n", "x\u{a0}y\u{3000}z", "Size:   132 kB"] {
        let expected: Vec<String> = s.split_whitespace().map(|w| w.to_string()).collect();
        let got: Vec<String> = words_of(&chars(s)).iter().map(|w| text(w)).collect();
        assert_eq!(got, expected, "input {:?}", s);
    }
    assert_eq!(word_at(&chars("Size:   132 kB"), 1).map(|w| text(&w)), Some("132".to_string()));
    assert_eq!(word_at(&chars("Size:"), 1), None);
}

#[test]
fn substring_search() {
    let line = chars("5566e000-5566f000 rw-p 00000000 00:00 0      [heap]");
    assert!(contains_chars(&line, &chars("[heap]")));
    assert!(!contains_chars(&line, &chars("[stack]")));
    assert!(contains_chars(&line, &chars("")));
    assert!(!contains_chars(&chars("ab"), &chars("abc")));
    assert!(starts_with_chars(&chars("Size: 4 kB"), &chars("Size:")));
    assert!(!starts_with_chars(&chars(" Size: 4 kB"), &chars("Size:")));
}

#[test]
fn chars_of_keeps_every_character() {
    assert_eq!(chars_of("µs ☃"), vec!['µ', 's', ' ', '☃']);
}

#[test]
fn decimal_text_round_trip() {
    for n in [0u64, 9, 10, 4096, u32::MAX as u64, u64::MAX] {
        let mut out = vec!['x'];
        push_decimal(n, &mut out);
        assert_eq!(text(&out), format!("x{}", n));
        assert_eq!(parse_unsigned_chars(&out[1..], u64::MAX), Some(n));
    }
    for n in [0i64, -1, 42, i64::MIN, i64::MAX] {
        let mut out = Vec::new();
        push_signed_decimal(n, &mut out);
        assert_eq!(text(&out), n.to_string());
    }
}
