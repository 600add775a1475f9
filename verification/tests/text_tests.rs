use raft::text::{
    is_whitespace, parse_bool, parse_u16, parse_unsigned_max, parse_usize, push_decimal,
    split_words,
};

#[test]
fn split_words_skips_runs_of_white_space() {
    let w = split_words("  RV  node1\t7 \r\n");
    assert_eq!(w, vec!["RV".to_string(), "node1".to_string(), "7".to_string()]);
}

#[test]
fn split_words_agrees_with_split_whitespace() {
    for s in ["", "   ", "a", " a b ", "x\u{3000}y\u{85}z", "é ü\u{a0}ß", "one two  three"] {
        let expected: Vec<String> = s.split_whitespace().map(|w| w.to_string()).collect();
        assert_eq!(split_words(s), expected, "{:?}", s);
    }
}

#[test]
fn whitespace_matches_std() {
    for c in ['\t', '\n', ' ', '\u{85}', '\u{a0}', '\u{2000}', '\u{3000}', 'a', '0', '\u{200b}'] {
        assert_eq!(is_whitespace(c), c.is_whitespace(), "{:?}", c);
    }
}

#[test]
fn parse_u16_matches_std() {
    for s in ["0", "7", "+7", "007", "65535", "65536", "", "+", "-1", "-0", "1a", " 1", "99999999999999999999"] {
        assert_eq!(parse_u16(s), s.parse::<u16>().ok(), "{:?}", s);
    }
}

#[test]
fn parse_usize_matches_std() {
    for s in ["0", "3333", "+3334", "18446744073709551615", "18446744073709551616", "", "x"] {
        assert_eq!(parse_usize(s), s.parse::<usize>().ok(), "{:?}", s);
    }
}

#[test]
fn parse_unsigned_respects_its_bound() {
    assert_eq!(parse_unsigned_max("10", 10), Some(10));
    assert_eq!(parse_unsigned_max("11", 10), None);
}

#[test]
fn parse_bool_matches_std() {
    for s in ["true", "false", "True", "", "truee", "fals"] {
        assert_eq!(parse_bool(s), s.parse::<bool>().ok(), "{:?}", s);
    }
}

#[test]
fn push_decimal_writes_base_ten() {
    let mut s = String::from("t=");
    push_decimal(&mut s, 0);
    assert_eq!(s, "t=0");
    let mut s = String::new();
    push_decimal(&mut s, 1234567890);
    assert_eq!(s, "1234567890");
    let mut s = String::new();
    push_decimal(&mut s, u64::MAX);
    assert_eq!(s, u64::MAX.to_string());
}

#[test]
fn written_numbers_read_back() {
    for n in [0u64, 9, 10, 65535, 123456] {
        let mut s = String::new();
        push_decimal(&mut s, n);
        assert_eq!(parse_unsigned_max(&s, u64::MAX), Some(n));
    }
}
