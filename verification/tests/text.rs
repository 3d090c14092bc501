use wgzimmer::text::{
    chars_of, contains_string, parse_usize, remove_char, replace_char, trim, trim_start_matches,
    usize_to_string, white_space,
};

#[test]
fn trim_removes_unicode_white_space_on_both_ends() {
    assert_eq!(trim("  \t hello world \n"), "hello world");
    assert_eq!(trim("\u{a0}\u{3000}x\u{2028}"), "x");
    assert_eq!(trim("   "), "");
    assert_eq!(trim(""), "");
    assert_eq!(trim("a  b"), "a  b");
    for s in ["  x ", "\u{85}y\u{85}", "z", " \u{200a}", "\r\nq\r\n"] {
        assert_eq!(trim(s), s.trim());
    }
}

#[test]
fn trim_start_matches_strips_repeated_prefix() {
    assert_eq!(trim_start_matches("Ab dem 01.05.2025", "Ab dem"), " 01.05.2025");
    assert_eq!(trim_start_matches("BisBisX", "Bis"), "X");
    assert_eq!(trim_start_matches("XBis", "Bis"), "XBis");
    assert_eq!(trim_start_matches("Bi", "Bis"), "Bi");
    assert_eq!(trim_start_matches("abc", ""), "abc");
    for (s, p) in [("OrtOrt Zürich", "Ort"), ("Adresse\nX", "Adresse"), ("aaa", "aa"), ("", "a")] {
        assert_eq!(trim_start_matches(s, p), s.trim_start_matches(p));
    }
}

#[test]
fn remove_and_replace_characters() {
    assert_eq!(remove_char("Lang\nstrasse\n 1", '\n'), "Langstrasse 1");
    assert_eq!(remove_char("", '\n'), "");
    assert_eq!(replace_char("2025-01-01 12:00:00 +01:00.csv", ' ', '_'), "2025-01-01_12:00:00_+01:00.csv");
}

#[test]
fn parse_usize_follows_std() {
    for s in ["0", "42", "+7", "", "+", "-1", " 1", "1 ", "12a", "007", "18446744073709551615", "18446744073709551616", "99999999999999999999", "٣"] {
        assert_eq!(parse_usize(s), s.parse::<usize>().ok(), "input {:?}", s);
    }
}

#[test]
fn usize_to_string_is_decimal_and_reads_back() {
    for n in [0usize, 7, 10, 650, 1234567890, usize::MAX] {
        let s = usize_to_string(n);
        assert_eq!(s, n.to_string());
        assert_eq!(parse_usize(&s), Some(n));
    }
}

#[test]
fn white_space_matches_char_is_whitespace() {
    for c in ['\u{0}', ' ', '\t', '\n', '\u{b}', '\u{c}', '\r', '\u{1f}', 'a', '\u{85}', '\u{a0}', '\u{1680}', '\u{2000}', '\u{200a}', '\u{200b}', '\u{2028}', '\u{2029}', '\u{202f}', '\u{205f}', '\u{3000}', '\u{feff}'] {
        assert_eq!(white_space(c), c.is_whitespace(), "char {:?}", c);
    }
}

#[test]
fn chars_and_membership() {
    assert_eq!(chars_of("Zürich"), vec!['Z', 'ü', 'r', 'i', 'c', 'h']);
    let v = vec!["a".to_string(), "b".to_string()];
    assert!(contains_string(&v, &"b".to_string()));
    assert!(!contains_string(&v, &"c".to_string()));
}

