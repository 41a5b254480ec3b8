use usps_tracker::text::{
    chars_of, contains, decimal_text, eq_ignore_ascii_case, is_whitespace, parse_u64, parse_usize,
    replace, same_text, split, starts_with, text_between, trim,
};

#[test]
fn white_space_is_the_unicode_property() {
    for code in 0u32..=0x10ffff {
        if let Some(c) = char::from_u32(code) {
            assert_eq!(is_whitespace(c), c.is_whitespace(), "{:x}", code);
        }
    }
}

#[test]
fn trim_drops_white_space_at_both_ends() {
    for s in ["", " ", "a", " a b ", "\r\n\tx\u{3000}", "\u{a0}é\u{2028}", "a \u{200b}"] {
        assert_eq!(trim(s), s.trim());
    }
}

#[test]
fn split_gives_one_piece_more_than_marks() {
    for s in ["", ",", "a", "a,b", ",a,,b,", "é,漢字"] {
        let expected: Vec<String> = s.split(',').map(String::from).collect();
        assert_eq!(split(s, ','), expected);
    }
}

#[test]
fn contains_and_starts_with_agree_with_str() {
    for s in ["", "abc", "aab", "Tracking is not available", "漢字abc"] {
        for p in ["", "a", "ab", "abc", "abcd", "is not", "字a"] {
            assert_eq!(contains(s, p), s.contains(p), "{} {}", s, p);
            assert_eq!(starts_with(s, p), s.starts_with(p), "{} {}", s, p);
        }
    }
}

#[test]
fn replace_puts_the_text_in_place_of_each_mark() {
    assert_eq!(replace("2024-01-05T10:11:12Z", 'Z', "+00:00"), "2024-01-05T10:11:12+00:00");
    assert_eq!(replace("ZaZ", 'Z', ""), "a");
    assert_eq!(replace("", 'Z', "x"), "");
}

#[test]
fn ascii_case_is_ignored() {
    assert!(eq_ignore_ascii_case("TrUe", "true"));
    assert!(!eq_ignore_ascii_case("true ", "true"));
    assert!(!eq_ignore_ascii_case("É", "é"));
    assert!(!eq_ignore_ascii_case("[", "{"));
}

#[test]
fn decimal_text_writes_digits() {
    for n in [0u64, 7, 10, 34, 403, 1000, u64::MAX] {
        assert_eq!(decimal_text(n), n.to_string());
    }
}

#[test]
fn numbers_are_read_as_std_reads_them() {
    let max = u64::MAX.to_string();
    for s in [
        "", "+", "-", "-1", "0", "+0", "007", "12", " 12", "12 ", "1_000", "++1", "1.5", "é",
        max.as_str(), "18446744073709551616", "99999999999999999999999",
    ] {
        assert_eq!(parse_u64(s), s.parse::<u64>().ok(), "{}", s);
        assert_eq!(parse_usize(s), s.parse::<usize>().ok(), "{}", s);
    }
}

#[test]
fn characters_and_parts_of_a_text() {
    let chars = chars_of("aé漢");
    assert_eq!(chars, vec!['a', 'é', '漢']);
    assert_eq!(text_between(&chars, 1, 3), "é漢");
    assert_eq!(text_between(&chars, 2, 2), "");
    assert!(same_text("é", "é"));
    assert!(!same_text("é", "e"));
}

#[test]
fn texts_are_the_same_if_all_characters_are() {
    let samples = ["", "a", "b", "ab", "aé", "é", "e\u{301}", "漢", "漢字", "a\u{0}"];
    for a in samples {
        for b in samples {
            assert_eq!(same_text(a, b), a == b, "{:?} {:?}", a, b);
        }
    }
}
