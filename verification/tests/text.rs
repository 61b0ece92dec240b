use cachix::text::{
    after_prefix, cut_at, decimal_text, drop_leading, drop_trailing, has_suffix, has_text,
    hex_text, in_order, joined, replaced, split_lines, split_words, trimmed, trimmed_start,
    white_space,
};

#[test]
fn white_space_is_that_of_char() {
    for n in 0..=0x10ffffu32 {
        if let Some(c) = char::from_u32(n) {
            assert_eq!(white_space(c), c.is_whitespace(), "{n:x}");
        }
    }
}

const SAMPLES: [&str; 14] = [
    "",
    "a",
    "a\n",
    "a\r\nb",
    "a\r",
    "\n\n",
    "\r\n",
    "a\n\r\nb\r\n\n",
    "  a  b\tc ",
    "\u{a0}x\u{3000}",
    "höst = wert",
    "https://https://x/",
    "aaaa",
    "///",
];

#[test]
fn lines_and_words_are_those_of_str() {
    for s in SAMPLES {
        let lines: Vec<String> = s.lines().map(String::from).collect();
        assert_eq!(split_lines(s), lines, "{s:?}");
        let words: Vec<String> = s.split_whitespace().map(String::from).collect();
        assert_eq!(split_words(s), words, "{s:?}");
        assert_eq!(trimmed(s), s.trim());
        assert_eq!(trimmed_start(s), s.trim_start());
    }
}

#[test]
fn patterns_are_found_as_str_finds_them() {
    for s in SAMPLES {
        for p in ["a", "aa", "https://", "/", "\r\n", "x"] {
            assert_eq!(replaced(s, p, "-"), s.replace(p, "-"));
            assert_eq!(drop_leading(s, p), s.trim_start_matches(p));
            assert_eq!(drop_trailing(s, p), s.trim_end_matches(p));
            assert_eq!(has_text(s, p), s.contains(p));
            assert_eq!(has_suffix(s, p), s.ends_with(p));
            assert_eq!(after_prefix(s, p), s.strip_prefix(p).map(String::from));
        }
        let cut = s.split_once('=').map(|(a, b)| (a.to_string(), b.to_string()));
        assert_eq!(cut_at(s, '='), cut);
    }
}

#[test]
fn numbers_and_bytes_as_text() {
    assert_eq!(decimal_text(0), "0");
    assert_eq!(decimal_text(1000), "1000");
    assert_eq!(decimal_text(u64::MAX), "18446744073709551615");
    assert_eq!(hex_text(&[0, 15, 255]), "000fff");
}

#[test]
fn joining_and_ordering() {
    let parts = ["b".to_string(), "a".to_string(), "ab".to_string()];
    assert_eq!(joined(&parts, ", "), "b, a, ab");
    assert_eq!(joined(&[], ", "), "");
    assert_eq!(in_order(&parts), ["a", "ab", "b"]);
}
