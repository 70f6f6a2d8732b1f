use piotr::text::{
    chars_of, contains_text, decimal_of, is_text, join, same_text, slice_of, split_paragraphs,
    starts_with, string_of, trim, trim_end_chars, trim_start_chars, white_space,
};

#[test]
fn white_space_is_that_of_unicode() {
    for n in 0..=0x10ffffu32 {
        if let Some(c) = char::from_u32(n) {
            assert_eq!(white_space(c), c.is_whitespace());
        }
    }
}

#[test]
fn trimming_takes_both_ends() {
    for s in ["", " ", "a", " a", "a\u{a0}", "\n a b \t", "\u{200b}x", "\u{3000}x\u{2028}"] {
        assert_eq!(trim(s), s.trim());
        assert_eq!(string_of(&trim_start_chars(&chars_of(s))), s.trim_start());
        assert_eq!(string_of(&trim_end_chars(&chars_of(s))), s.trim_end());
    }
}

#[test]
fn searching_finds_what_is_there() {
    let texts = ["", "a", "ab", "aab", "xaaby", "\n# h", "é"];
    for s in texts {
        for p in texts {
            assert_eq!(contains_text(s, p), s.contains(p));
            assert_eq!(starts_with(s, p), s.starts_with(p));
            assert_eq!(same_text(s, p), s == p);
            assert_eq!(is_text(&Some(s.to_string()), p), s == p);
            assert!(!is_text(&None, p));
        }
    }
}

#[test]
fn joining_and_splitting() {
    let words = vec!["a".to_string(), "".to_string(), "b".to_string()];
    assert_eq!(join(&words, ", "), "a, , b");
    assert_eq!(join(&vec![], ", "), "");
    assert_eq!(join(&vec!["x".to_string()], ", "), "x");
    for s in ["", "a", "a\n\nb", "\n\n", "\n\n\n", "a\n\n\nb\n", "a\nb\n\n\n\nc"] {
        let got: Vec<String> = split_paragraphs(s).iter().map(|p| string_of(p)).collect();
        let expected: Vec<&str> = s.split("\n\n").collect();
        assert_eq!(got, expected);
    }
    assert_eq!(slice_of(&chars_of("hello"), 1, 3), vec!['e', 'l']);
}

#[test]
fn numbers_are_written_in_decimal() {
    for n in [0, 1, 9, 10, 99, 100, 1_000_000, u64::MAX] {
        assert_eq!(decimal_of(n), n.to_string());
    }
}
