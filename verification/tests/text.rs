use easytier_ssh::text::{
    ascii_text, cat, decimal_text, is_white_space, join, normalize_newlines, split_words, str_eq,
    trim,
};

#[test]
fn white_space_is_that_of_unicode() {
    for code in 0..=0x10ffff {
        if let Some(c) = char::from_u32(code) {
            assert_eq!(is_white_space(c), c.is_whitespace(), "{:?}", c);
        }
    }
}

#[test]
fn words_and_trimming_agree_with_each_other() {
    for line in ["", " ", "a", " a  b\t\u{3000}c ", "x\u{a0}y", "\u{200b} z"] {
        let words: Vec<String> = line.split_whitespace().map(|w| w.to_string()).collect();
        assert_eq!(split_words(line), words);
        assert_eq!(trim(line), line.trim());
        assert_eq!(split_words(&trim(line)), words);
        assert!(split_words(line).iter().all(|w| !w.is_empty()));
    }
}

#[test]
fn texts_are_joined() {
    assert_eq!(cat("a\u{e9}", "b"), "a\u{e9}b");
    assert_eq!(join(&vec!["a".to_string(), String::new(), "b".to_string()], ", "), "a, , b");
    assert_eq!(join(&Vec::new(), ", "), "");
    assert!(str_eq("a\u{e9}", "a\u{e9}"));
    assert!(!str_eq("ab", "abc") && !str_eq("ab", "ac"));
}

#[test]
fn joined_words_are_the_words_of_the_line() {
    let words = vec!["config".to_string(), "set".to_string(), "a\u{e9}".to_string()];
    assert_eq!(split_words(&join(&words, " ")), words);
    assert!(split_words(&join(&Vec::new(), " ")).is_empty());
}

#[test]
fn numbers_are_written_in_decimal() {
    for n in [0u64, 7, 10, 99, 100, 12345, u64::MAX] {
        assert_eq!(decimal_text(n), format!("{n}"));
    }
}

#[test]
fn newlines_are_those_of_a_terminal() {
    assert_eq!(normalize_newlines("a\nb\r\nc\rd\n\n"), "a\r\nb\r\nc\rd\r\n\r\n");
    let once = normalize_newlines("\r\r\n\n\r");
    assert_eq!(once, "\r\r\n\r\n\r");
    assert_eq!(normalize_newlines(&once), once);
}

#[test]
fn ascii_bytes_are_characters() {
    assert_eq!(ascii_text(b"abc ~"), "abc ~");
}
