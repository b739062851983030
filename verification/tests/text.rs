use rust_analyzer_mcp::text::{
    decimal_string, first_word_of, is_whitespace, join, same_text, split_lines, starts_with, trim,
};

#[test]
fn trimming_drops_white_space_at_both_ends_only() {
    assert_eq!(trim("  a b \n"), "a b");
    assert_eq!(trim(" \t\n "), "");
    assert_eq!(trim(""), "");
    assert_eq!(trim("\u{3000}x\u{a0}"), "x");
}

#[test]
fn lines_are_split_as_str_lines_splits_them() {
    assert_eq!(split_lines("a\nb\r\nc"), ["a", "b", "c"]);
    assert_eq!(split_lines("a\n"), ["a"]);
    assert_eq!(split_lines(""), Vec::<String>::new());
    assert_eq!(split_lines("\n\nx"), ["", "", "x"]);
    assert_eq!(split_lines("a\r"), ["a\r"]);
    let samples = ["one\ntwo\r\n\nthree\n", "\r\n", "x\ry\nz"];
    for sample in samples {
        let ours: Vec<String> = split_lines(sample);
        let std_lines: Vec<&str> = sample.lines().collect();
        assert_eq!(ours, std_lines, "{sample:?}");
    }
}

#[test]
fn the_first_word_is_found_past_leading_white_space() {
    assert_eq!(first_word_of("  test-mod uri::tests"), "test-mod");
    assert_eq!(first_word_of("bench"), "bench");
    assert_eq!(first_word_of("   "), "");
}

#[test]
fn white_space_is_what_char_is_whitespace_says() {
    for c in ['\t', '\n', ' ', '\u{85}', '\u{a0}', '\u{2003}', '\u{3000}', 'a', '_', '\u{200b}'] {
        assert_eq!(is_whitespace(c), c.is_whitespace(), "{c:?}");
    }
}

#[test]
fn prefixes_and_equality_compare_characters() {
    assert!(starts_with("```rust", "```"));
    assert!(!starts_with("``", "```"));
    assert!(same_text("abc", "abc"));
    assert!(!same_text("abc", "abd"));
    assert!(!same_text("abc", "ab"));
}

#[test]
fn joining_puts_the_separator_between_parts() {
    let parts = vec!["a".to_string(), "b".to_string(), "c".to_string()];
    assert_eq!(join(&parts, "::"), "a::b::c");
    assert_eq!(join(&vec!["x".to_string()], "::"), "x");
    assert_eq!(join(&Vec::new(), "::"), "");
}

#[test]
fn numbers_are_written_in_decimal() {
    assert_eq!(decimal_string(0), "0");
    assert_eq!(decimal_string(7), "7");
    assert_eq!(decimal_string(10), "10");
    assert_eq!(decimal_string(4096), "4096");
    assert_eq!(decimal_string(usize::MAX), usize::MAX.to_string());
}
