use mdbook_htmx::text::{is_whitespace, skip_blank_lines, split_words, Separator};

fn chars(text: &str) -> Vec<char> {
    text.chars().collect()
}

#[test]
fn whitespace_is_what_the_standard_library_calls_whitespace() {
    for c in '\0'..=char::MAX {
        assert_eq!(is_whitespace(c), c.is_whitespace(), "U+{:04X}", c as u32);
    }
}

#[test]
fn whitespace_characters() {
    for c in [' ', '\t', '\n', '\r', '\u{b}', '\u{c}', '\u{85}', '\u{a0}', '\u{1680}'] {
        assert!(is_whitespace(c));
    }
    for c in ['\u{2000}', '\u{200a}', '\u{2028}', '\u{2029}', '\u{202f}', '\u{205f}', '\u{3000}'] {
        assert!(is_whitespace(c));
    }
    for c in ['a', '-', '\0', '\u{8}', '\u{e}', '\u{200b}', '\u{feff}', '\u{180e}'] {
        assert!(!is_whitespace(c));
    }
}

#[test]
fn blank_lines_end_with_their_line_feed() {
    assert_eq!(skip_blank_lines(&chars("\n\n  x"), 0), 2);
    assert_eq!(skip_blank_lines(&chars("  x"), 0), 0);
    assert_eq!(skip_blank_lines(&chars(" \n\t\n"), 0), 4);
    assert_eq!(skip_blank_lines(&chars("ab\n \n c"), 2), 5);
    assert_eq!(skip_blank_lines(&chars("ab"), 2), 2);
    assert_eq!(skip_blank_lines(&chars(""), 0), 0);
    assert_eq!(skip_blank_lines(&chars(" \n x \n\n"), 0), 2);
}

#[test]
fn words_split_like_the_standard_library() {
    let text = " one\u{a0}two\t\nthree\u{3000} ";
    let words: Vec<String> = split_words(&chars(text), Separator::Whitespace)
        .iter()
        .map(|w| w.iter().collect())
        .collect();
    let expected: Vec<&str> = text.split_whitespace().collect();
    assert_eq!(words, expected);
}
