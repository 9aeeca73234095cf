//! The scanning primitives of the translator.

use rustpython_arabiya::scan::{
    find_closing_quote, followed_by_colon, is_string_prefix_letter, is_word_char,
    matching_brace, newline_from, skip_quoted, word_end,
};

fn chars(s: &str) -> Vec<char> {
    s.chars().collect()
}

#[test]
fn word_and_line_boundaries() {
    let s = chars("عرف_٣ x\nب");
    assert_eq!(word_end(&s, 0), 5);
    assert_eq!(newline_from(&s, 0), 7);
    assert_eq!(newline_from(&s, 8), 9);
    assert!(is_word_char('_'));
    assert!(is_word_char('ب'));
    assert!(!is_word_char('.'));
}

#[test]
fn colon_lookahead() {
    let s = chars("else  \t: x");
    assert!(followed_by_colon(&s, 4));
    assert!(!followed_by_colon(&chars("else x:"), 4));
    assert!(!followed_by_colon(&chars("else   "), 4));
}

#[test]
fn closing_quotes() {
    let s = chars(r#""a\"b" c"#);
    assert_eq!(find_closing_quote(&s, 1, '"', false), 5);
    assert_eq!(skip_quoted(&s, 0), 6);
    let t = chars("'''a'b'''x");
    assert_eq!(find_closing_quote(&t, 3, '\'', true), 6);
    assert_eq!(skip_quoted(&t, 0), 9);
    let open = chars("'never");
    assert_eq!(skip_quoted(&open, 0), 6);
}

#[test]
fn braces_in_fstring_expressions() {
    let c = chars("{a['}'] + {1}} tail");
    assert_eq!(matching_brace(&c, 1), 13);
    let unclosed = chars("{a");
    assert_eq!(matching_brace(&unclosed, 1), 2);
}

#[test]
fn prefix_letters() {
    for c in ['b', 'B', 'r', 'R', 'f', 'F', 'u', 'U'] {
        assert!(is_string_prefix_letter(c));
    }
    assert!(!is_string_prefix_letter('x'));
    assert!(!is_string_prefix_letter('م'));
}

#[test]
fn closing_quote_search_past_the_end() {
    let s = chars("'ab");
    assert_eq!(find_closing_quote(&s, 1, '\'', false), 3);
    assert_eq!(find_closing_quote(&s, 3, '\'', false), 3);
    assert_eq!(find_closing_quote(&s, 7, '\'', false), 3);
    // The search skips a backslash pair and stops at the quote.
    assert_eq!(find_closing_quote(&chars("'a\\'b'"), 1, '\'', false), 5);
}
