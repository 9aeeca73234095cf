//! Lookups in the Shifra dictionaries.

use rustpython_arabiya::builtins::{builtin, BUILTINS};
use rustpython_arabiya::keywords::{is_keyword, keyword, KEYWORDS};
use rustpython_arabiya::methods::{method, METHODS};
use rustpython_arabiya::modules::{module, name, MODULES, NAMES};

#[test]
fn keyword_spellings_follow_the_dictionary() {
    assert_eq!(keyword("إذا"), Some("if"));
    assert_eq!(keyword("وإذا"), Some("elif"));
    assert_eq!(keyword("طالما"), Some("while"));
    assert_eq!(keyword("لامحلي"), Some("nonlocal"));
    assert_eq!(keyword("خاطئ"), Some("False"));
    assert_eq!(keyword("لازمني"), Some("async"));
    assert_eq!(keyword("استمر"), Some("continue"));
    assert_eq!(KEYWORDS.len(), 38);
}

#[test]
fn unknown_words_are_not_keywords() {
    assert_eq!(keyword("def"), None);
    assert_eq!(keyword("اطبع"), None);
    assert_eq!(keyword(""), None);
    assert!(!is_keyword("عرفت"));
    assert!(is_keyword("عرف"));
}

#[test]
fn builtin_method_module_and_name_lookups() {
    assert_eq!(builtin("اطبع"), Some("print"));
    assert_eq!(builtin("خطأ_قيمة"), Some("ValueError"));
    assert_eq!(builtin("نوع"), None);
    assert_eq!(method("أضف"), Some("append"));
    assert_eq!(method("احذف"), Some("remove"));
    assert_eq!(method("append"), None);
    assert_eq!(module("معطيات_الصنوف"), Some("dataclasses"));
    assert_eq!(module("dataclasses"), None);
    assert_eq!(name("__الكل__"), Some("__all__"));
    assert_eq!(name("الاسم__"), Some("__name__"));
    assert_eq!(name("سياق"), None);
}

#[test]
fn table_sizes() {
    assert_eq!(BUILTINS.len(), 136);
    assert_eq!(METHODS.len(), 80);
    assert_eq!(MODULES.len(), 2);
    assert_eq!(NAMES.len(), 7);
}

#[test]
fn every_table_key_is_arabic() {
    for &(arabic, _) in KEYWORDS.iter().chain(METHODS.iter()).chain(MODULES.iter()).chain(NAMES.iter()) {
        assert!(arabic.chars().any(|c| !c.is_ascii()), "{arabic} should not be English");
    }
}

#[test]
fn method_table_pairs_are_sane() {
    for &(arabic, python) in METHODS.iter() {
        assert_eq!(method(arabic), Some(python));
    }
    for &(arabic, python) in KEYWORDS.iter() {
        assert_eq!(keyword(arabic), Some(python));
    }
}

#[test]
fn keyword_spellings_are_one_to_one() {
    for (i, &(a, p)) in KEYWORDS.iter().enumerate() {
        for &(b, q) in KEYWORDS.iter().skip(i + 1) {
            assert_ne!(p, q, "{a} and {b} share a spelling");
        }
    }
}

#[test]
fn no_builtin_is_a_keyword() {
    for &(arabic, _) in BUILTINS.iter() {
        assert_eq!(keyword(arabic), None, "{arabic} is both");
    }
    assert_eq!(keyword("نوع"), Some("type"));
    assert_eq!(builtin("نوع"), None);
}

#[test]
fn keywords_translate_to_python_keywords() {
    let python = [
        "and", "as", "assert", "async", "await", "break", "class", "continue", "def", "del",
        "elif", "else", "except", "False", "finally", "for", "from", "global", "if", "import",
        "in", "is", "lambda", "None", "nonlocal", "not", "or", "pass", "raise", "return",
        "True", "try", "while", "with", "yield", "_", "case", "match", "type",
    ];
    for &(arabic, p) in KEYWORDS.iter() {
        assert!(python.contains(&p), "{arabic} gives {p}");
    }
}
