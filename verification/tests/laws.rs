//! Concrete instances of the translator's laws, and its edge cases.

use rustpython_arabiya::preprocessor::translate;
use rustpython_arabiya::scan::{ascii_digit, is_arabic_digit, shifra_escape, translate_arabic_digits};

#[test]
fn english_source_passes_through() {
    let source = "import os\ndef area(w, h):\n    # width times height\n    return w * h  # done\nprint(f'it\\'s', area(2, 3), r\"\\d+\")\n";
    assert_eq!(translate(source), source);
}

#[test]
fn english_without_quotes_passes_through() {
    // Braces, non-Arabic letters and an `else:` that begins its line.
    let source = "d = {1: [x for x in range(3)]}\nif d:\n    café = d\nelse:\n    pass\ny = a if b else c\n";
    assert_eq!(translate(source), source);
}

#[test]
fn english_else_on_one_line_is_split() {
    // Outside the passthrough law: a mid-line statement `else:` moves to a
    // new line even when written in English.
    assert_eq!(translate("if a: b() else: c()"), "if a: b()\nelse: c()");
}

#[test]
fn doubled_braces_in_fstrings_collapse() {
    assert_eq!(translate("x = f\"{{x}}\""), "x = f\"{x}\"");
    assert_eq!(translate("f\"{{x}}\""), "f\"{x}\"");
}

#[test]
fn latin_fstring_prefix_at_start_of_source() {
    // A Latin `f`/`F` that starts the source is an f-string prefix too.
    assert_eq!(translate("f\"{عرف}\""), "f\"{def}\"");
    assert_eq!(translate("F\"{عرف}\""), "F\"{def}\"");
    assert_eq!(translate("rf'{عرف}\\ن'"), "rf'{def}\\ن'");
    // Nested: an f-string that opens an f-string expression.
    assert_eq!(translate("مـ'{f\"{صحيح}\"}'"), "f'{f\"{True}\"}'");
    // The tail of an identifier is still no prefix.
    assert_eq!(translate("xf\"{عرف}\""), "xf\"{عرف}\"");
}

#[test]
fn comment_line_is_kept() {
    let source = "# عرف إذا وإلا ٤٢ م.أضف \"";
    assert_eq!(translate(source), source);
}

#[test]
fn plain_literal_is_kept() {
    let source = "\"إذا عرف ٤٢ م.أضف '\"";
    assert_eq!(translate(source), source);
    let source = "'وإلا: لكل'";
    assert_eq!(translate(source), source);
}

#[test]
fn unterminated_literals_run_to_the_end() {
    assert_eq!(translate("\"إذا"), "\"إذا");
    assert_eq!(translate("مـ\"{إذا"), "f\"{if}");
}

#[test]
fn unmatched_closing_brace_in_fstring_is_kept() {
    assert_eq!(translate("f\"}\""), "f\"}\"");
}

#[test]
fn triple_quoted_fstring_expression() {
    assert_eq!(translate("مـ'''{ليس ن}'''"), "f'''{not ن}'''");
}

#[test]
fn raw_prefix_after_identifier_still_raw() {
    // `bar"…"`: the prefix letters end an identifier, yet the `r` keeps the
    // literal raw, so a Shifra escape stays as written.
    assert_eq!(translate("bar\"\\ج\""), "bar\"\\ج\"");
}

#[test]
fn module_name_after_import_keyword_only() {
    assert_eq!(translate("تصنيف"), "تصنيف");
    assert_eq!(translate("استورد تصنيف"), "import typing");
}

#[test]
fn indent_is_kept_when_splitting() {
    assert_eq!(
        translate("\tإذا أ: ب   وإلا: ج"),
        "\tif أ: ب\n\telse: ج"
    );
}

#[test]
fn digit_helpers() {
    assert_eq!(ascii_digit('٧'), Some('7'));
    assert_eq!(ascii_digit('۹'), Some('9'));
    assert_eq!(ascii_digit('7'), None);
    assert!(is_arabic_digit('٠'));
    assert!(!is_arabic_digit('0'));
    let digits: Vec<char> = "٣.١٤ ۲x".chars().collect();
    let ascii: String = translate_arabic_digits(&digits).into_iter().collect();
    assert_eq!(ascii, "3.14 2x");
    assert_eq!(translate("س = ٣.١٤"), "س = 3.14");
}

#[test]
fn shifra_escape_letters() {
    assert_eq!(shifra_escape('ج'), Some('n'));
    assert_eq!(shifra_escape('م'), Some('\\'));
    assert_eq!(shifra_escape('ت'), Some('a'));
    assert_eq!(shifra_escape('n'), None);
}

#[test]
fn line_breaks_are_never_removed() {
    let source = "إذا أ: ب وإلا: ج\nطالما خطأ:\n    وإذا د: هـ\n# تعليق\n'''سطر\nسطر'''\n";
    let out = translate(source);
    assert_eq!(out, "if أ: ب\nelse: ج\nwhile خطأ:\n    elif د: هـ\n# تعليق\n'''سطر\nسطر'''\n");
    assert!(out.matches('\n').count() >= source.matches('\n').count());
    assert_eq!(out.matches('\n').count(), source.matches('\n').count() + 1);
}

#[test]
fn methods_only_after_a_dot() {
    assert_eq!(translate("م.أضف()"), "م.append()");
    assert_eq!(translate("أضف()"), "أضف()");
    assert_eq!(translate("ق.مفاتيح()"), "ق.keys()");
    assert_eq!(translate("مفاتيح()"), "مفاتيح()");
}

#[test]
fn fstring_literal_text_and_expression() {
    assert_eq!(translate("مـ'قيمة: {ليس س} !'"), "f'قيمة: {not س} !'");
    assert_eq!(translate("f\"a{صحيح}b\""), "f\"a{True}b\"");
}

#[test]
fn english_with_strings_and_fstrings_passes_through() {
    let source = "d = {'a': f\"{x + 1}!\", \"b\": {2}}\nnoelif = d\nprint(f'{d!r}', \"{{}}\".format(1))\n";
    assert_eq!(translate(source), source);
}

#[test]
fn line_breaks_kept_exactly_when_clauses_begin_lines() {
    let source = "إذا أ:\n    ب()\nوإذا ج:\n    د()\nوإلا:\n    هـ = مـ'{أ\n}'\n";
    let out = translate(source);
    assert_eq!(out.matches('\n').count(), source.matches('\n').count());
}
