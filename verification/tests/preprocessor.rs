//! Unit scenarios of the translator.

use rustpython_arabiya::preprocessor::translate;


// --- keyword translation ---

#[test]
fn single_keyword() {
    assert_eq!(translate("عرف"), "def");
}

#[test]
fn all_keywords() {
    assert_eq!(translate("و"), "and");
    assert_eq!(translate("باسم"), "as");
    assert_eq!(translate("تحقق"), "assert");
    assert_eq!(translate("لازمني"), "async");
    assert_eq!(translate("انتظر"), "await");
    assert_eq!(translate("توقف"), "break");
    assert_eq!(translate("حالة"), "case");
    assert_eq!(translate("صنف"), "class");
    assert_eq!(translate("استمر"), "continue");
    assert_eq!(translate("عرف"), "def");
    assert_eq!(translate("احذف"), "del");
    assert_eq!(translate("وإذا"), "elif");
    assert_eq!(translate("وإلا"), "else");
    assert_eq!(translate("التقط"), "except");
    assert_eq!(translate("خاطئ"), "False");
    assert_eq!(translate("ختاما"), "finally");
    assert_eq!(translate("لكل"), "for");
    assert_eq!(translate("من"), "from");
    assert_eq!(translate("عام"), "global");
    assert_eq!(translate("إذا"), "if");
    assert_eq!(translate("استورد"), "import");
    assert_eq!(translate("ضمن"), "in");
    assert_eq!(translate("هو"), "is");
    assert_eq!(translate("لامبدا"), "lambda");
    assert_eq!(translate("عدم"), "None");
    assert_eq!(translate("لامحلي"), "nonlocal");
    assert_eq!(translate("ليس"), "not");
    assert_eq!(translate("أو"), "or");
    assert_eq!(translate("تجاوز"), "pass");
    assert_eq!(translate("ارم"), "raise");
    assert_eq!(translate("أعد"), "return");
    assert_eq!(translate("صحيح"), "True");
    assert_eq!(translate("جرب"), "try");
    assert_eq!(translate("نوع"), "type");
    assert_eq!(translate("طالما"), "while");
    assert_eq!(translate("مع"), "with");
    assert_eq!(translate("انتج"), "yield");
    assert_eq!(translate("طابق"), "match");
}

// --- strings are NOT translated ---

#[test]
fn string_contents_not_translated() {
    // The word "عرف" inside a string literal is NOT translated
    assert_eq!(translate(r#""عرف""#), r#""عرف""#);
    assert_eq!(translate("'عرف'"), "'عرف'");
}

#[test]
fn comment_not_translated() {
    assert_eq!(translate("# يعرف"), "# يعرف");
    assert_eq!(translate("# إذا framework"), "# إذا framework");
}

#[test]
fn triple_quoted_string_not_translated() {
    let input = r#""""
عرف من🐂
"""""#;
    let output = translate(input);
    assert!(output.contains("عرف من🐂"));
}

// --- mixed content ---

#[test]
fn arabic_in_function_def() {
    assert_eq!(
        translate("عرف مجرب():\n    أعد ٤٢"),
        "def مجرب():\n    return 42"
    );
}

#[test]
fn if_else_block() {
    assert_eq!(
        translate("إذا صحيح:\n    اطبع('أ')\nوإلا:\n    اطبع('ب')"),
        "if True:\n    اطبع('أ')\nelse:\n    اطبع('ب')"
    );
}

// --- identifiers pass through ---

#[test]
fn arabic_identifiers_untouched() {
    // Variable names with Arabic characters are valid Unicode identifiers
    // and should not be touched.
    assert_eq!(translate("م = ١٠"), "م = 10");
    assert_eq!(translate("فيبوناتشي(١٠)"), "فيبوناتشي(10)");
}

#[test]
fn english_keywords_also_work() {
    // The translator should not break English keywords
    assert_eq!(translate("def foo():\n    pass"), "def foo():\n    pass");
}

// --- edge cases ---

#[test]
fn empty_string() {
    assert_eq!(translate(""), "");
}

#[test]
fn newline_only() {
    assert_eq!(translate("\n\n"), "\n\n");
}

#[test]
fn escape_in_string() {
    assert_eq!(translate(r#""hello\nworld""#), r#""hello\nworld""#);
}

#[test]
fn escaped_quote_in_string() {
    assert_eq!(translate(r#""say \"hi\"""#), r#""say \"hi\"""#);
}

#[test]
fn escaped_single_quote_in_string() {
    assert_eq!(translate(r"'it\'s'"), r"'it\'s'");
}

#[test]
fn adjacent_keywords() {
    assert_eq!(translate("وإذا"), "elif");
    // Ensure compound words are split correctly
    assert_eq!(translate("elif"), "elif");
}

// --- more complex programs ---

#[test]
fn for_loop() {
    // `نطاق` and `اطبع` are builtins, not keywords: only keywords translate.
    assert_eq!(
        translate("لكل x ضمن نطاق(١٠):\n    اطبع(x)"),
        "for x in نطاق(10):\n    اطبع(x)"
    );
}

#[test]
fn try_except_finally() {
    // `خطأ_قيمة` and `اطبع` are builtins (runtime-bound), not keywords.
    assert_eq!(
        translate(
            "جرب:\n    ارم خطأ_قيمة()\nالتقط خطأ_قيمة:\n    اطبع('error')\nختاما:\n    اطبع('done')"
        ),
        "try:\n    raise خطأ_قيمة()\nexcept خطأ_قيمة:\n    اطبع('error')\nfinally:\n    اطبع('done')"
    );
}

#[test]
fn string_with_keyword_like_content() {
    // Even when a string contains Arabic text that looks like keywords,
    // it should not be translated. Builtins (`اطبع`) are also untouched.
    assert_eq!(
        translate(r#"اطبع("البرنامج يعمل بنجاح")"#),
        r#"اطبع("البرنامج يعمل بنجاح")"#
    );
}

#[test]
fn comment_with_english_and_arabic() {
    let input = "# this is a comment with إن在里面";
    let output = translate(input);
    assert_eq!(output, input);
}

// --- method translation (words right after a dot) ---

#[test]
fn list_method_append() {
    assert_eq!(translate("م.أضف(١)"), "م.append(1)");
}

#[test]
fn list_methods_pop_remove_sort() {
    assert_eq!(translate("م.اخرج()"), "م.pop()");
    assert_eq!(translate("م.احذف(س)"), "م.remove(س)");
    assert_eq!(translate("م.رتب()"), "م.sort()");
}

#[test]
fn dict_methods() {
    assert_eq!(translate("ق.اجلب('مفتاح')"), "ق.get('مفتاح')");
    assert_eq!(translate("مفاتيح = ق.مفاتيح()"), "مفاتيح = ق.keys()");
}

#[test]
fn string_methods() {
    assert_eq!(translate("ن.قسم('،')"), "ن.split('،')");
    assert_eq!(translate("ن.كبر()"), "ن.upper()");
    assert_eq!(translate("ن.صغر()"), "ن.lower()");
}

#[test]
fn method_word_keyword_shadowing() {
    // `احذف` after a dot is `remove`; bare `احذف` is the `del` keyword.
    assert_eq!(translate("احذف م[0]"), "del م[0]");
    assert_eq!(translate("م.احذف(0)"), "م.remove(0)");
}

#[test]
fn float_dot_is_not_a_method() {
    assert_eq!(translate("ن = 3.14"), "ن = 3.14");
    assert_eq!(translate("أ.04"), "أ.04");
}

#[test]
fn english_methods_pass_through() {
    assert_eq!(translate("م.append(س).pop()"), "م.append(س).pop()");
}

#[test]
fn methods_not_translated_inside_strings() {
    assert_eq!(translate(r#"اطبع("م.أضف")"#), r#"اطبع("م.أضف")"#);
}

// --- Arabic digit literals are converted to ASCII ---

#[test]
fn arabic_digit_integer() {
    assert_eq!(translate("ن = ٤٢"), "ن = 42");
    assert_eq!(translate("نطاق(١٠)"), "نطاق(10)");
}

#[test]
fn arabic_digit_float() {
    assert_eq!(translate("٣.١"), "3.1");
    assert_eq!(translate("٠.٥"), "0.5");
}

#[test]
fn persian_digits() {
    assert_eq!(translate("ن = ۴۲"), "ن = 42");
}

#[test]
fn digits_in_identifiers_kept() {
    // Identifiers starting with a letter keep their Arabic digits.
    assert_eq!(translate("درجة٣ = ٥"), "درجة٣ = 5");
}

#[test]
fn digits_in_strings_and_comments_kept() {
    assert_eq!(translate(r#"اطبع("٤٢")"#), r#"اطبع("٤٢")"#);
    assert_eq!(translate("# الرقم ٤٢"), "# الرقم ٤٢");
}

// --- one-line if/else statement ---

#[test]
fn one_line_if_else_splits() {
    // A statement `else:` after a finished simple suite must move to a new
    // line at the same indentation.
    assert_eq!(
        translate("إذا ن > ٣: اطبع(\"كبير\") وإلا: اطبع(\"صغير\")"),
        "if ن > 3: اطبع(\"كبير\")\nelse: اطبع(\"صغير\")"
    );
}

#[test]
fn one_line_elif_chain_splits() {
    assert_eq!(
        translate("إذا أ: ف(أ) وإذا ب: ف(ب) وإلا: ف(ج)"),
        "if أ: ف(أ)\nelif ب: ف(ب)\nelse: ف(ج)"
    );
}

#[test]
fn nested_one_line_if_else_keeps_indent() {
    assert_eq!(
        translate("لكل ن ضمن نطاق(٥):\n    إذا ن == ٢: اطبع(\"نعم\") وإلا: اطبع(\"لا\")"),
        "for ن in نطاق(5):\n    if ن == 2: اطبع(\"نعم\")\n    else: اطبع(\"لا\")"
    );
}

#[test]
fn ternary_else_stays_inline() {
    // `وإلا` without a following `:` is a ternary `else`, not a statement.
    assert_eq!(
        translate("طابع = \"موجب\" إذا ن >= ٠ وإلا \"سالب\""),
        "طابع = \"موجب\" if ن >= 0 else \"سالب\""
    );
}

#[test]
fn indented_block_else_unchanged() {
    // A normal indented `if/else` block is untouched (else already starts
    // its own line).
    assert_eq!(
        translate("إذا صحيح:\n    اطبع('أ')\nوإلا:\n    اطبع('ب')"),
        "if True:\n    اطبع('أ')\nelse:\n    اطبع('ب')"
    );
}

// --- Shifra escape sequences (inside strings) ---

#[test]
fn shifra_escape_newline() {
    assert_eq!(translate(r#"اطبع("سطر1\جسطر2")"#), r#"اطبع("سطر1\nسطر2")"#);
}

#[test]
fn shifra_escape_tab() {
    assert_eq!(translate(r#"اطبع("م\طفصول")"#), r#"اطبع("م\tفصول")"#);
}

#[test]
fn shifra_escape_backslash() {
    // `\م` → `\\` (a literal backslash in the generated Python).
    assert_eq!(translate(r#"اطبع("مسار\ملخط")"#), r#"اطبع("مسار\\لخط")"#);
}

#[test]
fn shifra_escape_all_ctrl() {
    assert_eq!(translate(r#""رجوع\ر""#), r#""رجوع\r""#);
    assert_eq!(translate(r#""صفر\ص""#), r#""صفر\0""#);
    assert_eq!(translate(r#""سابق\س""#), r#""سابق\b""#);
    assert_eq!(translate(r#""نهاية\ن""#), r#""نهاية\f""#);
    assert_eq!(translate(r#""عمودي\ع""#), r#""عمودي\v""#);
    assert_eq!(translate(r#""تنبيه\ت""#), r#""تنبيه\a""#);
}

#[test]
fn shifra_escape_unknown_letter_passes_through() {
    // An unlisted Shifra letter (here for `\x`-like use) is preserved.
    assert_eq!(translate(r#""abc\x41""#), r#""abc\x41""#);
}

#[test]
fn shifra_escape_in_raw_string_kept() {
    // Raw strings must not apply Shifra escapes.
    assert_eq!(translate(r#"اطبع(r"سطر\جسطر")"#), r#"اطبع(r"سطر\جسطر")"#);
}

#[test]
fn escaped_quote_and_backslash_still_work() {
    assert_eq!(translate(r#""say \"hi\"""#), r#""say \"hi\"""#);
    assert_eq!(translate(r"wo \' processor"), r"wo \' processor");
}

// --- f-strings (`مـ` or Latin `f` prefixes) ---

#[test]
fn fstring_shifra_prefix_maps_to_f() {
    assert_eq!(
        translate("اطبع(مـ\"المجموع = {ن + ١}\")"),
        "اطبع(f\"المجموع = {ن + 1}\")"
    );
}

#[test]
fn fstring_latin_f_translates_expressions() {
    assert_eq!(translate("x=f\"{ن}\""), "x=f\"{ن}\"");
    assert_eq!(translate("x=F\"{ن}\""), "x=F\"{ن}\"");
    // A quoted string inside the expression is preserved verbatim.
    assert_eq!(
        translate("x=f\"{'إن' and 'نعم'}\""),
        "x=f\"{'إن' and 'نعم'}\""
    );
    // A bare `إذا` inside the expression is translated like any keyword.
    assert_eq!(translate("x=f\"{إذا X}\""), "x=f\"{if X}\"");
}

#[test]
fn fstring_expression_translates_ternary() {
    assert_eq!(
        translate("z = مـ\"{'نعم' إذا ق['منتهية'] وإلا 'لا'}\""),
        "z = f\"{'نعم' if ق['منتهية'] else 'لا'}\""
    );
    assert_eq!(
        translate(r#"اطبع(f"المهمة :{ق['الاسم']} \ج {ن}")"#),
        r#"اطبع(f"المهمة :{ق['الاسم']} \n {ن}")"#
    );
}

#[test]
fn fstring_literal_braces_and_text_preserved() {
    // `{{`/`}}` are f-string literal brace escapes; one is emitted.
    assert_eq!(translate("مـ\"{{قيمة}}\""), "f\"{قيمة}\"");
    assert_eq!(translate("مـ\"إن هذا نص إن\""), "f\"إن هذا نص إن\"");
}

#[test]
fn fstring_latin_prefix_not_part_of_identifier() {
    // `ref"…"` ends in a prefix letter but is an identifier, not an f-string.
    assert_eq!(translate(r#"x = ref"hi""#), r#"x = ref"hi""#);
    assert_eq!(translate(r#"x = ter"hi""#), r#"x = ter"hi""#);
}

// --- module names and library / dunder names ---

#[test]
fn from_import_module_and_member() {
    assert_eq!(
        translate("من معطيات_الصنوف استورد معطيات_الصنف"),
        "from dataclasses import dataclass"
    );
    assert_eq!(
        translate("من تصنيف استورد أي_نوع"),
        "from typing import Any"
    );
}

#[test]
fn english_module_names_still_pass_through() {
    // Existing English spellings keep working untouched.
    assert_eq!(
        translate("من dataclasses استورد dataclass"),
        "from dataclasses import dataclass"
    );
    assert_eq!(translate("من typing استورد Any"), "from typing import Any");
}

#[test]
fn plain_import_module() {
    assert_eq!(translate("استورد معطيات_الصنوف"), "import dataclasses");
}

#[test]
fn module_name_only_first_word() {
    // Qualified modules: only the leading name is translated.
    assert_eq!(
        translate("من معطيات_الصنوف.فرعية استورد معطيات_الصنف"),
        "from dataclasses.فرعية import dataclass"
    );
}

#[test]
fn module_expectation_consumed_by_keyword() {
    // `from . import x`: the `.` holds the module position, so the `import`
    // keyword consumes it without translating anything.
    assert_eq!(translate("من . استورد سياق"), "from . import سياق");
}

#[test]
fn module_expectation_resets_at_newline() {
    // The next line's first word must not be treated as a module name.
    assert_eq!(
        translate("من تصنيف استورد أي_نوع\nاطبع('مرحبا')"),
        "from typing import Any\nاطبع('مرحبا')"
    );
}

#[test]
fn library_name_everywhere() {
    assert_eq!(translate("@معطيات_الصنف"), "@dataclass");
    assert_eq!(translate("الغرض: أي_نوع"), "الغرض: Any");
    assert_eq!(translate("عرف create() -> أي_نوع:"), "def create() -> Any:");
}

#[test]
fn dunder_names() {
    assert_eq!(translate("الكل__ = [\"سياق\"]"), "__all__ = [\"سياق\"]");
    assert_eq!(
        translate("إذا الاسم__ == \"__main__\":"),
        "if __name__ == \"__main__\":"
    );
    assert_eq!(
        translate("عرف __التهيئة__(الذات, العدد):"),
        "def __init__(الذات, العدد):"
    );
    assert_eq!(translate("تم.__التهيئة__(العدد)"), "تم.__init__(العدد)");
}

#[test]
fn document_words_in_strings_pass_through() {
    // `الاسم__` inside a string/comment must not become `__name__`.
    assert_eq!(translate(r#""الاسم__""#), r#""الاسم__""#);
    assert_eq!(translate("# الاسم__"), "# الاسم__");
}
