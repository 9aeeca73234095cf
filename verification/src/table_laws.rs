//! Laws on the word tables as a whole: every key is Arabic, the keyword
//! table is one to one, and no word is both a keyword and a runtime builtin.

use vstd::prelude::*;

use crate::builtins::BUILTINS;
use crate::keywords::KEYWORDS;
use crate::methods::METHODS;
use crate::modules::{MODULES, NAMES};
use crate::scan::spec_is_arabic_digit;
use crate::text::table_lookup;

verus! {

/// A character of the Arabic block, U+0600 to U+06FF: Arabic letters,
/// diacritics, tatweel, and the Arabic-Indic and Persian digits.
pub open spec fn in_arabic_block(c: char) -> bool {
    '\u{0600}' <= c && c <= '\u{06FF}'
}

/// Some character of `w` lies in the Arabic block.
pub open spec fn has_arabic(w: Seq<char>) -> bool {
    exists|j: int| 0 <= j < w.len() && in_arabic_block(#[trigger] w[j])
}

/// Every key of `table` holds a character of the Arabic block.
pub open spec fn keys_arabic(table: Seq<(&'static str, &'static str)>) -> bool {
    forall|k: int| 0 <= k < table.len() ==> has_arabic(#[trigger] table[k].0@)
}

/// A word without Arabic characters is found in no table whose keys all
/// hold one.
pub proof fn lemma_non_arabic_word_not_found(
    table: Seq<(&'static str, &'static str)>,
    w: Seq<char>,
)
    requires
        keys_arabic(table),
        !has_arabic(w),
    ensures
        table_lookup(table, w) is None,
    decreases table.len(),
{
    if table.len() > 0 {
        assert(has_arabic(table[0].0@));
        if table[0].0@ == w {
            let j = choose|j: int| 0 <= j < table[0].0@.len() && in_arabic_block(table[0].0@[j]);
            assert(in_arabic_block(w[j]));
        }
        assert forall|k: int| 0 <= k < table.drop_first().len() implies has_arabic(
            #[trigger] table.drop_first()[k].0@,
        ) by {
            assert(table.drop_first()[k] == table[k + 1]);
        }
        lemma_non_arabic_word_not_found(table.drop_first(), w);
    }
}

/// Every key of `KEYWORDS` holds an Arabic character.
proof fn lemma_keywords_keys_arabic()
    ensures
        keys_arabic(KEYWORDS@),
{
    reveal_strlit("و");
    reveal_strlit("باسم");
    reveal_strlit("تحقق");
    reveal_strlit("لازمني");
    reveal_strlit("انتظر");
    reveal_strlit("توقف");
    reveal_strlit("حالة");
    reveal_strlit("صنف");
    reveal_strlit("استمر");
    reveal_strlit("عرف");
    reveal_strlit("احذف");
    reveal_strlit("وإذا");
    reveal_strlit("وإلا");
    reveal_strlit("التقط");
    reveal_strlit("خاطئ");
    reveal_strlit("ختاما");
    reveal_strlit("لكل");
    reveal_strlit("من");
    reveal_strlit("عام");
    reveal_strlit("إذا");
    reveal_strlit("استورد");
    reveal_strlit("ضمن");
    reveal_strlit("هو");
    reveal_strlit("لامبدا");
    reveal_strlit("عدم");
    reveal_strlit("لامحلي");
    reveal_strlit("ليس");
    reveal_strlit("أو");
    reveal_strlit("تجاوز");
    reveal_strlit("ارم");
    reveal_strlit("أعد");
    reveal_strlit("صحيح");
    reveal_strlit("جرب");
    reveal_strlit("نوع");
    reveal_strlit("طالما");
    reveal_strlit("مع");
    reveal_strlit("انتج");
    reveal_strlit("طابق");
    assert forall|k: int| 0 <= k < KEYWORDS@.len() implies has_arabic(#[trigger] KEYWORDS@[k].0@) by {
        if k == 0 {
            assert(in_arabic_block(KEYWORDS@[k].0@[0]));
        } else if k == 1 {
            assert(in_arabic_block(KEYWORDS@[k].0@[0]));
        } else if k == 2 {
            assert(in_arabic_block(KEYWORDS@[k].0@[0]));
        } else if k == 3 {
            assert(in_arabic_block(KEYWORDS@[k].0@[0]));
        } else if k == 4 {
            assert(in_arabic_block(KEYWORDS@[k].0@[0]));
        } else if k == 5 {
            assert(in_arabic_block(KEYWORDS@[k].0@[0]));
        } else if k == 6 {
            assert(in_arabic_block(KEYWORDS@[k].0@[0]));
        } else if k == 7 {
            assert(in_arabic_block(KEYWORDS@[k].0@[0]));
        } else if k == 8 {
            assert(in_arabic_block(KEYWORDS@[k].0@[0]));
        } else if k == 9 {
            assert(in_arabic_block(KEYWORDS@[k].0@[0]));
        } else if k == 10 {
            assert(in_arabic_block(KEYWORDS@[k].0@[0]));
        } else if k == 11 {
            assert(in_arabic_block(KEYWORDS@[k].0@[0]));
        } else if k == 12 {
            assert(in_arabic_block(KEYWORDS@[k].0@[0]));
        } else if k == 13 {
            assert(in_arabic_block(KEYWORDS@[k].0@[0]));
        } else if k == 14 {
            assert(in_arabic_block(KEYWORDS@[k].0@[0]));
        } else if k == 15 {
            assert(in_arabic_block(KEYWORDS@[k].0@[0]));
        } else if k == 16 {
            assert(in_arabic_block(KEYWORDS@[k].0@[0]));
        } else if k == 17 {
            assert(in_arabic_block(KEYWORDS@[k].0@[0]));
        } else if k == 18 {
            assert(in_arabic_block(KEYWORDS@[k].0@[0]));
        } else if k == 19 {
            assert(in_arabic_block(KEYWORDS@[k].0@[0]));
        } else if k == 20 {
            assert(in_arabic_block(KEYWORDS@[k].0@[0]));
        } else if k == 21 {
            assert(in_arabic_block(KEYWORDS@[k].0@[0]));
        } else if k == 22 {
            assert(in_arabic_block(KEYWORDS@[k].0@[0]));
        } else if k == 23 {
            assert(in_arabic_block(KEYWORDS@[k].0@[0]));
        } else if k == 24 {
            assert(in_arabic_block(KEYWORDS@[k].0@[0]));
        } else if k == 25 {
            assert(in_arabic_block(KEYWORDS@[k].0@[0]));
        } else if k == 26 {
            assert(in_arabic_block(KEYWORDS@[k].0@[0]));
        } else if k == 27 {
            assert(in_arabic_block(KEYWORDS@[k].0@[0]));
        } else if k == 28 {
            assert(in_arabic_block(KEYWORDS@[k].0@[0]));
        } else if k == 29 {
            assert(in_arabic_block(KEYWORDS@[k].0@[0]));
        } else if k == 30 {
            assert(in_arabic_block(KEYWORDS@[k].0@[0]));
        } else if k == 31 {
            assert(in_arabic_block(KEYWORDS@[k].0@[0]));
        } else if k == 32 {
            assert(in_arabic_block(KEYWORDS@[k].0@[0]));
        } else if k == 33 {
            assert(in_arabic_block(KEYWORDS@[k].0@[0]));
        } else if k == 34 {
            assert(in_arabic_block(KEYWORDS@[k].0@[0]));
        } else if k == 35 {
            assert(in_arabic_block(KEYWORDS@[k].0@[0]));
        } else if k == 36 {
            assert(in_arabic_block(KEYWORDS@[k].0@[0]));
        } else if k == 37 {
            assert(in_arabic_block(KEYWORDS@[k].0@[0]));
        }
    }
}

/// Every key of `METHODS` holds an Arabic character.
proof fn lemma_methods_keys_arabic()
    ensures
        keys_arabic(METHODS@),
{
    reveal_strlit("أضف");
    reveal_strlit("امسح");
    reveal_strlit("انسخ");
    reveal_strlit("عد");
    reveal_strlit("مدد");
    reveal_strlit("موقع");
    reveal_strlit("ادرج");
    reveal_strlit("اخرج");
    reveal_strlit("احذف");
    reveal_strlit("عكس");
    reveal_strlit("رتب");
    reveal_strlit("من_مفاتيح");
    reveal_strlit("اجلب");
    reveal_strlit("عناصر");
    reveal_strlit("مفاتيح");
    reveal_strlit("قيم");
    reveal_strlit("اخرج_آخر");
    reveal_strlit("عين_مبدئي");
    reveal_strlit("دمج");
    reveal_strlit("ضم");
    reveal_strlit("فرق");
    reveal_strlit("فرق_حدث");
    reveal_strlit("تجاهل");
    reveal_strlit("تقاطع");
    reveal_strlit("تقاطع_حدث");
    reveal_strlit("منفصل");
    reveal_strlit("مجموعة_فرعية");
    reveal_strlit("مجموعة_فوق");
    reveal_strlit("فرق_متماثل");
    reveal_strlit("فرق_متماثل_حدث");
    reveal_strlit("اتحاد");
    reveal_strlit("كبر");
    reveal_strlit("صغر");
    reveal_strlit("حرف_الأول");
    reveal_strlit("طوى");
    reveal_strlit("وسط");
    reveal_strlit("رمز");
    reveal_strlit("ينتهي_ب");
    reveal_strlit("يبدأ_ب");
    reveal_strlit("وسع_الجداول");
    reveal_strlit("ابحث");
    reveal_strlit("ابحث_من_آخر");
    reveal_strlit("موقع_من_آخر");
    reveal_strlit("نسق");
    reveal_strlit("نسق_من_قاموس");
    reveal_strlit("هل_حروف");
    reveal_strlit("هل_حروف_ورقام");
    reveal_strlit("هل_أسكي");
    reveal_strlit("هل_عشري");
    reveal_strlit("هل_رقم");
    reveal_strlit("هل_رقمي");
    reveal_strlit("هل_معرف");
    reveal_strlit("هل_صغار");
    reveal_strlit("هل_كبار");
    reveal_strlit("هل_قابل_للطباعة");
    reveal_strlit("هل_مسافة");
    reveal_strlit("هل_عناوين");
    reveal_strlit("اربط");
    reveal_strlit("برر_يسار");
    reveal_strlit("برر_يمين");
    reveal_strlit("جرد");
    reveal_strlit("جرد_يسار");
    reveal_strlit("جرد_يمين");
    reveal_strlit("جهز_ترجمة");
    reveal_strlit("اقتسم");
    reveal_strlit("اقتسم_من_آخر");
    reveal_strlit("احذف_بادئة");
    reveal_strlit("احذف_لاحقة");
    reveal_strlit("استبدل");
    reveal_strlit("قسم");
    reveal_strlit("قسم_من_آخر");
    reveal_strlit("قسم_الأسطر");
    reveal_strlit("بدل_الحالة");
    reveal_strlit("بعناوين");
    reveal_strlit("ترجم");
    reveal_strlit("املأ_اصفار");
    reveal_strlit("فك_رمز");
    reveal_strlit("من_ست_عشري");
    reveal_strlit("ست_عشري");
    reveal_strlit("__التهيئة__");
    assert forall|k: int| 0 <= k < METHODS@.len() implies has_arabic(#[trigger] METHODS@[k].0@) by {
        if k == 0 {
            assert(in_arabic_block(METHODS@[k].0@[0]));
        } else if k == 1 {
            assert(in_arabic_block(METHODS@[k].0@[0]));
        } else if k == 2 {
            assert(in_arabic_block(METHODS@[k].0@[0]));
        } else if k == 3 {
            assert(in_arabic_block(METHODS@[k].0@[0]));
        } else if k == 4 {
            assert(in_arabic_block(METHODS@[k].0@[0]));
        } else if k == 5 {
            assert(in_arabic_block(METHODS@[k].0@[0]));
        } else if k == 6 {
            assert(in_arabic_block(METHODS@[k].0@[0]));
        } else if k == 7 {
            assert(in_arabic_block(METHODS@[k].0@[0]));
        } else if k == 8 {
            assert(in_arabic_block(METHODS@[k].0@[0]));
        } else if k == 9 {
            assert(in_arabic_block(METHODS@[k].0@[0]));
        } else if k == 10 {
            assert(in_arabic_block(METHODS@[k].0@[0]));
        } else if k == 11 {
            assert(in_arabic_block(METHODS@[k].0@[0]));
        } else if k == 12 {
            assert(in_arabic_block(METHODS@[k].0@[0]));
        } else if k == 13 {
            assert(in_arabic_block(METHODS@[k].0@[0]));
        } else if k == 14 {
            assert(in_arabic_block(METHODS@[k].0@[0]));
        } else if k == 15 {
            assert(in_arabic_block(METHODS@[k].0@[0]));
        } else if k == 16 {
            assert(in_arabic_block(METHODS@[k].0@[0]));
        } else if k == 17 {
            assert(in_arabic_block(METHODS@[k].0@[0]));
        } else if k == 18 {
            assert(in_arabic_block(METHODS@[k].0@[0]));
        } else if k == 19 {
            assert(in_arabic_block(METHODS@[k].0@[0]));
        } else if k == 20 {
            assert(in_arabic_block(METHODS@[k].0@[0]));
        } else if k == 21 {
            assert(in_arabic_block(METHODS@[k].0@[0]));
        } else if k == 22 {
            assert(in_arabic_block(METHODS@[k].0@[0]));
        } else if k == 23 {
            assert(in_arabic_block(METHODS@[k].0@[0]));
        } else if k == 24 {
            assert(in_arabic_block(METHODS@[k].0@[0]));
        } else if k == 25 {
            assert(in_arabic_block(METHODS@[k].0@[0]));
        } else if k == 26 {
            assert(in_arabic_block(METHODS@[k].0@[0]));
        } else if k == 27 {
            assert(in_arabic_block(METHODS@[k].0@[0]));
        } else if k == 28 {
            assert(in_arabic_block(METHODS@[k].0@[0]));
        } else if k == 29 {
            assert(in_arabic_block(METHODS@[k].0@[0]));
        } else if k == 30 {
            assert(in_arabic_block(METHODS@[k].0@[0]));
        } else if k == 31 {
            assert(in_arabic_block(METHODS@[k].0@[0]));
        } else if k == 32 {
            assert(in_arabic_block(METHODS@[k].0@[0]));
        } else if k == 33 {
            assert(in_arabic_block(METHODS@[k].0@[0]));
        } else if k == 34 {
            assert(in_arabic_block(METHODS@[k].0@[0]));
        } else if k == 35 {
            assert(in_arabic_block(METHODS@[k].0@[0]));
        } else if k == 36 {
            assert(in_arabic_block(METHODS@[k].0@[0]));
        } else if k == 37 {
            assert(in_arabic_block(METHODS@[k].0@[0]));
        } else if k == 38 {
            assert(in_arabic_block(METHODS@[k].0@[0]));
        } else if k == 39 {
            assert(in_arabic_block(METHODS@[k].0@[0]));
        } else if k == 40 {
            assert(in_arabic_block(METHODS@[k].0@[0]));
        } else if k == 41 {
            assert(in_arabic_block(METHODS@[k].0@[0]));
        } else if k == 42 {
            assert(in_arabic_block(METHODS@[k].0@[0]));
        } else if k == 43 {
            assert(in_arabic_block(METHODS@[k].0@[0]));
        } else if k == 44 {
            assert(in_arabic_block(METHODS@[k].0@[0]));
        } else if k == 45 {
            assert(in_arabic_block(METHODS@[k].0@[0]));
        } else if k == 46 {
            assert(in_arabic_block(METHODS@[k].0@[0]));
        } else if k == 47 {
            assert(in_arabic_block(METHODS@[k].0@[0]));
        } else if k == 48 {
            assert(in_arabic_block(METHODS@[k].0@[0]));
        } else if k == 49 {
            assert(in_arabic_block(METHODS@[k].0@[0]));
        } else if k == 50 {
            assert(in_arabic_block(METHODS@[k].0@[0]));
        } else if k == 51 {
            assert(in_arabic_block(METHODS@[k].0@[0]));
        } else if k == 52 {
            assert(in_arabic_block(METHODS@[k].0@[0]));
        } else if k == 53 {
            assert(in_arabic_block(METHODS@[k].0@[0]));
        } else if k == 54 {
            assert(in_arabic_block(METHODS@[k].0@[0]));
        } else if k == 55 {
            assert(in_arabic_block(METHODS@[k].0@[0]));
        } else if k == 56 {
            assert(in_arabic_block(METHODS@[k].0@[0]));
        } else if k == 57 {
            assert(in_arabic_block(METHODS@[k].0@[0]));
        } else if k == 58 {
            assert(in_arabic_block(METHODS@[k].0@[0]));
        } else if k == 59 {
            assert(in_arabic_block(METHODS@[k].0@[0]));
        } else if k == 60 {
            assert(in_arabic_block(METHODS@[k].0@[0]));
        } else if k == 61 {
            assert(in_arabic_block(METHODS@[k].0@[0]));
        } else if k == 62 {
            assert(in_arabic_block(METHODS@[k].0@[0]));
        } else if k == 63 {
            assert(in_arabic_block(METHODS@[k].0@[0]));
        } else if k == 64 {
            assert(in_arabic_block(METHODS@[k].0@[0]));
        } else if k == 65 {
            assert(in_arabic_block(METHODS@[k].0@[0]));
        } else if k == 66 {
            assert(in_arabic_block(METHODS@[k].0@[0]));
        } else if k == 67 {
            assert(in_arabic_block(METHODS@[k].0@[0]));
        } else if k == 68 {
            assert(in_arabic_block(METHODS@[k].0@[0]));
        } else if k == 69 {
            assert(in_arabic_block(METHODS@[k].0@[0]));
        } else if k == 70 {
            assert(in_arabic_block(METHODS@[k].0@[0]));
        } else if k == 71 {
            assert(in_arabic_block(METHODS@[k].0@[0]));
        } else if k == 72 {
            assert(in_arabic_block(METHODS@[k].0@[0]));
        } else if k == 73 {
            assert(in_arabic_block(METHODS@[k].0@[0]));
        } else if k == 74 {
            assert(in_arabic_block(METHODS@[k].0@[0]));
        } else if k == 75 {
            assert(in_arabic_block(METHODS@[k].0@[0]));
        } else if k == 76 {
            assert(in_arabic_block(METHODS@[k].0@[0]));
        } else if k == 77 {
            assert(in_arabic_block(METHODS@[k].0@[0]));
        } else if k == 78 {
            assert(in_arabic_block(METHODS@[k].0@[0]));
        } else if k == 79 {
            assert(in_arabic_block(METHODS@[k].0@[2]));
        }
    }
}

/// Every key of `MODULES` holds an Arabic character.
proof fn lemma_modules_keys_arabic()
    ensures
        keys_arabic(MODULES@),
{
    reveal_strlit("معطيات_الصنوف");
    reveal_strlit("تصنيف");
    assert forall|k: int| 0 <= k < MODULES@.len() implies has_arabic(#[trigger] MODULES@[k].0@) by {
        if k == 0 {
            assert(in_arabic_block(MODULES@[k].0@[0]));
        } else if k == 1 {
            assert(in_arabic_block(MODULES@[k].0@[0]));
        }
    }
}

/// Every key of `NAMES` holds an Arabic character.
proof fn lemma_names_keys_arabic()
    ensures
        keys_arabic(NAMES@),
{
    reveal_strlit("معطيات_الصنف");
    reveal_strlit("أي_نوع");
    reveal_strlit("الكل__");
    reveal_strlit("__الكل__");
    reveal_strlit("الاسم__");
    reveal_strlit("__الاسم__");
    reveal_strlit("__التهيئة__");
    assert forall|k: int| 0 <= k < NAMES@.len() implies has_arabic(#[trigger] NAMES@[k].0@) by {
        if k == 0 {
            assert(in_arabic_block(NAMES@[k].0@[0]));
        } else if k == 1 {
            assert(in_arabic_block(NAMES@[k].0@[0]));
        } else if k == 2 {
            assert(in_arabic_block(NAMES@[k].0@[0]));
        } else if k == 3 {
            assert(in_arabic_block(NAMES@[k].0@[2]));
        } else if k == 4 {
            assert(in_arabic_block(NAMES@[k].0@[0]));
        } else if k == 5 {
            assert(in_arabic_block(NAMES@[k].0@[2]));
        } else if k == 6 {
            assert(in_arabic_block(NAMES@[k].0@[2]));
        }
    }
}

/// Every key of the keyword, method, module and library-name tables holds an
/// Arabic character: Arabic spellings are an addition, so a word written
/// without Arabic characters (an English word among them) is never looked up
/// into something else.
pub proof fn law_table_keys_are_arabic()
    ensures
        keys_arabic(KEYWORDS@),
        keys_arabic(METHODS@),
        keys_arabic(MODULES@),
        keys_arabic(NAMES@),
{
    lemma_keywords_keys_arabic();
    lemma_methods_keys_arabic();
    lemma_modules_keys_arabic();
    lemma_names_keys_arabic();
}

/// The shape of a table entry that the method law relies on: a key that
/// does not start with a digit, and a Python name that starts with an ASCII
/// character.
pub open spec fn entry_shape(e: (&'static str, &'static str)) -> bool {
    &&& e.0@.len() > 0
    &&& !spec_is_arabic_digit(e.0@[0])
    &&& e.1@.len() > 0
    &&& (e.1@[0] as u32) < 128
}

/// Every entry of `METHODS` maps a key that does not start with a digit to
/// a name that starts with an ASCII character.
pub(crate) proof fn lemma_methods_entries()
    ensures
        forall|k: int| 0 <= k < METHODS@.len() ==> entry_shape(#[trigger] METHODS@[k]),
{
    reveal_strlit("أضف");
    reveal_strlit("append");
    reveal_strlit("امسح");
    reveal_strlit("clear");
    reveal_strlit("انسخ");
    reveal_strlit("copy");
    reveal_strlit("عد");
    reveal_strlit("count");
    reveal_strlit("مدد");
    reveal_strlit("extend");
    reveal_strlit("موقع");
    reveal_strlit("index");
    reveal_strlit("ادرج");
    reveal_strlit("insert");
    reveal_strlit("اخرج");
    reveal_strlit("pop");
    reveal_strlit("احذف");
    reveal_strlit("remove");
    reveal_strlit("عكس");
    reveal_strlit("reverse");
    reveal_strlit("رتب");
    reveal_strlit("sort");
    reveal_strlit("من_مفاتيح");
    reveal_strlit("fromkeys");
    reveal_strlit("اجلب");
    reveal_strlit("get");
    reveal_strlit("عناصر");
    reveal_strlit("items");
    reveal_strlit("مفاتيح");
    reveal_strlit("keys");
    reveal_strlit("قيم");
    reveal_strlit("values");
    reveal_strlit("اخرج_آخر");
    reveal_strlit("popitem");
    reveal_strlit("عين_مبدئي");
    reveal_strlit("setdefault");
    reveal_strlit("دمج");
    reveal_strlit("update");
    reveal_strlit("ضم");
    reveal_strlit("add");
    reveal_strlit("فرق");
    reveal_strlit("difference");
    reveal_strlit("فرق_حدث");
    reveal_strlit("difference_update");
    reveal_strlit("تجاهل");
    reveal_strlit("discard");
    reveal_strlit("تقاطع");
    reveal_strlit("intersection");
    reveal_strlit("تقاطع_حدث");
    reveal_strlit("intersection_update");
    reveal_strlit("منفصل");
    reveal_strlit("isdisjoint");
    reveal_strlit("مجموعة_فرعية");
    reveal_strlit("issubset");
    reveal_strlit("مجموعة_فوق");
    reveal_strlit("issuperset");
    reveal_strlit("فرق_متماثل");
    reveal_strlit("symmetric_difference");
    reveal_strlit("فرق_متماثل_حدث");
    reveal_strlit("symmetric_difference_update");
    reveal_strlit("اتحاد");
    reveal_strlit("union");
    reveal_strlit("كبر");
    reveal_strlit("upper");
    reveal_strlit("صغر");
    reveal_strlit("lower");
    reveal_strlit("حرف_الأول");
    reveal_strlit("capitalize");
    reveal_strlit("طوى");
    reveal_strlit("casefold");
    reveal_strlit("وسط");
    reveal_strlit("center");
    reveal_strlit("رمز");
    reveal_strlit("encode");
    reveal_strlit("ينتهي_ب");
    reveal_strlit("endswith");
    reveal_strlit("يبدأ_ب");
    reveal_strlit("startswith");
    reveal_strlit("وسع_الجداول");
    reveal_strlit("expandtabs");
    reveal_strlit("ابحث");
    reveal_strlit("find");
    reveal_strlit("ابحث_من_آخر");
    reveal_strlit("rfind");
    reveal_strlit("موقع_من_آخر");
    reveal_strlit("rindex");
    reveal_strlit("نسق");
    reveal_strlit("format");
    reveal_strlit("نسق_من_قاموس");
    reveal_strlit("format_map");
    reveal_strlit("هل_حروف");
    reveal_strlit("isalpha");
    reveal_strlit("هل_حروف_ورقام");
    reveal_strlit("isalnum");
    reveal_strlit("هل_أسكي");
    reveal_strlit("isascii");
    reveal_strlit("هل_عشري");
    reveal_strlit("isdecimal");
    reveal_strlit("هل_رقم");
    reveal_strlit("isdigit");
    reveal_strlit("هل_رقمي");
    reveal_strlit("isnumeric");
    reveal_strlit("هل_معرف");
    reveal_strlit("isidentifier");
    reveal_strlit("هل_صغار");
    reveal_strlit("islower");
    reveal_strlit("هل_كبار");
    reveal_strlit("isupper");
    reveal_strlit("هل_قابل_للطباعة");
    reveal_strlit("isprintable");
    reveal_strlit("هل_مسافة");
    reveal_strlit("isspace");
    reveal_strlit("هل_عناوين");
    reveal_strlit("istitle");
    reveal_strlit("اربط");
    reveal_strlit("join");
    reveal_strlit("برر_يسار");
    reveal_strlit("ljust");
    reveal_strlit("برر_يمين");
    reveal_strlit("rjust");
    reveal_strlit("جرد");
    reveal_strlit("strip");
    reveal_strlit("جرد_يسار");
    reveal_strlit("lstrip");
    reveal_strlit("جرد_يمين");
    reveal_strlit("rstrip");
    reveal_strlit("جهز_ترجمة");
    reveal_strlit("maketrans");
    reveal_strlit("اقتسم");
    reveal_strlit("partition");
    reveal_strlit("اقتسم_من_آخر");
    reveal_strlit("rpartition");
    reveal_strlit("احذف_بادئة");
    reveal_strlit("removeprefix");
    reveal_strlit("احذف_لاحقة");
    reveal_strlit("removesuffix");
    reveal_strlit("استبدل");
    reveal_strlit("replace");
    reveal_strlit("قسم");
    reveal_strlit("split");
    reveal_strlit("قسم_من_آخر");
    reveal_strlit("rsplit");
    reveal_strlit("قسم_الأسطر");
    reveal_strlit("splitlines");
    reveal_strlit("بدل_الحالة");
    reveal_strlit("swapcase");
    reveal_strlit("بعناوين");
    reveal_strlit("title");
    reveal_strlit("ترجم");
    reveal_strlit("translate");
    reveal_strlit("املأ_اصفار");
    reveal_strlit("zfill");
    reveal_strlit("فك_رمز");
    reveal_strlit("decode");
    reveal_strlit("من_ست_عشري");
    reveal_strlit("fromhex");
    reveal_strlit("ست_عشري");
    reveal_strlit("hex");
    reveal_strlit("__التهيئة__");
    reveal_strlit("__init__");
    assert forall|k: int| 0 <= k < METHODS@.len() implies entry_shape(#[trigger] METHODS@[k]) by {
        if k == 0 {
            assert(!spec_is_arabic_digit(METHODS@[k].0@[0]));
            assert((METHODS@[k].1@[0] as u32) < 128);
        } else if k == 1 {
            assert(!spec_is_arabic_digit(METHODS@[k].0@[0]));
            assert((METHODS@[k].1@[0] as u32) < 128);
        } else if k == 2 {
            assert(!spec_is_arabic_digit(METHODS@[k].0@[0]));
            assert((METHODS@[k].1@[0] as u32) < 128);
        } else if k == 3 {
            assert(!spec_is_arabic_digit(METHODS@[k].0@[0]));
            assert((METHODS@[k].1@[0] as u32) < 128);
        } else if k == 4 {
            assert(!spec_is_arabic_digit(METHODS@[k].0@[0]));
            assert((METHODS@[k].1@[0] as u32) < 128);
        } else if k == 5 {
            assert(!spec_is_arabic_digit(METHODS@[k].0@[0]));
            assert((METHODS@[k].1@[0] as u32) < 128);
        } else if k == 6 {
            assert(!spec_is_arabic_digit(METHODS@[k].0@[0]));
            assert((METHODS@[k].1@[0] as u32) < 128);
        } else if k == 7 {
            assert(!spec_is_arabic_digit(METHODS@[k].0@[0]));
            assert((METHODS@[k].1@[0] as u32) < 128);
        } else if k == 8 {
            assert(!spec_is_arabic_digit(METHODS@[k].0@[0]));
            assert((METHODS@[k].1@[0] as u32) < 128);
        } else if k == 9 {
            assert(!spec_is_arabic_digit(METHODS@[k].0@[0]));
            assert((METHODS@[k].1@[0] as u32) < 128);
        } else if k == 10 {
            assert(!spec_is_arabic_digit(METHODS@[k].0@[0]));
            assert((METHODS@[k].1@[0] as u32) < 128);
        } else if k == 11 {
            assert(!spec_is_arabic_digit(METHODS@[k].0@[0]));
            assert((METHODS@[k].1@[0] as u32) < 128);
        } else if k == 12 {
            assert(!spec_is_arabic_digit(METHODS@[k].0@[0]));
            assert((METHODS@[k].1@[0] as u32) < 128);
        } else if k == 13 {
            assert(!spec_is_arabic_digit(METHODS@[k].0@[0]));
            assert((METHODS@[k].1@[0] as u32) < 128);
        } else if k == 14 {
            assert(!spec_is_arabic_digit(METHODS@[k].0@[0]));
            assert((METHODS@[k].1@[0] as u32) < 128);
        } else if k == 15 {
            assert(!spec_is_arabic_digit(METHODS@[k].0@[0]));
            assert((METHODS@[k].1@[0] as u32) < 128);
        } else if k == 16 {
            assert(!spec_is_arabic_digit(METHODS@[k].0@[0]));
            assert((METHODS@[k].1@[0] as u32) < 128);
        } else if k == 17 {
            assert(!spec_is_arabic_digit(METHODS@[k].0@[0]));
            assert((METHODS@[k].1@[0] as u32) < 128);
        } else if k == 18 {
            assert(!spec_is_arabic_digit(METHODS@[k].0@[0]));
            assert((METHODS@[k].1@[0] as u32) < 128);
        } else if k == 19 {
            assert(!spec_is_arabic_digit(METHODS@[k].0@[0]));
            assert((METHODS@[k].1@[0] as u32) < 128);
        } else if k == 20 {
            assert(!spec_is_arabic_digit(METHODS@[k].0@[0]));
            assert((METHODS@[k].1@[0] as u32) < 128);
        } else if k == 21 {
            assert(!spec_is_arabic_digit(METHODS@[k].0@[0]));
            assert((METHODS@[k].1@[0] as u32) < 128);
        } else if k == 22 {
            assert(!spec_is_arabic_digit(METHODS@[k].0@[0]));
            assert((METHODS@[k].1@[0] as u32) < 128);
        } else if k == 23 {
            assert(!spec_is_arabic_digit(METHODS@[k].0@[0]));
            assert((METHODS@[k].1@[0] as u32) < 128);
        } else if k == 24 {
            assert(!spec_is_arabic_digit(METHODS@[k].0@[0]));
            assert((METHODS@[k].1@[0] as u32) < 128);
        } else if k == 25 {
            assert(!spec_is_arabic_digit(METHODS@[k].0@[0]));
            assert((METHODS@[k].1@[0] as u32) < 128);
        } else if k == 26 {
            assert(!spec_is_arabic_digit(METHODS@[k].0@[0]));
            assert((METHODS@[k].1@[0] as u32) < 128);
        } else if k == 27 {
            assert(!spec_is_arabic_digit(METHODS@[k].0@[0]));
            assert((METHODS@[k].1@[0] as u32) < 128);
        } else if k == 28 {
            assert(!spec_is_arabic_digit(METHODS@[k].0@[0]));
            assert((METHODS@[k].1@[0] as u32) < 128);
        } else if k == 29 {
            assert(!spec_is_arabic_digit(METHODS@[k].0@[0]));
            assert((METHODS@[k].1@[0] as u32) < 128);
        } else if k == 30 {
            assert(!spec_is_arabic_digit(METHODS@[k].0@[0]));
            assert((METHODS@[k].1@[0] as u32) < 128);
        } else if k == 31 {
            assert(!spec_is_arabic_digit(METHODS@[k].0@[0]));
            assert((METHODS@[k].1@[0] as u32) < 128);
        } else if k == 32 {
            assert(!spec_is_arabic_digit(METHODS@[k].0@[0]));
            assert((METHODS@[k].1@[0] as u32) < 128);
        } else if k == 33 {
            assert(!spec_is_arabic_digit(METHODS@[k].0@[0]));
            assert((METHODS@[k].1@[0] as u32) < 128);
        } else if k == 34 {
            assert(!spec_is_arabic_digit(METHODS@[k].0@[0]));
            assert((METHODS@[k].1@[0] as u32) < 128);
        } else if k == 35 {
            assert(!spec_is_arabic_digit(METHODS@[k].0@[0]));
            assert((METHODS@[k].1@[0] as u32) < 128);
        } else if k == 36 {
            assert(!spec_is_arabic_digit(METHODS@[k].0@[0]));
            assert((METHODS@[k].1@[0] as u32) < 128);
        } else if k == 37 {
            assert(!spec_is_arabic_digit(METHODS@[k].0@[0]));
            assert((METHODS@[k].1@[0] as u32) < 128);
        } else if k == 38 {
            assert(!spec_is_arabic_digit(METHODS@[k].0@[0]));
            assert((METHODS@[k].1@[0] as u32) < 128);
        } else if k == 39 {
            assert(!spec_is_arabic_digit(METHODS@[k].0@[0]));
            assert((METHODS@[k].1@[0] as u32) < 128);
        } else if k == 40 {
            assert(!spec_is_arabic_digit(METHODS@[k].0@[0]));
            assert((METHODS@[k].1@[0] as u32) < 128);
        } else if k == 41 {
            assert(!spec_is_arabic_digit(METHODS@[k].0@[0]));
            assert((METHODS@[k].1@[0] as u32) < 128);
        } else if k == 42 {
            assert(!spec_is_arabic_digit(METHODS@[k].0@[0]));
            assert((METHODS@[k].1@[0] as u32) < 128);
        } else if k == 43 {
            assert(!spec_is_arabic_digit(METHODS@[k].0@[0]));
            assert((METHODS@[k].1@[0] as u32) < 128);
        } else if k == 44 {
            assert(!spec_is_arabic_digit(METHODS@[k].0@[0]));
            assert((METHODS@[k].1@[0] as u32) < 128);
        } else if k == 45 {
            assert(!spec_is_arabic_digit(METHODS@[k].0@[0]));
            assert((METHODS@[k].1@[0] as u32) < 128);
        } else if k == 46 {
            assert(!spec_is_arabic_digit(METHODS@[k].0@[0]));
            assert((METHODS@[k].1@[0] as u32) < 128);
        } else if k == 47 {
            assert(!spec_is_arabic_digit(METHODS@[k].0@[0]));
            assert((METHODS@[k].1@[0] as u32) < 128);
        } else if k == 48 {
            assert(!spec_is_arabic_digit(METHODS@[k].0@[0]));
            assert((METHODS@[k].1@[0] as u32) < 128);
        } else if k == 49 {
            assert(!spec_is_arabic_digit(METHODS@[k].0@[0]));
            assert((METHODS@[k].1@[0] as u32) < 128);
        } else if k == 50 {
            assert(!spec_is_arabic_digit(METHODS@[k].0@[0]));
            assert((METHODS@[k].1@[0] as u32) < 128);
        } else if k == 51 {
            assert(!spec_is_arabic_digit(METHODS@[k].0@[0]));
            assert((METHODS@[k].1@[0] as u32) < 128);
        } else if k == 52 {
            assert(!spec_is_arabic_digit(METHODS@[k].0@[0]));
            assert((METHODS@[k].1@[0] as u32) < 128);
        } else if k == 53 {
            assert(!spec_is_arabic_digit(METHODS@[k].0@[0]));
            assert((METHODS@[k].1@[0] as u32) < 128);
        } else if k == 54 {
            assert(!spec_is_arabic_digit(METHODS@[k].0@[0]));
            assert((METHODS@[k].1@[0] as u32) < 128);
        } else if k == 55 {
            assert(!spec_is_arabic_digit(METHODS@[k].0@[0]));
            assert((METHODS@[k].1@[0] as u32) < 128);
        } else if k == 56 {
            assert(!spec_is_arabic_digit(METHODS@[k].0@[0]));
            assert((METHODS@[k].1@[0] as u32) < 128);
        } else if k == 57 {
            assert(!spec_is_arabic_digit(METHODS@[k].0@[0]));
            assert((METHODS@[k].1@[0] as u32) < 128);
        } else if k == 58 {
            assert(!spec_is_arabic_digit(METHODS@[k].0@[0]));
            assert((METHODS@[k].1@[0] as u32) < 128);
        } else if k == 59 {
            assert(!spec_is_arabic_digit(METHODS@[k].0@[0]));
            assert((METHODS@[k].1@[0] as u32) < 128);
        } else if k == 60 {
            assert(!spec_is_arabic_digit(METHODS@[k].0@[0]));
            assert((METHODS@[k].1@[0] as u32) < 128);
        } else if k == 61 {
            assert(!spec_is_arabic_digit(METHODS@[k].0@[0]));
            assert((METHODS@[k].1@[0] as u32) < 128);
        } else if k == 62 {
            assert(!spec_is_arabic_digit(METHODS@[k].0@[0]));
            assert((METHODS@[k].1@[0] as u32) < 128);
        } else if k == 63 {
            assert(!spec_is_arabic_digit(METHODS@[k].0@[0]));
            assert((METHODS@[k].1@[0] as u32) < 128);
        } else if k == 64 {
            assert(!spec_is_arabic_digit(METHODS@[k].0@[0]));
            assert((METHODS@[k].1@[0] as u32) < 128);
        } else if k == 65 {
            assert(!spec_is_arabic_digit(METHODS@[k].0@[0]));
            assert((METHODS@[k].1@[0] as u32) < 128);
        } else if k == 66 {
            assert(!spec_is_arabic_digit(METHODS@[k].0@[0]));
            assert((METHODS@[k].1@[0] as u32) < 128);
        } else if k == 67 {
            assert(!spec_is_arabic_digit(METHODS@[k].0@[0]));
            assert((METHODS@[k].1@[0] as u32) < 128);
        } else if k == 68 {
            assert(!spec_is_arabic_digit(METHODS@[k].0@[0]));
            assert((METHODS@[k].1@[0] as u32) < 128);
        } else if k == 69 {
            assert(!spec_is_arabic_digit(METHODS@[k].0@[0]));
            assert((METHODS@[k].1@[0] as u32) < 128);
        } else if k == 70 {
            assert(!spec_is_arabic_digit(METHODS@[k].0@[0]));
            assert((METHODS@[k].1@[0] as u32) < 128);
        } else if k == 71 {
            assert(!spec_is_arabic_digit(METHODS@[k].0@[0]));
            assert((METHODS@[k].1@[0] as u32) < 128);
        } else if k == 72 {
            assert(!spec_is_arabic_digit(METHODS@[k].0@[0]));
            assert((METHODS@[k].1@[0] as u32) < 128);
        } else if k == 73 {
            assert(!spec_is_arabic_digit(METHODS@[k].0@[0]));
            assert((METHODS@[k].1@[0] as u32) < 128);
        } else if k == 74 {
            assert(!spec_is_arabic_digit(METHODS@[k].0@[0]));
            assert((METHODS@[k].1@[0] as u32) < 128);
        } else if k == 75 {
            assert(!spec_is_arabic_digit(METHODS@[k].0@[0]));
            assert((METHODS@[k].1@[0] as u32) < 128);
        } else if k == 76 {
            assert(!spec_is_arabic_digit(METHODS@[k].0@[0]));
            assert((METHODS@[k].1@[0] as u32) < 128);
        } else if k == 77 {
            assert(!spec_is_arabic_digit(METHODS@[k].0@[0]));
            assert((METHODS@[k].1@[0] as u32) < 128);
        } else if k == 78 {
            assert(!spec_is_arabic_digit(METHODS@[k].0@[0]));
            assert((METHODS@[k].1@[0] as u32) < 128);
        } else if k == 79 {
            assert(!spec_is_arabic_digit(METHODS@[k].0@[0]));
            assert((METHODS@[k].1@[0] as u32) < 128);
        }
    }
}

/// Every entry of `KEYWORDS` maps a key that does not start with a digit to
/// a name that starts with an ASCII character.
pub(crate) proof fn lemma_keywords_entries()
    ensures
        forall|k: int| 0 <= k < KEYWORDS@.len() ==> entry_shape(#[trigger] KEYWORDS@[k]),
{
    reveal_strlit("و");
    reveal_strlit("and");
    reveal_strlit("باسم");
    reveal_strlit("as");
    reveal_strlit("تحقق");
    reveal_strlit("assert");
    reveal_strlit("لازمني");
    reveal_strlit("async");
    reveal_strlit("انتظر");
    reveal_strlit("await");
    reveal_strlit("توقف");
    reveal_strlit("break");
    reveal_strlit("حالة");
    reveal_strlit("case");
    reveal_strlit("صنف");
    reveal_strlit("class");
    reveal_strlit("استمر");
    reveal_strlit("continue");
    reveal_strlit("عرف");
    reveal_strlit("def");
    reveal_strlit("احذف");
    reveal_strlit("del");
    reveal_strlit("وإذا");
    reveal_strlit("elif");
    reveal_strlit("وإلا");
    reveal_strlit("else");
    reveal_strlit("التقط");
    reveal_strlit("except");
    reveal_strlit("خاطئ");
    reveal_strlit("False");
    reveal_strlit("ختاما");
    reveal_strlit("finally");
    reveal_strlit("لكل");
    reveal_strlit("for");
    reveal_strlit("من");
    reveal_strlit("from");
    reveal_strlit("عام");
    reveal_strlit("global");
    reveal_strlit("إذا");
    reveal_strlit("if");
    reveal_strlit("استورد");
    reveal_strlit("import");
    reveal_strlit("ضمن");
    reveal_strlit("in");
    reveal_strlit("هو");
    reveal_strlit("is");
    reveal_strlit("لامبدا");
    reveal_strlit("lambda");
    reveal_strlit("عدم");
    reveal_strlit("None");
    reveal_strlit("لامحلي");
    reveal_strlit("nonlocal");
    reveal_strlit("ليس");
    reveal_strlit("not");
    reveal_strlit("أو");
    reveal_strlit("or");
    reveal_strlit("تجاوز");
    reveal_strlit("pass");
    reveal_strlit("ارم");
    reveal_strlit("raise");
    reveal_strlit("أعد");
    reveal_strlit("return");
    reveal_strlit("صحيح");
    reveal_strlit("True");
    reveal_strlit("جرب");
    reveal_strlit("try");
    reveal_strlit("نوع");
    reveal_strlit("type");
    reveal_strlit("طالما");
    reveal_strlit("while");
    reveal_strlit("مع");
    reveal_strlit("with");
    reveal_strlit("انتج");
    reveal_strlit("yield");
    reveal_strlit("طابق");
    reveal_strlit("match");
    assert forall|k: int| 0 <= k < KEYWORDS@.len() implies entry_shape(#[trigger] KEYWORDS@[k]) by {
        if k == 0 {
            assert(!spec_is_arabic_digit(KEYWORDS@[k].0@[0]));
            assert((KEYWORDS@[k].1@[0] as u32) < 128);
        } else if k == 1 {
            assert(!spec_is_arabic_digit(KEYWORDS@[k].0@[0]));
            assert((KEYWORDS@[k].1@[0] as u32) < 128);
        } else if k == 2 {
            assert(!spec_is_arabic_digit(KEYWORDS@[k].0@[0]));
            assert((KEYWORDS@[k].1@[0] as u32) < 128);
        } else if k == 3 {
            assert(!spec_is_arabic_digit(KEYWORDS@[k].0@[0]));
            assert((KEYWORDS@[k].1@[0] as u32) < 128);
        } else if k == 4 {
            assert(!spec_is_arabic_digit(KEYWORDS@[k].0@[0]));
            assert((KEYWORDS@[k].1@[0] as u32) < 128);
        } else if k == 5 {
            assert(!spec_is_arabic_digit(KEYWORDS@[k].0@[0]));
            assert((KEYWORDS@[k].1@[0] as u32) < 128);
        } else if k == 6 {
            assert(!spec_is_arabic_digit(KEYWORDS@[k].0@[0]));
            assert((KEYWORDS@[k].1@[0] as u32) < 128);
        } else if k == 7 {
            assert(!spec_is_arabic_digit(KEYWORDS@[k].0@[0]));
            assert((KEYWORDS@[k].1@[0] as u32) < 128);
        } else if k == 8 {
            assert(!spec_is_arabic_digit(KEYWORDS@[k].0@[0]));
            assert((KEYWORDS@[k].1@[0] as u32) < 128);
        } else if k == 9 {
            assert(!spec_is_arabic_digit(KEYWORDS@[k].0@[0]));
            assert((KEYWORDS@[k].1@[0] as u32) < 128);
        } else if k == 10 {
            assert(!spec_is_arabic_digit(KEYWORDS@[k].0@[0]));
            assert((KEYWORDS@[k].1@[0] as u32) < 128);
        } else if k == 11 {
            assert(!spec_is_arabic_digit(KEYWORDS@[k].0@[0]));
            assert((KEYWORDS@[k].1@[0] as u32) < 128);
        } else if k == 12 {
            assert(!spec_is_arabic_digit(KEYWORDS@[k].0@[0]));
            assert((KEYWORDS@[k].1@[0] as u32) < 128);
        } else if k == 13 {
            assert(!spec_is_arabic_digit(KEYWORDS@[k].0@[0]));
            assert((KEYWORDS@[k].1@[0] as u32) < 128);
        } else if k == 14 {
            assert(!spec_is_arabic_digit(KEYWORDS@[k].0@[0]));
            assert((KEYWORDS@[k].1@[0] as u32) < 128);
        } else if k == 15 {
            assert(!spec_is_arabic_digit(KEYWORDS@[k].0@[0]));
            assert((KEYWORDS@[k].1@[0] as u32) < 128);
        } else if k == 16 {
            assert(!spec_is_arabic_digit(KEYWORDS@[k].0@[0]));
            assert((KEYWORDS@[k].1@[0] as u32) < 128);
        } else if k == 17 {
            assert(!spec_is_arabic_digit(KEYWORDS@[k].0@[0]));
            assert((KEYWORDS@[k].1@[0] as u32) < 128);
        } else if k == 18 {
            assert(!spec_is_arabic_digit(KEYWORDS@[k].0@[0]));
            assert((KEYWORDS@[k].1@[0] as u32) < 128);
        } else if k == 19 {
            assert(!spec_is_arabic_digit(KEYWORDS@[k].0@[0]));
            assert((KEYWORDS@[k].1@[0] as u32) < 128);
        } else if k == 20 {
            assert(!spec_is_arabic_digit(KEYWORDS@[k].0@[0]));
            assert((KEYWORDS@[k].1@[0] as u32) < 128);
        } else if k == 21 {
            assert(!spec_is_arabic_digit(KEYWORDS@[k].0@[0]));
            assert((KEYWORDS@[k].1@[0] as u32) < 128);
        } else if k == 22 {
            assert(!spec_is_arabic_digit(KEYWORDS@[k].0@[0]));
            assert((KEYWORDS@[k].1@[0] as u32) < 128);
        } else if k == 23 {
            assert(!spec_is_arabic_digit(KEYWORDS@[k].0@[0]));
            assert((KEYWORDS@[k].1@[0] as u32) < 128);
        } else if k == 24 {
            assert(!spec_is_arabic_digit(KEYWORDS@[k].0@[0]));
            assert((KEYWORDS@[k].1@[0] as u32) < 128);
        } else if k == 25 {
            assert(!spec_is_arabic_digit(KEYWORDS@[k].0@[0]));
            assert((KEYWORDS@[k].1@[0] as u32) < 128);
        } else if k == 26 {
            assert(!spec_is_arabic_digit(KEYWORDS@[k].0@[0]));
            assert((KEYWORDS@[k].1@[0] as u32) < 128);
        } else if k == 27 {
            assert(!spec_is_arabic_digit(KEYWORDS@[k].0@[0]));
            assert((KEYWORDS@[k].1@[0] as u32) < 128);
        } else if k == 28 {
            assert(!spec_is_arabic_digit(KEYWORDS@[k].0@[0]));
            assert((KEYWORDS@[k].1@[0] as u32) < 128);
        } else if k == 29 {
            assert(!spec_is_arabic_digit(KEYWORDS@[k].0@[0]));
            assert((KEYWORDS@[k].1@[0] as u32) < 128);
        } else if k == 30 {
            assert(!spec_is_arabic_digit(KEYWORDS@[k].0@[0]));
            assert((KEYWORDS@[k].1@[0] as u32) < 128);
        } else if k == 31 {
            assert(!spec_is_arabic_digit(KEYWORDS@[k].0@[0]));
            assert((KEYWORDS@[k].1@[0] as u32) < 128);
        } else if k == 32 {
            assert(!spec_is_arabic_digit(KEYWORDS@[k].0@[0]));
            assert((KEYWORDS@[k].1@[0] as u32) < 128);
        } else if k == 33 {
            assert(!spec_is_arabic_digit(KEYWORDS@[k].0@[0]));
            assert((KEYWORDS@[k].1@[0] as u32) < 128);
        } else if k == 34 {
            assert(!spec_is_arabic_digit(KEYWORDS@[k].0@[0]));
            assert((KEYWORDS@[k].1@[0] as u32) < 128);
        } else if k == 35 {
            assert(!spec_is_arabic_digit(KEYWORDS@[k].0@[0]));
            assert((KEYWORDS@[k].1@[0] as u32) < 128);
        } else if k == 36 {
            assert(!spec_is_arabic_digit(KEYWORDS@[k].0@[0]));
            assert((KEYWORDS@[k].1@[0] as u32) < 128);
        } else if k == 37 {
            assert(!spec_is_arabic_digit(KEYWORDS@[k].0@[0]));
            assert((KEYWORDS@[k].1@[0] as u32) < 128);
        }
    }
}

/// Every entry of `NAMES` maps a key that does not start with a digit to
/// a name that starts with an ASCII character.
pub(crate) proof fn lemma_names_entries()
    ensures
        forall|k: int| 0 <= k < NAMES@.len() ==> entry_shape(#[trigger] NAMES@[k]),
{
    reveal_strlit("معطيات_الصنف");
    reveal_strlit("dataclass");
    reveal_strlit("أي_نوع");
    reveal_strlit("Any");
    reveal_strlit("الكل__");
    reveal_strlit("__all__");
    reveal_strlit("__الكل__");
    reveal_strlit("الاسم__");
    reveal_strlit("__name__");
    reveal_strlit("__الاسم__");
    reveal_strlit("__التهيئة__");
    reveal_strlit("__init__");
    assert forall|k: int| 0 <= k < NAMES@.len() implies entry_shape(#[trigger] NAMES@[k]) by {
        if k == 0 {
            assert(!spec_is_arabic_digit(NAMES@[k].0@[0]));
            assert((NAMES@[k].1@[0] as u32) < 128);
        } else if k == 1 {
            assert(!spec_is_arabic_digit(NAMES@[k].0@[0]));
            assert((NAMES@[k].1@[0] as u32) < 128);
        } else if k == 2 {
            assert(!spec_is_arabic_digit(NAMES@[k].0@[0]));
            assert((NAMES@[k].1@[0] as u32) < 128);
        } else if k == 3 {
            assert(!spec_is_arabic_digit(NAMES@[k].0@[0]));
            assert((NAMES@[k].1@[0] as u32) < 128);
        } else if k == 4 {
            assert(!spec_is_arabic_digit(NAMES@[k].0@[0]));
            assert((NAMES@[k].1@[0] as u32) < 128);
        } else if k == 5 {
            assert(!spec_is_arabic_digit(NAMES@[k].0@[0]));
            assert((NAMES@[k].1@[0] as u32) < 128);
        } else if k == 6 {
            assert(!spec_is_arabic_digit(NAMES@[k].0@[0]));
            assert((NAMES@[k].1@[0] as u32) < 128);
        }
    }
}
/// A word found in a table of well-shaped entries, and the name it is found
/// under, start with no digit.
pub(crate) proof fn lemma_found_shape(table: Seq<(&'static str, &'static str)>, w: Seq<char>, p: Seq<char>)
    requires
        forall|k: int| 0 <= k < table.len() ==> entry_shape(#[trigger] table[k]),
        table_lookup(table, w) == Some(p),
    ensures
        w.len() > 0,
        !spec_is_arabic_digit(w[0]),
        p.len() > 0,
        !spec_is_arabic_digit(p[0]),
    decreases table.len(),
{
    assert(entry_shape(table[0]));
    if table[0].0@ != w {
        assert forall|k: int| 0 <= k < table.drop_first().len() implies entry_shape(
            #[trigger] table.drop_first()[k],
        ) by {
            assert(table.drop_first()[k] == table[k + 1]);
        }
        lemma_found_shape(table.drop_first(), w, p);
    }
}


/// A short fingerprint of a word: its length and its first and last
/// characters. Words with different fingerprints differ.
pub open spec fn fingerprint(w: Seq<char>) -> (nat, char, char) {
    (w.len(), w[0], w.last())
}

/// The fingerprints of the Arabic keywords.
spec fn keyword_key_print(f: (nat, char, char)) -> bool {
    f == (1nat, 'و', 'و')
        || f == (4nat, 'ب', 'م')
        || f == (4nat, 'ت', 'ق')
        || f == (6nat, 'ل', 'ي')
        || f == (5nat, 'ا', 'ر')
        || f == (4nat, 'ت', 'ف')
        || f == (4nat, 'ح', 'ة')
        || f == (3nat, 'ص', 'ف')
        || f == (5nat, 'ا', 'ر')
        || f == (3nat, 'ع', 'ف')
        || f == (4nat, 'ا', 'ف')
        || f == (4nat, 'و', 'ا')
        || f == (4nat, 'و', 'ا')
        || f == (5nat, 'ا', 'ط')
        || f == (4nat, 'خ', 'ئ')
        || f == (5nat, 'خ', 'ا')
        || f == (3nat, 'ل', 'ل')
        || f == (2nat, 'م', 'ن')
        || f == (3nat, 'ع', 'م')
        || f == (3nat, 'إ', 'ا')
        || f == (6nat, 'ا', 'د')
        || f == (3nat, 'ض', 'ن')
        || f == (2nat, 'ه', 'و')
        || f == (6nat, 'ل', 'ا')
        || f == (3nat, 'ع', 'م')
        || f == (6nat, 'ل', 'ي')
        || f == (3nat, 'ل', 'س')
        || f == (2nat, 'أ', 'و')
        || f == (5nat, 'ت', 'ز')
        || f == (3nat, 'ا', 'م')
        || f == (3nat, 'أ', 'د')
        || f == (4nat, 'ص', 'ح')
        || f == (3nat, 'ج', 'ب')
        || f == (3nat, 'ن', 'ع')
        || f == (5nat, 'ط', 'ا')
        || f == (2nat, 'م', 'ع')
        || f == (4nat, 'ا', 'ج')
        || f == (4nat, 'ط', 'ق')
}

/// The position in `KEYWORDS` of the Python keyword with fingerprint `f`,
/// or -1.
spec fn keyword_value_index(f: (nat, char, char)) -> int {
    if f == (3nat, 'a', 'd') {
        0
    } else if f == (2nat, 'a', 's') {
        1
    } else if f == (6nat, 'a', 't') {
        2
    } else if f == (5nat, 'a', 'c') {
        3
    } else if f == (5nat, 'a', 't') {
        4
    } else if f == (5nat, 'b', 'k') {
        5
    } else if f == (4nat, 'c', 'e') {
        6
    } else if f == (5nat, 'c', 's') {
        7
    } else if f == (8nat, 'c', 'e') {
        8
    } else if f == (3nat, 'd', 'f') {
        9
    } else if f == (3nat, 'd', 'l') {
        10
    } else if f == (4nat, 'e', 'f') {
        11
    } else if f == (4nat, 'e', 'e') {
        12
    } else if f == (6nat, 'e', 't') {
        13
    } else if f == (5nat, 'F', 'e') {
        14
    } else if f == (7nat, 'f', 'y') {
        15
    } else if f == (3nat, 'f', 'r') {
        16
    } else if f == (4nat, 'f', 'm') {
        17
    } else if f == (6nat, 'g', 'l') {
        18
    } else if f == (2nat, 'i', 'f') {
        19
    } else if f == (6nat, 'i', 't') {
        20
    } else if f == (2nat, 'i', 'n') {
        21
    } else if f == (2nat, 'i', 's') {
        22
    } else if f == (6nat, 'l', 'a') {
        23
    } else if f == (4nat, 'N', 'e') {
        24
    } else if f == (8nat, 'n', 'l') {
        25
    } else if f == (3nat, 'n', 't') {
        26
    } else if f == (2nat, 'o', 'r') {
        27
    } else if f == (4nat, 'p', 's') {
        28
    } else if f == (5nat, 'r', 'e') {
        29
    } else if f == (6nat, 'r', 'n') {
        30
    } else if f == (4nat, 'T', 'e') {
        31
    } else if f == (3nat, 't', 'y') {
        32
    } else if f == (4nat, 't', 'e') {
        33
    } else if f == (5nat, 'w', 'e') {
        34
    } else if f == (4nat, 'w', 'h') {
        35
    } else if f == (5nat, 'y', 'd') {
        36
    } else if f == (5nat, 'm', 'h') {
        37
    } else {
        -1
    }
}

/// Each keyword's key carries a keyword fingerprint, and its Python
/// spelling's fingerprint leads back to its position.
proof fn lemma_keyword_prints()
    ensures
        forall|k: int|
            0 <= k < KEYWORDS@.len() ==> keyword_key_print(fingerprint(#[trigger] KEYWORDS@[k].0@))
                && keyword_value_index(fingerprint(KEYWORDS@[k].1@)) == k,
{
    reveal_strlit("و");
    reveal_strlit("and");
    reveal_strlit("باسم");
    reveal_strlit("as");
    reveal_strlit("تحقق");
    reveal_strlit("assert");
    reveal_strlit("لازمني");
    reveal_strlit("async");
    reveal_strlit("انتظر");
    reveal_strlit("await");
    reveal_strlit("توقف");
    reveal_strlit("break");
    reveal_strlit("حالة");
    reveal_strlit("case");
    reveal_strlit("صنف");
    reveal_strlit("class");
    reveal_strlit("استمر");
    reveal_strlit("continue");
    reveal_strlit("عرف");
    reveal_strlit("def");
    reveal_strlit("احذف");
    reveal_strlit("del");
    reveal_strlit("وإذا");
    reveal_strlit("elif");
    reveal_strlit("وإلا");
    reveal_strlit("else");
    reveal_strlit("التقط");
    reveal_strlit("except");
    reveal_strlit("خاطئ");
    reveal_strlit("False");
    reveal_strlit("ختاما");
    reveal_strlit("finally");
    reveal_strlit("لكل");
    reveal_strlit("for");
    reveal_strlit("من");
    reveal_strlit("from");
    reveal_strlit("عام");
    reveal_strlit("global");
    reveal_strlit("إذا");
    reveal_strlit("if");
    reveal_strlit("استورد");
    reveal_strlit("import");
    reveal_strlit("ضمن");
    reveal_strlit("in");
    reveal_strlit("هو");
    reveal_strlit("is");
    reveal_strlit("لامبدا");
    reveal_strlit("lambda");
    reveal_strlit("عدم");
    reveal_strlit("None");
    reveal_strlit("لامحلي");
    reveal_strlit("nonlocal");
    reveal_strlit("ليس");
    reveal_strlit("not");
    reveal_strlit("أو");
    reveal_strlit("or");
    reveal_strlit("تجاوز");
    reveal_strlit("pass");
    reveal_strlit("ارم");
    reveal_strlit("raise");
    reveal_strlit("أعد");
    reveal_strlit("return");
    reveal_strlit("صحيح");
    reveal_strlit("True");
    reveal_strlit("جرب");
    reveal_strlit("try");
    reveal_strlit("نوع");
    reveal_strlit("type");
    reveal_strlit("طالما");
    reveal_strlit("while");
    reveal_strlit("مع");
    reveal_strlit("with");
    reveal_strlit("انتج");
    reveal_strlit("yield");
    reveal_strlit("طابق");
    reveal_strlit("match");
    assert forall|k: int| 0 <= k < KEYWORDS@.len() implies keyword_key_print(
        fingerprint(#[trigger] KEYWORDS@[k].0@),
    ) && keyword_value_index(fingerprint(KEYWORDS@[k].1@)) == k by {
        if k == 0 {
            assert(fingerprint(KEYWORDS@[k].0@) == (1nat, 'و', 'و'));
            assert(fingerprint(KEYWORDS@[k].1@) == (3nat, 'a', 'd'));
        } else if k == 1 {
            assert(fingerprint(KEYWORDS@[k].0@) == (4nat, 'ب', 'م'));
            assert(fingerprint(KEYWORDS@[k].1@) == (2nat, 'a', 's'));
        } else if k == 2 {
            assert(fingerprint(KEYWORDS@[k].0@) == (4nat, 'ت', 'ق'));
            assert(fingerprint(KEYWORDS@[k].1@) == (6nat, 'a', 't'));
        } else if k == 3 {
            assert(fingerprint(KEYWORDS@[k].0@) == (6nat, 'ل', 'ي'));
            assert(fingerprint(KEYWORDS@[k].1@) == (5nat, 'a', 'c'));
        } else if k == 4 {
            assert(fingerprint(KEYWORDS@[k].0@) == (5nat, 'ا', 'ر'));
            assert(fingerprint(KEYWORDS@[k].1@) == (5nat, 'a', 't'));
        } else if k == 5 {
            assert(fingerprint(KEYWORDS@[k].0@) == (4nat, 'ت', 'ف'));
            assert(fingerprint(KEYWORDS@[k].1@) == (5nat, 'b', 'k'));
        } else if k == 6 {
            assert(fingerprint(KEYWORDS@[k].0@) == (4nat, 'ح', 'ة'));
            assert(fingerprint(KEYWORDS@[k].1@) == (4nat, 'c', 'e'));
        } else if k == 7 {
            assert(fingerprint(KEYWORDS@[k].0@) == (3nat, 'ص', 'ف'));
            assert(fingerprint(KEYWORDS@[k].1@) == (5nat, 'c', 's'));
        } else if k == 8 {
            assert(fingerprint(KEYWORDS@[k].0@) == (5nat, 'ا', 'ر'));
            assert(fingerprint(KEYWORDS@[k].1@) == (8nat, 'c', 'e'));
        } else if k == 9 {
            assert(fingerprint(KEYWORDS@[k].0@) == (3nat, 'ع', 'ف'));
            assert(fingerprint(KEYWORDS@[k].1@) == (3nat, 'd', 'f'));
        } else if k == 10 {
            assert(fingerprint(KEYWORDS@[k].0@) == (4nat, 'ا', 'ف'));
            assert(fingerprint(KEYWORDS@[k].1@) == (3nat, 'd', 'l'));
        } else if k == 11 {
            assert(fingerprint(KEYWORDS@[k].0@) == (4nat, 'و', 'ا'));
            assert(fingerprint(KEYWORDS@[k].1@) == (4nat, 'e', 'f'));
        } else if k == 12 {
            assert(fingerprint(KEYWORDS@[k].0@) == (4nat, 'و', 'ا'));
            assert(fingerprint(KEYWORDS@[k].1@) == (4nat, 'e', 'e'));
        } else if k == 13 {
            assert(fingerprint(KEYWORDS@[k].0@) == (5nat, 'ا', 'ط'));
            assert(fingerprint(KEYWORDS@[k].1@) == (6nat, 'e', 't'));
        } else if k == 14 {
            assert(fingerprint(KEYWORDS@[k].0@) == (4nat, 'خ', 'ئ'));
            assert(fingerprint(KEYWORDS@[k].1@) == (5nat, 'F', 'e'));
        } else if k == 15 {
            assert(fingerprint(KEYWORDS@[k].0@) == (5nat, 'خ', 'ا'));
            assert(fingerprint(KEYWORDS@[k].1@) == (7nat, 'f', 'y'));
        } else if k == 16 {
            assert(fingerprint(KEYWORDS@[k].0@) == (3nat, 'ل', 'ل'));
            assert(fingerprint(KEYWORDS@[k].1@) == (3nat, 'f', 'r'));
        } else if k == 17 {
            assert(fingerprint(KEYWORDS@[k].0@) == (2nat, 'م', 'ن'));
            assert(fingerprint(KEYWORDS@[k].1@) == (4nat, 'f', 'm'));
        } else if k == 18 {
            assert(fingerprint(KEYWORDS@[k].0@) == (3nat, 'ع', 'م'));
            assert(fingerprint(KEYWORDS@[k].1@) == (6nat, 'g', 'l'));
        } else if k == 19 {
            assert(fingerprint(KEYWORDS@[k].0@) == (3nat, 'إ', 'ا'));
            assert(fingerprint(KEYWORDS@[k].1@) == (2nat, 'i', 'f'));
        } else if k == 20 {
            assert(fingerprint(KEYWORDS@[k].0@) == (6nat, 'ا', 'د'));
            assert(fingerprint(KEYWORDS@[k].1@) == (6nat, 'i', 't'));
        } else if k == 21 {
            assert(fingerprint(KEYWORDS@[k].0@) == (3nat, 'ض', 'ن'));
            assert(fingerprint(KEYWORDS@[k].1@) == (2nat, 'i', 'n'));
        } else if k == 22 {
            assert(fingerprint(KEYWORDS@[k].0@) == (2nat, 'ه', 'و'));
            assert(fingerprint(KEYWORDS@[k].1@) == (2nat, 'i', 's'));
        } else if k == 23 {
            assert(fingerprint(KEYWORDS@[k].0@) == (6nat, 'ل', 'ا'));
            assert(fingerprint(KEYWORDS@[k].1@) == (6nat, 'l', 'a'));
        } else if k == 24 {
            assert(fingerprint(KEYWORDS@[k].0@) == (3nat, 'ع', 'م'));
            assert(fingerprint(KEYWORDS@[k].1@) == (4nat, 'N', 'e'));
        } else if k == 25 {
            assert(fingerprint(KEYWORDS@[k].0@) == (6nat, 'ل', 'ي'));
            assert(fingerprint(KEYWORDS@[k].1@) == (8nat, 'n', 'l'));
        } else if k == 26 {
            assert(fingerprint(KEYWORDS@[k].0@) == (3nat, 'ل', 'س'));
            assert(fingerprint(KEYWORDS@[k].1@) == (3nat, 'n', 't'));
        } else if k == 27 {
            assert(fingerprint(KEYWORDS@[k].0@) == (2nat, 'أ', 'و'));
            assert(fingerprint(KEYWORDS@[k].1@) == (2nat, 'o', 'r'));
        } else if k == 28 {
            assert(fingerprint(KEYWORDS@[k].0@) == (5nat, 'ت', 'ز'));
            assert(fingerprint(KEYWORDS@[k].1@) == (4nat, 'p', 's'));
        } else if k == 29 {
            assert(fingerprint(KEYWORDS@[k].0@) == (3nat, 'ا', 'م'));
            assert(fingerprint(KEYWORDS@[k].1@) == (5nat, 'r', 'e'));
        } else if k == 30 {
            assert(fingerprint(KEYWORDS@[k].0@) == (3nat, 'أ', 'د'));
            assert(fingerprint(KEYWORDS@[k].1@) == (6nat, 'r', 'n'));
        } else if k == 31 {
            assert(fingerprint(KEYWORDS@[k].0@) == (4nat, 'ص', 'ح'));
            assert(fingerprint(KEYWORDS@[k].1@) == (4nat, 'T', 'e'));
        } else if k == 32 {
            assert(fingerprint(KEYWORDS@[k].0@) == (3nat, 'ج', 'ب'));
            assert(fingerprint(KEYWORDS@[k].1@) == (3nat, 't', 'y'));
        } else if k == 33 {
            assert(fingerprint(KEYWORDS@[k].0@) == (3nat, 'ن', 'ع'));
            assert(fingerprint(KEYWORDS@[k].1@) == (4nat, 't', 'e'));
        } else if k == 34 {
            assert(fingerprint(KEYWORDS@[k].0@) == (5nat, 'ط', 'ا'));
            assert(fingerprint(KEYWORDS@[k].1@) == (5nat, 'w', 'e'));
        } else if k == 35 {
            assert(fingerprint(KEYWORDS@[k].0@) == (2nat, 'م', 'ع'));
            assert(fingerprint(KEYWORDS@[k].1@) == (4nat, 'w', 'h'));
        } else if k == 36 {
            assert(fingerprint(KEYWORDS@[k].0@) == (4nat, 'ا', 'ج'));
            assert(fingerprint(KEYWORDS@[k].1@) == (5nat, 'y', 'd'));
        } else if k == 37 {
            assert(fingerprint(KEYWORDS@[k].0@) == (4nat, 'ط', 'ق'));
            assert(fingerprint(KEYWORDS@[k].1@) == (5nat, 'm', 'h'));
        }
    }
}

/// No builtin's key carries a keyword fingerprint.
proof fn lemma_builtin_prints()
    ensures
        forall|k: int|
            0 <= k < BUILTINS@.len() ==> !keyword_key_print(fingerprint(#[trigger] BUILTINS@[k].0@)),
{
    reveal_strlit("اطبع");
    reveal_strlit("ادخل");
    reveal_strlit("طول");
    reveal_strlit("نطاق");
    reveal_strlit("قائمة");
    reveal_strlit("قاموس");
    reveal_strlit("مجموعة");
    reveal_strlit("متسلسلة");
    reveal_strlit("مجموع");
    reveal_strlit("اصغر");
    reveal_strlit("اكبر");
    reveal_strlit("عدد");
    reveal_strlit("كسري");
    reveal_strlit("مركب");
    reveal_strlit("منطقي");
    reveal_strlit("نص");
    reveal_strlit("بايت");
    reveal_strlit("بيتات");
    reveal_strlit("مطلق");
    reveal_strlit("الكل");
    reveal_strlit("أي");
    reveal_strlit("كرر");
    reveal_strlit("التالي");
    reveal_strlit("مكرر_غير_متزامن");
    reveal_strlit("التالي_غير_متزامن");
    reveal_strlit("ترقيم");
    reveal_strlit("رشح");
    reveal_strlit("طبق");
    reveal_strlit("دمج");
    reveal_strlit("كائن");
    reveal_strlit("خاصية");
    reveal_strlit("دالة_صنف");
    reveal_strlit("دالة_ثابتة");
    reveal_strlit("دور");
    reveal_strlit("قوة");
    reveal_strlit("قسمة_باقية");
    reveal_strlit("معكوس");
    reveal_strlit("مرتب");
    reveal_strlit("نسق");
    reveal_strlit("تمثيل");
    reveal_strlit("هوية");
    reveal_strlit("قيم");
    reveal_strlit("نفذ");
    reveal_strlit("هاش");
    reveal_strlit("مساعدة");
    reveal_strlit("افتح");
    reveal_strlit("حرف");
    reveal_strlit("رمز_الحرف");
    reveal_strlit("ثنائي");
    reveal_strlit("ثماني");
    reveal_strlit("ست_عشري");
    reveal_strlit("أسكي");
    reveal_strlit("شريحة");
    reveal_strlit("دليل");
    reveal_strlit("متغيرات");
    reveal_strlit("عالميات");
    reveal_strlit("محليات");
    reveal_strlit("اجمع");
    reveal_strlit("نقطة_توقف");
    reveal_strlit("عرض_الذاكرة");
    reveal_strlit("علوي");
    reveal_strlit("اجلب_سمة");
    reveal_strlit("عين_سمة");
    reveal_strlit("احذف_سمة");
    reveal_strlit("هل_له_سمة");
    reveal_strlit("مثيل");
    reveal_strlit("مشتق");
    reveal_strlit("استدعائي");
    reveal_strlit("غير_منفذ");
    reveal_strlit("ثلاث_نقاط");
    reveal_strlit("خطأ");
    reveal_strlit("خطأ_أساسي");
    reveal_strlit("خطأ_حسابي");
    reveal_strlit("خطأ_تحقق");
    reveal_strlit("خطأ_سمة");
    reveal_strlit("خطأ_نظام_التشغيل");
    reveal_strlit("خطأ_نهاية_الملف");
    reveal_strlit("خطأ_استيراد");
    reveal_strlit("حيد");
    reveal_strlit("خطأ_مفتاح");
    reveal_strlit("خطأ_بحث");
    reveal_strlit("خطأ_ذاكرة");
    reveal_strlit("خطأ_اسم");
    reveal_strlit("خطأ_غير_منفذ");
    reveal_strlit("خطأ_فيضان");
    reveal_strlit("خطأ_مرجع");
    reveal_strlit("خطأ_وقت_التشغيل");
    reveal_strlit("خطأ_إزاحة");
    reveal_strlit("خطأ_صياغة");
    reveal_strlit("خطأ_تبويب");
    reveal_strlit("خطأ_نوع");
    reveal_strlit("خطأ_قيمة");
    reveal_strlit("خطأ_القسمة_على_صفر");
    reveal_strlit("خطأ_متغير_محلي");
    reveal_strlit("خطأ_مخزن");
    reveal_strlit("خطأ_استدعاء_ذاتي");
    reveal_strlit("خطأ_وحدة_غير_موجودة");
    reveal_strlit("خطأ_ملف_غير_موجود");
    reveal_strlit("خطأ_ملف_موجود");
    reveal_strlit("خطأ_صلاحية");
    reveal_strlit("خطأ_اتصال");
    reveal_strlit("خطأ_اتصال_مرفوض");
    reveal_strlit("خطأ_اتصال_مقاطع");
    reveal_strlit("خطأ_اتصال_معاد");
    reveal_strlit("خطأ_أنبوب_مكسور");
    reveal_strlit("خطأ_إدخال_محجوب");
    reveal_strlit("خطأ_إدخال_إخراج");
    reveal_strlit("خطأ_بيئة");
    reveal_strlit("خطأ_نقطة_كسرية");
    reveal_strlit("خطأ_مقاطع");
    reveal_strlit("خطأ_مسار_دليل");
    reveal_strlit("خطأ_ليس_دليلا");
    reveal_strlit("خطأ_عملية_غير_موجودة");
    reveal_strlit("خطأ_عملية_طفل");
    reveal_strlit("خطأ_يونيكود");
    reveal_strlit("خطأ_فك_يونيكود");
    reveal_strlit("خطأ_ترميز_يونيكود");
    reveal_strlit("خطأ_ترجمة_يونيكود");
    reveal_strlit("خطأ_نظام");
    reveal_strlit("مجموعة_أخطاء");
    reveal_strlit("مجموعة_أخطاء_أساسية");
    reveal_strlit("توقف_التكرار");
    reveal_strlit("توقف_التكرار_غير_متزامن");
    reveal_strlit("خروج_النظام");
    reveal_strlit("خروج_المولد");
    reveal_strlit("انقطاع_لوحة_المفاتيح");
    reveal_strlit("تحذير");
    reveal_strlit("تحذير_تقادم");
    reveal_strlit("تحذير_ترميز");
    reveal_strlit("تحذير_مستقبلي");
    reveal_strlit("تحذير_استيراد");
    reveal_strlit("تحذير_صياغة");
    reveal_strlit("تحذير_وقت_التشغيل");
    reveal_strlit("تحذير_مستخدم");
    reveal_strlit("تحذير_بايت");
    reveal_strlit("تحذير_موارد");
    assert forall|k: int| 0 <= k < BUILTINS@.len() implies !keyword_key_print(
        fingerprint(#[trigger] BUILTINS@[k].0@),
    ) by {
        if k == 0 {
            assert(fingerprint(BUILTINS@[k].0@) == (4nat, 'ا', 'ع'));
        } else if k == 1 {
            assert(fingerprint(BUILTINS@[k].0@) == (4nat, 'ا', 'ل'));
        } else if k == 2 {
            assert(fingerprint(BUILTINS@[k].0@) == (3nat, 'ط', 'ل'));
        } else if k == 3 {
            assert(fingerprint(BUILTINS@[k].0@) == (4nat, 'ن', 'ق'));
        } else if k == 4 {
            assert(fingerprint(BUILTINS@[k].0@) == (5nat, 'ق', 'ة'));
        } else if k == 5 {
            assert(fingerprint(BUILTINS@[k].0@) == (5nat, 'ق', 'س'));
        } else if k == 6 {
            assert(fingerprint(BUILTINS@[k].0@) == (6nat, 'م', 'ة'));
        } else if k == 7 {
            assert(fingerprint(BUILTINS@[k].0@) == (7nat, 'م', 'ة'));
        } else if k == 8 {
            assert(fingerprint(BUILTINS@[k].0@) == (5nat, 'م', 'ع'));
        } else if k == 9 {
            assert(fingerprint(BUILTINS@[k].0@) == (4nat, 'ا', 'ر'));
        } else if k == 10 {
            assert(fingerprint(BUILTINS@[k].0@) == (4nat, 'ا', 'ر'));
        } else if k == 11 {
            assert(fingerprint(BUILTINS@[k].0@) == (3nat, 'ع', 'د'));
        } else if k == 12 {
            assert(fingerprint(BUILTINS@[k].0@) == (4nat, 'ك', 'ي'));
        } else if k == 13 {
            assert(fingerprint(BUILTINS@[k].0@) == (4nat, 'م', 'ب'));
        } else if k == 14 {
            assert(fingerprint(BUILTINS@[k].0@) == (5nat, 'م', 'ي'));
        } else if k == 15 {
            assert(fingerprint(BUILTINS@[k].0@) == (2nat, 'ن', 'ص'));
        } else if k == 16 {
            assert(fingerprint(BUILTINS@[k].0@) == (4nat, 'ب', 'ت'));
        } else if k == 17 {
            assert(fingerprint(BUILTINS@[k].0@) == (5nat, 'ب', 'ت'));
        } else if k == 18 {
            assert(fingerprint(BUILTINS@[k].0@) == (4nat, 'م', 'ق'));
        } else if k == 19 {
            assert(fingerprint(BUILTINS@[k].0@) == (4nat, 'ا', 'ل'));
        } else if k == 20 {
            assert(fingerprint(BUILTINS@[k].0@) == (2nat, 'أ', 'ي'));
        } else if k == 21 {
            assert(fingerprint(BUILTINS@[k].0@) == (3nat, 'ك', 'ر'));
        } else if k == 22 {
            assert(fingerprint(BUILTINS@[k].0@) == (6nat, 'ا', 'ي'));
        } else if k == 23 {
            assert(fingerprint(BUILTINS@[k].0@) == (15nat, 'م', 'ن'));
        } else if k == 24 {
            assert(fingerprint(BUILTINS@[k].0@) == (17nat, 'ا', 'ن'));
        } else if k == 25 {
            assert(fingerprint(BUILTINS@[k].0@) == (5nat, 'ت', 'م'));
        } else if k == 26 {
            assert(fingerprint(BUILTINS@[k].0@) == (3nat, 'ر', 'ح'));
        } else if k == 27 {
            assert(fingerprint(BUILTINS@[k].0@) == (3nat, 'ط', 'ق'));
        } else if k == 28 {
            assert(fingerprint(BUILTINS@[k].0@) == (3nat, 'د', 'ج'));
        } else if k == 29 {
            assert(fingerprint(BUILTINS@[k].0@) == (4nat, 'ك', 'ن'));
        } else if k == 30 {
            assert(fingerprint(BUILTINS@[k].0@) == (5nat, 'خ', 'ة'));
        } else if k == 31 {
            assert(fingerprint(BUILTINS@[k].0@) == (8nat, 'د', 'ف'));
        } else if k == 32 {
            assert(fingerprint(BUILTINS@[k].0@) == (10nat, 'د', 'ة'));
        } else if k == 33 {
            assert(fingerprint(BUILTINS@[k].0@) == (3nat, 'د', 'ر'));
        } else if k == 34 {
            assert(fingerprint(BUILTINS@[k].0@) == (3nat, 'ق', 'ة'));
        } else if k == 35 {
            assert(fingerprint(BUILTINS@[k].0@) == (10nat, 'ق', 'ة'));
        } else if k == 36 {
            assert(fingerprint(BUILTINS@[k].0@) == (5nat, 'م', 'س'));
        } else if k == 37 {
            assert(fingerprint(BUILTINS@[k].0@) == (4nat, 'م', 'ب'));
        } else if k == 38 {
            assert(fingerprint(BUILTINS@[k].0@) == (3nat, 'ن', 'ق'));
        } else if k == 39 {
            assert(fingerprint(BUILTINS@[k].0@) == (5nat, 'ت', 'ل'));
        } else if k == 40 {
            assert(fingerprint(BUILTINS@[k].0@) == (4nat, 'ه', 'ة'));
        } else if k == 41 {
            assert(fingerprint(BUILTINS@[k].0@) == (3nat, 'ق', 'م'));
        } else if k == 42 {
            assert(fingerprint(BUILTINS@[k].0@) == (3nat, 'ن', 'ذ'));
        } else if k == 43 {
            assert(fingerprint(BUILTINS@[k].0@) == (3nat, 'ه', 'ش'));
        } else if k == 44 {
            assert(fingerprint(BUILTINS@[k].0@) == (6nat, 'م', 'ة'));
        } else if k == 45 {
            assert(fingerprint(BUILTINS@[k].0@) == (4nat, 'ا', 'ح'));
        } else if k == 46 {
            assert(fingerprint(BUILTINS@[k].0@) == (3nat, 'ح', 'ف'));
        } else if k == 47 {
            assert(fingerprint(BUILTINS@[k].0@) == (9nat, 'ر', 'ف'));
        } else if k == 48 {
            assert(fingerprint(BUILTINS@[k].0@) == (5nat, 'ث', 'ي'));
        } else if k == 49 {
            assert(fingerprint(BUILTINS@[k].0@) == (5nat, 'ث', 'ي'));
        } else if k == 50 {
            assert(fingerprint(BUILTINS@[k].0@) == (7nat, 'س', 'ي'));
        } else if k == 51 {
            assert(fingerprint(BUILTINS@[k].0@) == (4nat, 'أ', 'ي'));
        } else if k == 52 {
            assert(fingerprint(BUILTINS@[k].0@) == (5nat, 'ش', 'ة'));
        } else if k == 53 {
            assert(fingerprint(BUILTINS@[k].0@) == (4nat, 'د', 'ل'));
        } else if k == 54 {
            assert(fingerprint(BUILTINS@[k].0@) == (7nat, 'م', 'ت'));
        } else if k == 55 {
            assert(fingerprint(BUILTINS@[k].0@) == (7nat, 'ع', 'ت'));
        } else if k == 56 {
            assert(fingerprint(BUILTINS@[k].0@) == (6nat, 'م', 'ت'));
        } else if k == 57 {
            assert(fingerprint(BUILTINS@[k].0@) == (4nat, 'ا', 'ع'));
        } else if k == 58 {
            assert(fingerprint(BUILTINS@[k].0@) == (9nat, 'ن', 'ف'));
        } else if k == 59 {
            assert(fingerprint(BUILTINS@[k].0@) == (11nat, 'ع', 'ة'));
        } else if k == 60 {
            assert(fingerprint(BUILTINS@[k].0@) == (4nat, 'ع', 'ي'));
        } else if k == 61 {
            assert(fingerprint(BUILTINS@[k].0@) == (8nat, 'ا', 'ة'));
        } else if k == 62 {
            assert(fingerprint(BUILTINS@[k].0@) == (7nat, 'ع', 'ة'));
        } else if k == 63 {
            assert(fingerprint(BUILTINS@[k].0@) == (8nat, 'ا', 'ة'));
        } else if k == 64 {
            assert(fingerprint(BUILTINS@[k].0@) == (9nat, 'ه', 'ة'));
        } else if k == 65 {
            assert(fingerprint(BUILTINS@[k].0@) == (4nat, 'م', 'ل'));
        } else if k == 66 {
            assert(fingerprint(BUILTINS@[k].0@) == (4nat, 'م', 'ق'));
        } else if k == 67 {
            assert(fingerprint(BUILTINS@[k].0@) == (8nat, 'ا', 'ي'));
        } else if k == 68 {
            assert(fingerprint(BUILTINS@[k].0@) == (8nat, 'غ', 'ذ'));
        } else if k == 69 {
            assert(fingerprint(BUILTINS@[k].0@) == (9nat, 'ث', 'ط'));
        } else if k == 70 {
            assert(fingerprint(BUILTINS@[k].0@) == (3nat, 'خ', 'أ'));
        } else if k == 71 {
            assert(fingerprint(BUILTINS@[k].0@) == (9nat, 'خ', 'ي'));
        } else if k == 72 {
            assert(fingerprint(BUILTINS@[k].0@) == (9nat, 'خ', 'ي'));
        } else if k == 73 {
            assert(fingerprint(BUILTINS@[k].0@) == (8nat, 'خ', 'ق'));
        } else if k == 74 {
            assert(fingerprint(BUILTINS@[k].0@) == (7nat, 'خ', 'ة'));
        } else if k == 75 {
            assert(fingerprint(BUILTINS@[k].0@) == (16nat, 'خ', 'ل'));
        } else if k == 76 {
            assert(fingerprint(BUILTINS@[k].0@) == (15nat, 'خ', 'ف'));
        } else if k == 77 {
            assert(fingerprint(BUILTINS@[k].0@) == (11nat, 'خ', 'د'));
        } else if k == 78 {
            assert(fingerprint(BUILTINS@[k].0@) == (3nat, 'ح', 'د'));
        } else if k == 79 {
            assert(fingerprint(BUILTINS@[k].0@) == (9nat, 'خ', 'ح'));
        } else if k == 80 {
            assert(fingerprint(BUILTINS@[k].0@) == (7nat, 'خ', 'ث'));
        } else if k == 81 {
            assert(fingerprint(BUILTINS@[k].0@) == (9nat, 'خ', 'ة'));
        } else if k == 82 {
            assert(fingerprint(BUILTINS@[k].0@) == (7nat, 'خ', 'م'));
        } else if k == 83 {
            assert(fingerprint(BUILTINS@[k].0@) == (12nat, 'خ', 'ذ'));
        } else if k == 84 {
            assert(fingerprint(BUILTINS@[k].0@) == (9nat, 'خ', 'ن'));
        } else if k == 85 {
            assert(fingerprint(BUILTINS@[k].0@) == (8nat, 'خ', 'ع'));
        } else if k == 86 {
            assert(fingerprint(BUILTINS@[k].0@) == (15nat, 'خ', 'ل'));
        } else if k == 87 {
            assert(fingerprint(BUILTINS@[k].0@) == (9nat, 'خ', 'ة'));
        } else if k == 88 {
            assert(fingerprint(BUILTINS@[k].0@) == (9nat, 'خ', 'ة'));
        } else if k == 89 {
            assert(fingerprint(BUILTINS@[k].0@) == (9nat, 'خ', 'ب'));
        } else if k == 90 {
            assert(fingerprint(BUILTINS@[k].0@) == (7nat, 'خ', 'ع'));
        } else if k == 91 {
            assert(fingerprint(BUILTINS@[k].0@) == (8nat, 'خ', 'ة'));
        } else if k == 92 {
            assert(fingerprint(BUILTINS@[k].0@) == (18nat, 'خ', 'ر'));
        } else if k == 93 {
            assert(fingerprint(BUILTINS@[k].0@) == (14nat, 'خ', 'ي'));
        } else if k == 94 {
            assert(fingerprint(BUILTINS@[k].0@) == (8nat, 'خ', 'ن'));
        } else if k == 95 {
            assert(fingerprint(BUILTINS@[k].0@) == (16nat, 'خ', 'ي'));
        } else if k == 96 {
            assert(fingerprint(BUILTINS@[k].0@) == (19nat, 'خ', 'ة'));
        } else if k == 97 {
            assert(fingerprint(BUILTINS@[k].0@) == (17nat, 'خ', 'د'));
        } else if k == 98 {
            assert(fingerprint(BUILTINS@[k].0@) == (13nat, 'خ', 'د'));
        } else if k == 99 {
            assert(fingerprint(BUILTINS@[k].0@) == (10nat, 'خ', 'ة'));
        } else if k == 100 {
            assert(fingerprint(BUILTINS@[k].0@) == (9nat, 'خ', 'ل'));
        } else if k == 101 {
            assert(fingerprint(BUILTINS@[k].0@) == (15nat, 'خ', 'ض'));
        } else if k == 102 {
            assert(fingerprint(BUILTINS@[k].0@) == (15nat, 'خ', 'ع'));
        } else if k == 103 {
            assert(fingerprint(BUILTINS@[k].0@) == (14nat, 'خ', 'د'));
        } else if k == 104 {
            assert(fingerprint(BUILTINS@[k].0@) == (15nat, 'خ', 'ر'));
        } else if k == 105 {
            assert(fingerprint(BUILTINS@[k].0@) == (15nat, 'خ', 'ب'));
        } else if k == 106 {
            assert(fingerprint(BUILTINS@[k].0@) == (15nat, 'خ', 'ج'));
        } else if k == 107 {
            assert(fingerprint(BUILTINS@[k].0@) == (8nat, 'خ', 'ة'));
        } else if k == 108 {
            assert(fingerprint(BUILTINS@[k].0@) == (14nat, 'خ', 'ة'));
        } else if k == 109 {
            assert(fingerprint(BUILTINS@[k].0@) == (9nat, 'خ', 'ع'));
        } else if k == 110 {
            assert(fingerprint(BUILTINS@[k].0@) == (13nat, 'خ', 'ل'));
        } else if k == 111 {
            assert(fingerprint(BUILTINS@[k].0@) == (13nat, 'خ', 'ا'));
        } else if k == 112 {
            assert(fingerprint(BUILTINS@[k].0@) == (20nat, 'خ', 'ة'));
        } else if k == 113 {
            assert(fingerprint(BUILTINS@[k].0@) == (13nat, 'خ', 'ل'));
        } else if k == 114 {
            assert(fingerprint(BUILTINS@[k].0@) == (11nat, 'خ', 'د'));
        } else if k == 115 {
            assert(fingerprint(BUILTINS@[k].0@) == (14nat, 'خ', 'د'));
        } else if k == 116 {
            assert(fingerprint(BUILTINS@[k].0@) == (17nat, 'خ', 'د'));
        } else if k == 117 {
            assert(fingerprint(BUILTINS@[k].0@) == (17nat, 'خ', 'د'));
        } else if k == 118 {
            assert(fingerprint(BUILTINS@[k].0@) == (8nat, 'خ', 'م'));
        } else if k == 119 {
            assert(fingerprint(BUILTINS@[k].0@) == (12nat, 'م', 'ء'));
        } else if k == 120 {
            assert(fingerprint(BUILTINS@[k].0@) == (19nat, 'م', 'ة'));
        } else if k == 121 {
            assert(fingerprint(BUILTINS@[k].0@) == (12nat, 'ت', 'ر'));
        } else if k == 122 {
            assert(fingerprint(BUILTINS@[k].0@) == (23nat, 'ت', 'ن'));
        } else if k == 123 {
            assert(fingerprint(BUILTINS@[k].0@) == (11nat, 'خ', 'م'));
        } else if k == 124 {
            assert(fingerprint(BUILTINS@[k].0@) == (11nat, 'خ', 'د'));
        } else if k == 125 {
            assert(fingerprint(BUILTINS@[k].0@) == (20nat, 'ا', 'ح'));
        } else if k == 126 {
            assert(fingerprint(BUILTINS@[k].0@) == (5nat, 'ت', 'ر'));
        } else if k == 127 {
            assert(fingerprint(BUILTINS@[k].0@) == (11nat, 'ت', 'م'));
        } else if k == 128 {
            assert(fingerprint(BUILTINS@[k].0@) == (11nat, 'ت', 'ز'));
        } else if k == 129 {
            assert(fingerprint(BUILTINS@[k].0@) == (13nat, 'ت', 'ي'));
        } else if k == 130 {
            assert(fingerprint(BUILTINS@[k].0@) == (13nat, 'ت', 'د'));
        } else if k == 131 {
            assert(fingerprint(BUILTINS@[k].0@) == (11nat, 'ت', 'ة'));
        } else if k == 132 {
            assert(fingerprint(BUILTINS@[k].0@) == (17nat, 'ت', 'ل'));
        } else if k == 133 {
            assert(fingerprint(BUILTINS@[k].0@) == (12nat, 'ت', 'م'));
        } else if k == 134 {
            assert(fingerprint(BUILTINS@[k].0@) == (10nat, 'ت', 'ت'));
        } else if k == 135 {
            assert(fingerprint(BUILTINS@[k].0@) == (11nat, 'ت', 'د'));
        }
    }
}

/// A word found in a table is the key of some entry, whose value is what is
/// found.
pub proof fn lemma_lookup_entry(
    table: Seq<(&'static str, &'static str)>,
    w: Seq<char>,
    p: Seq<char>,
) -> (k: int)
    requires
        table_lookup(table, w) == Some(p),
    ensures
        0 <= k < table.len(),
        table[k].0@ == w,
        table[k].1@ == p,
    decreases table.len(),
{
    if table[0].0@ == w {
        0
    } else {
        let k = lemma_lookup_entry(table.drop_first(), w, p);
        assert(table.drop_first()[k] == table[k + 1]);
        k + 1
    }
}

/// No two Arabic keywords share a Python spelling: each Python keyword has
/// exactly one Arabic spelling.
pub proof fn law_keyword_spellings_distinct(a: Seq<char>, b: Seq<char>, p: Seq<char>)
    requires
        table_lookup(KEYWORDS@, a) == Some(p),
        table_lookup(KEYWORDS@, b) == Some(p),
    ensures
        a == b,
{
    lemma_keyword_prints();
    let ka = lemma_lookup_entry(KEYWORDS@, a, p);
    let kb = lemma_lookup_entry(KEYWORDS@, b, p);
    assert(keyword_value_index(fingerprint(KEYWORDS@[ka].1@)) == ka);
    assert(keyword_value_index(fingerprint(KEYWORDS@[kb].1@)) == kb);
}

/// No word is both a runtime builtin and a keyword (`نوع`, Python's `type`,
/// is a keyword only).
pub proof fn law_builtins_are_not_keywords(w: Seq<char>)
    ensures
        !(table_lookup(BUILTINS@, w) is Some && table_lookup(KEYWORDS@, w) is Some),
{
    if table_lookup(BUILTINS@, w) is Some && table_lookup(KEYWORDS@, w) is Some {
        lemma_keyword_prints();
        lemma_builtin_prints();
        let kb = lemma_lookup_entry(BUILTINS@, w, table_lookup(BUILTINS@, w)->0);
        let kk = lemma_lookup_entry(KEYWORDS@, w, table_lookup(KEYWORDS@, w)->0);
        assert(keyword_key_print(fingerprint(KEYWORDS@[kk].0@)));
        assert(!keyword_key_print(fingerprint(BUILTINS@[kb].0@)));
    }
}

/// A Python keyword (`keyword.kwlist`) or soft keyword
/// (`keyword.softkwlist`).
pub open spec fn python_keyword(p: Seq<char>) -> bool {
    p == "and"@
        || p == "as"@
        || p == "assert"@
        || p == "async"@
        || p == "await"@
        || p == "break"@
        || p == "class"@
        || p == "continue"@
        || p == "def"@
        || p == "del"@
        || p == "elif"@
        || p == "else"@
        || p == "except"@
        || p == "False"@
        || p == "finally"@
        || p == "for"@
        || p == "from"@
        || p == "global"@
        || p == "if"@
        || p == "import"@
        || p == "in"@
        || p == "is"@
        || p == "lambda"@
        || p == "None"@
        || p == "nonlocal"@
        || p == "not"@
        || p == "or"@
        || p == "pass"@
        || p == "raise"@
        || p == "return"@
        || p == "True"@
        || p == "try"@
        || p == "while"@
        || p == "with"@
        || p == "yield"@
        || p == "_"@
        || p == "case"@
        || p == "match"@
        || p == "type"@
}

/// Every Arabic keyword translates to a Python keyword or soft keyword.
pub proof fn law_keywords_are_python_keywords(w: Seq<char>, p: Seq<char>)
    requires
        table_lookup(KEYWORDS@, w) == Some(p),
    ensures
        python_keyword(p),
{
    let k = lemma_lookup_entry(KEYWORDS@, w, p);
    if k == 0 {
        assert(KEYWORDS@[k].1@ == "and"@);
    } else if k == 1 {
        assert(KEYWORDS@[k].1@ == "as"@);
    } else if k == 2 {
        assert(KEYWORDS@[k].1@ == "assert"@);
    } else if k == 3 {
        assert(KEYWORDS@[k].1@ == "async"@);
    } else if k == 4 {
        assert(KEYWORDS@[k].1@ == "await"@);
    } else if k == 5 {
        assert(KEYWORDS@[k].1@ == "break"@);
    } else if k == 6 {
        assert(KEYWORDS@[k].1@ == "case"@);
    } else if k == 7 {
        assert(KEYWORDS@[k].1@ == "class"@);
    } else if k == 8 {
        assert(KEYWORDS@[k].1@ == "continue"@);
    } else if k == 9 {
        assert(KEYWORDS@[k].1@ == "def"@);
    } else if k == 10 {
        assert(KEYWORDS@[k].1@ == "del"@);
    } else if k == 11 {
        assert(KEYWORDS@[k].1@ == "elif"@);
    } else if k == 12 {
        assert(KEYWORDS@[k].1@ == "else"@);
    } else if k == 13 {
        assert(KEYWORDS@[k].1@ == "except"@);
    } else if k == 14 {
        assert(KEYWORDS@[k].1@ == "False"@);
    } else if k == 15 {
        assert(KEYWORDS@[k].1@ == "finally"@);
    } else if k == 16 {
        assert(KEYWORDS@[k].1@ == "for"@);
    } else if k == 17 {
        assert(KEYWORDS@[k].1@ == "from"@);
    } else if k == 18 {
        assert(KEYWORDS@[k].1@ == "global"@);
    } else if k == 19 {
        assert(KEYWORDS@[k].1@ == "if"@);
    } else if k == 20 {
        assert(KEYWORDS@[k].1@ == "import"@);
    } else if k == 21 {
        assert(KEYWORDS@[k].1@ == "in"@);
    } else if k == 22 {
        assert(KEYWORDS@[k].1@ == "is"@);
    } else if k == 23 {
        assert(KEYWORDS@[k].1@ == "lambda"@);
    } else if k == 24 {
        assert(KEYWORDS@[k].1@ == "None"@);
    } else if k == 25 {
        assert(KEYWORDS@[k].1@ == "nonlocal"@);
    } else if k == 26 {
        assert(KEYWORDS@[k].1@ == "not"@);
    } else if k == 27 {
        assert(KEYWORDS@[k].1@ == "or"@);
    } else if k == 28 {
        assert(KEYWORDS@[k].1@ == "pass"@);
    } else if k == 29 {
        assert(KEYWORDS@[k].1@ == "raise"@);
    } else if k == 30 {
        assert(KEYWORDS@[k].1@ == "return"@);
    } else if k == 31 {
        assert(KEYWORDS@[k].1@ == "True"@);
    } else if k == 32 {
        assert(KEYWORDS@[k].1@ == "try"@);
    } else if k == 33 {
        assert(KEYWORDS@[k].1@ == "type"@);
    } else if k == 34 {
        assert(KEYWORDS@[k].1@ == "while"@);
    } else if k == 35 {
        assert(KEYWORDS@[k].1@ == "with"@);
    } else if k == 36 {
        assert(KEYWORDS@[k].1@ == "yield"@);
    } else if k == 37 {
        assert(KEYWORDS@[k].1@ == "match"@);
    }
}

/// No character of `w` is a line feed.
pub open spec fn line_free(w: Seq<char>) -> bool {
    forall|j: int| 0 <= j < w.len() ==> w[j] != '\n'
}

/// No Python name of `table` holds a line feed.
pub open spec fn values_line_free(table: Seq<(&'static str, &'static str)>) -> bool {
    forall|k: int| 0 <= k < table.len() ==> line_free(#[trigger] table[k].1@)
}

/// No Python keyword of `KEYWORDS` holds a line feed.
proof fn lemma_keyword_values_line_free()
    ensures
        values_line_free(KEYWORDS@),
{
    reveal_strlit("and");
    reveal_strlit("as");
    reveal_strlit("assert");
    reveal_strlit("async");
    reveal_strlit("await");
    reveal_strlit("break");
    reveal_strlit("case");
    reveal_strlit("class");
    reveal_strlit("continue");
    reveal_strlit("def");
    reveal_strlit("del");
    reveal_strlit("elif");
    reveal_strlit("else");
    reveal_strlit("except");
    reveal_strlit("False");
    reveal_strlit("finally");
    reveal_strlit("for");
    reveal_strlit("from");
    reveal_strlit("global");
    reveal_strlit("if");
    reveal_strlit("import");
    reveal_strlit("in");
    reveal_strlit("is");
    reveal_strlit("lambda");
    reveal_strlit("None");
    reveal_strlit("nonlocal");
    reveal_strlit("not");
    reveal_strlit("or");
    reveal_strlit("pass");
    reveal_strlit("raise");
    reveal_strlit("return");
    reveal_strlit("True");
    reveal_strlit("try");
    reveal_strlit("type");
    reveal_strlit("while");
    reveal_strlit("with");
    reveal_strlit("yield");
    reveal_strlit("match");
    assert forall|k: int| 0 <= k < KEYWORDS@.len() implies line_free(#[trigger] KEYWORDS@[k].1@) by {
        if k == 0 {
            assert(KEYWORDS@[k].1@ == "and"@);
        } else if k == 1 {
            assert(KEYWORDS@[k].1@ == "as"@);
        } else if k == 2 {
            assert(KEYWORDS@[k].1@ == "assert"@);
        } else if k == 3 {
            assert(KEYWORDS@[k].1@ == "async"@);
        } else if k == 4 {
            assert(KEYWORDS@[k].1@ == "await"@);
        } else if k == 5 {
            assert(KEYWORDS@[k].1@ == "break"@);
        } else if k == 6 {
            assert(KEYWORDS@[k].1@ == "case"@);
        } else if k == 7 {
            assert(KEYWORDS@[k].1@ == "class"@);
        } else if k == 8 {
            assert(KEYWORDS@[k].1@ == "continue"@);
        } else if k == 9 {
            assert(KEYWORDS@[k].1@ == "def"@);
        } else if k == 10 {
            assert(KEYWORDS@[k].1@ == "del"@);
        } else if k == 11 {
            assert(KEYWORDS@[k].1@ == "elif"@);
        } else if k == 12 {
            assert(KEYWORDS@[k].1@ == "else"@);
        } else if k == 13 {
            assert(KEYWORDS@[k].1@ == "except"@);
        } else if k == 14 {
            assert(KEYWORDS@[k].1@ == "False"@);
        } else if k == 15 {
            assert(KEYWORDS@[k].1@ == "finally"@);
        } else if k == 16 {
            assert(KEYWORDS@[k].1@ == "for"@);
        } else if k == 17 {
            assert(KEYWORDS@[k].1@ == "from"@);
        } else if k == 18 {
            assert(KEYWORDS@[k].1@ == "global"@);
        } else if k == 19 {
            assert(KEYWORDS@[k].1@ == "if"@);
        } else if k == 20 {
            assert(KEYWORDS@[k].1@ == "import"@);
        } else if k == 21 {
            assert(KEYWORDS@[k].1@ == "in"@);
        } else if k == 22 {
            assert(KEYWORDS@[k].1@ == "is"@);
        } else if k == 23 {
            assert(KEYWORDS@[k].1@ == "lambda"@);
        } else if k == 24 {
            assert(KEYWORDS@[k].1@ == "None"@);
        } else if k == 25 {
            assert(KEYWORDS@[k].1@ == "nonlocal"@);
        } else if k == 26 {
            assert(KEYWORDS@[k].1@ == "not"@);
        } else if k == 27 {
            assert(KEYWORDS@[k].1@ == "or"@);
        } else if k == 28 {
            assert(KEYWORDS@[k].1@ == "pass"@);
        } else if k == 29 {
            assert(KEYWORDS@[k].1@ == "raise"@);
        } else if k == 30 {
            assert(KEYWORDS@[k].1@ == "return"@);
        } else if k == 31 {
            assert(KEYWORDS@[k].1@ == "True"@);
        } else if k == 32 {
            assert(KEYWORDS@[k].1@ == "try"@);
        } else if k == 33 {
            assert(KEYWORDS@[k].1@ == "type"@);
        } else if k == 34 {
            assert(KEYWORDS@[k].1@ == "while"@);
        } else if k == 35 {
            assert(KEYWORDS@[k].1@ == "with"@);
        } else if k == 36 {
            assert(KEYWORDS@[k].1@ == "yield"@);
        } else if k == 37 {
            assert(KEYWORDS@[k].1@ == "match"@);
        }
    }
}

/// No Python method name of `METHODS` holds a line feed.
proof fn lemma_method_values_line_free()
    ensures
        values_line_free(METHODS@),
{
    reveal_strlit("append");
    reveal_strlit("clear");
    reveal_strlit("copy");
    reveal_strlit("count");
    reveal_strlit("extend");
    reveal_strlit("index");
    reveal_strlit("insert");
    reveal_strlit("pop");
    reveal_strlit("remove");
    reveal_strlit("reverse");
    reveal_strlit("sort");
    reveal_strlit("fromkeys");
    reveal_strlit("get");
    reveal_strlit("items");
    reveal_strlit("keys");
    reveal_strlit("values");
    reveal_strlit("popitem");
    reveal_strlit("setdefault");
    reveal_strlit("update");
    reveal_strlit("add");
    reveal_strlit("difference");
    reveal_strlit("difference_update");
    reveal_strlit("discard");
    reveal_strlit("intersection");
    reveal_strlit("intersection_update");
    reveal_strlit("isdisjoint");
    reveal_strlit("issubset");
    reveal_strlit("issuperset");
    reveal_strlit("symmetric_difference");
    reveal_strlit("symmetric_difference_update");
    reveal_strlit("union");
    reveal_strlit("upper");
    reveal_strlit("lower");
    reveal_strlit("capitalize");
    reveal_strlit("casefold");
    reveal_strlit("center");
    reveal_strlit("encode");
    reveal_strlit("endswith");
    reveal_strlit("startswith");
    reveal_strlit("expandtabs");
    reveal_strlit("find");
    reveal_strlit("rfind");
    reveal_strlit("rindex");
    reveal_strlit("format");
    reveal_strlit("format_map");
    reveal_strlit("isalpha");
    reveal_strlit("isalnum");
    reveal_strlit("isascii");
    reveal_strlit("isdecimal");
    reveal_strlit("isdigit");
    reveal_strlit("isnumeric");
    reveal_strlit("isidentifier");
    reveal_strlit("islower");
    reveal_strlit("isupper");
    reveal_strlit("isprintable");
    reveal_strlit("isspace");
    reveal_strlit("istitle");
    reveal_strlit("join");
    reveal_strlit("ljust");
    reveal_strlit("rjust");
    reveal_strlit("strip");
    reveal_strlit("lstrip");
    reveal_strlit("rstrip");
    reveal_strlit("maketrans");
    reveal_strlit("partition");
    reveal_strlit("rpartition");
    reveal_strlit("removeprefix");
    reveal_strlit("removesuffix");
    reveal_strlit("replace");
    reveal_strlit("split");
    reveal_strlit("rsplit");
    reveal_strlit("splitlines");
    reveal_strlit("swapcase");
    reveal_strlit("title");
    reveal_strlit("translate");
    reveal_strlit("zfill");
    reveal_strlit("decode");
    reveal_strlit("fromhex");
    reveal_strlit("hex");
    reveal_strlit("__init__");
    assert forall|k: int| 0 <= k < METHODS@.len() implies line_free(#[trigger] METHODS@[k].1@) by {
        if k == 0 {
            assert(METHODS@[k].1@ == "append"@);
        } else if k == 1 {
            assert(METHODS@[k].1@ == "clear"@);
        } else if k == 2 {
            assert(METHODS@[k].1@ == "copy"@);
        } else if k == 3 {
            assert(METHODS@[k].1@ == "count"@);
        } else if k == 4 {
            assert(METHODS@[k].1@ == "extend"@);
        } else if k == 5 {
            assert(METHODS@[k].1@ == "index"@);
        } else if k == 6 {
            assert(METHODS@[k].1@ == "insert"@);
        } else if k == 7 {
            assert(METHODS@[k].1@ == "pop"@);
        } else if k == 8 {
            assert(METHODS@[k].1@ == "remove"@);
        } else if k == 9 {
            assert(METHODS@[k].1@ == "reverse"@);
        } else if k == 10 {
            assert(METHODS@[k].1@ == "sort"@);
        } else if k == 11 {
            assert(METHODS@[k].1@ == "fromkeys"@);
        } else if k == 12 {
            assert(METHODS@[k].1@ == "get"@);
        } else if k == 13 {
            assert(METHODS@[k].1@ == "items"@);
        } else if k == 14 {
            assert(METHODS@[k].1@ == "keys"@);
        } else if k == 15 {
            assert(METHODS@[k].1@ == "values"@);
        } else if k == 16 {
            assert(METHODS@[k].1@ == "popitem"@);
        } else if k == 17 {
            assert(METHODS@[k].1@ == "setdefault"@);
        } else if k == 18 {
            assert(METHODS@[k].1@ == "update"@);
        } else if k == 19 {
            assert(METHODS@[k].1@ == "add"@);
        } else if k == 20 {
            assert(METHODS@[k].1@ == "difference"@);
        } else if k == 21 {
            assert(METHODS@[k].1@ == "difference_update"@);
        } else if k == 22 {
            assert(METHODS@[k].1@ == "discard"@);
        } else if k == 23 {
            assert(METHODS@[k].1@ == "intersection"@);
        } else if k == 24 {
            assert(METHODS@[k].1@ == "intersection_update"@);
        } else if k == 25 {
            assert(METHODS@[k].1@ == "isdisjoint"@);
        } else if k == 26 {
            assert(METHODS@[k].1@ == "issubset"@);
        } else if k == 27 {
            assert(METHODS@[k].1@ == "issuperset"@);
        } else if k == 28 {
            assert(METHODS@[k].1@ == "symmetric_difference"@);
        } else if k == 29 {
            assert(METHODS@[k].1@ == "symmetric_difference_update"@);
        } else if k == 30 {
            assert(METHODS@[k].1@ == "union"@);
        } else if k == 31 {
            assert(METHODS@[k].1@ == "upper"@);
        } else if k == 32 {
            assert(METHODS@[k].1@ == "lower"@);
        } else if k == 33 {
            assert(METHODS@[k].1@ == "capitalize"@);
        } else if k == 34 {
            assert(METHODS@[k].1@ == "casefold"@);
        } else if k == 35 {
            assert(METHODS@[k].1@ == "center"@);
        } else if k == 36 {
            assert(METHODS@[k].1@ == "encode"@);
        } else if k == 37 {
            assert(METHODS@[k].1@ == "endswith"@);
        } else if k == 38 {
            assert(METHODS@[k].1@ == "startswith"@);
        } else if k == 39 {
            assert(METHODS@[k].1@ == "expandtabs"@);
        } else if k == 40 {
            assert(METHODS@[k].1@ == "find"@);
        } else if k == 41 {
            assert(METHODS@[k].1@ == "rfind"@);
        } else if k == 42 {
            assert(METHODS@[k].1@ == "rindex"@);
        } else if k == 43 {
            assert(METHODS@[k].1@ == "format"@);
        } else if k == 44 {
            assert(METHODS@[k].1@ == "format_map"@);
        } else if k == 45 {
            assert(METHODS@[k].1@ == "isalpha"@);
        } else if k == 46 {
            assert(METHODS@[k].1@ == "isalnum"@);
        } else if k == 47 {
            assert(METHODS@[k].1@ == "isascii"@);
        } else if k == 48 {
            assert(METHODS@[k].1@ == "isdecimal"@);
        } else if k == 49 {
            assert(METHODS@[k].1@ == "isdigit"@);
        } else if k == 50 {
            assert(METHODS@[k].1@ == "isnumeric"@);
        } else if k == 51 {
            assert(METHODS@[k].1@ == "isidentifier"@);
        } else if k == 52 {
            assert(METHODS@[k].1@ == "islower"@);
        } else if k == 53 {
            assert(METHODS@[k].1@ == "isupper"@);
        } else if k == 54 {
            assert(METHODS@[k].1@ == "isprintable"@);
        } else if k == 55 {
            assert(METHODS@[k].1@ == "isspace"@);
        } else if k == 56 {
            assert(METHODS@[k].1@ == "istitle"@);
        } else if k == 57 {
            assert(METHODS@[k].1@ == "join"@);
        } else if k == 58 {
            assert(METHODS@[k].1@ == "ljust"@);
        } else if k == 59 {
            assert(METHODS@[k].1@ == "rjust"@);
        } else if k == 60 {
            assert(METHODS@[k].1@ == "strip"@);
        } else if k == 61 {
            assert(METHODS@[k].1@ == "lstrip"@);
        } else if k == 62 {
            assert(METHODS@[k].1@ == "rstrip"@);
        } else if k == 63 {
            assert(METHODS@[k].1@ == "maketrans"@);
        } else if k == 64 {
            assert(METHODS@[k].1@ == "partition"@);
        } else if k == 65 {
            assert(METHODS@[k].1@ == "rpartition"@);
        } else if k == 66 {
            assert(METHODS@[k].1@ == "removeprefix"@);
        } else if k == 67 {
            assert(METHODS@[k].1@ == "removesuffix"@);
        } else if k == 68 {
            assert(METHODS@[k].1@ == "replace"@);
        } else if k == 69 {
            assert(METHODS@[k].1@ == "split"@);
        } else if k == 70 {
            assert(METHODS@[k].1@ == "rsplit"@);
        } else if k == 71 {
            assert(METHODS@[k].1@ == "splitlines"@);
        } else if k == 72 {
            assert(METHODS@[k].1@ == "swapcase"@);
        } else if k == 73 {
            assert(METHODS@[k].1@ == "title"@);
        } else if k == 74 {
            assert(METHODS@[k].1@ == "translate"@);
        } else if k == 75 {
            assert(METHODS@[k].1@ == "zfill"@);
        } else if k == 76 {
            assert(METHODS@[k].1@ == "decode"@);
        } else if k == 77 {
            assert(METHODS@[k].1@ == "fromhex"@);
        } else if k == 78 {
            assert(METHODS@[k].1@ == "hex"@);
        } else if k == 79 {
            assert(METHODS@[k].1@ == "__init__"@);
        }
    }
}

/// The Python module names hold no line feed and are not `elif` or `else`.
proof fn lemma_module_values()
    ensures
        values_line_free(MODULES@),
        forall|k: int|
            0 <= k < MODULES@.len() ==> #[trigger] MODULES@[k].1@ != "elif"@ && MODULES@[k].1@ != "else"@,
{
    reveal_strlit("dataclasses");
    reveal_strlit("typing");
    reveal_strlit("elif");
    reveal_strlit("else");
    assert forall|k: int| 0 <= k < MODULES@.len() implies line_free(#[trigger] MODULES@[k].1@) by {
        if k == 0 {
            assert(MODULES@[k].1@ == "dataclasses"@);
        } else if k == 1 {
            assert(MODULES@[k].1@ == "typing"@);
        }
    }
    assert forall|k: int| 0 <= k < MODULES@.len() implies #[trigger] MODULES@[k].1@ != "elif"@ && MODULES@[k].1@ != "else"@ by {
        if k == 0 {
            assert(MODULES@[k].1@.len() == 11);
        } else if k == 1 {
            assert(MODULES@[k].1@.len() == 6);
        }
    }
}

/// The Python library names hold no line feed and are not `elif` or `else`.
proof fn lemma_name_values()
    ensures
        values_line_free(NAMES@),
        forall|k: int|
            0 <= k < NAMES@.len() ==> #[trigger] NAMES@[k].1@ != "elif"@ && NAMES@[k].1@ != "else"@,
{
    reveal_strlit("dataclass");
    reveal_strlit("Any");
    reveal_strlit("__all__");
    reveal_strlit("__name__");
    reveal_strlit("__init__");
    reveal_strlit("elif");
    reveal_strlit("else");
    assert forall|k: int| 0 <= k < NAMES@.len() implies line_free(#[trigger] NAMES@[k].1@) by {
        if k == 0 {
            assert(NAMES@[k].1@ == "dataclass"@);
        } else if k == 1 {
            assert(NAMES@[k].1@ == "Any"@);
        } else if k == 2 {
            assert(NAMES@[k].1@ == "__all__"@);
        } else if k == 3 {
            assert(NAMES@[k].1@ == "__all__"@);
        } else if k == 4 {
            assert(NAMES@[k].1@ == "__name__"@);
        } else if k == 5 {
            assert(NAMES@[k].1@ == "__name__"@);
        } else if k == 6 {
            assert(NAMES@[k].1@ == "__init__"@);
        }
    }
    assert forall|k: int| 0 <= k < NAMES@.len() implies #[trigger] NAMES@[k].1@ != "elif"@ && NAMES@[k].1@ != "else"@ by {
        if k == 0 {
            assert(NAMES@[k].1@.len() == 9);
        } else if k == 1 {
            assert(NAMES@[k].1@.len() == 3);
        } else if k == 2 {
            assert(NAMES@[k].1@.len() == 7);
        } else if k == 3 {
            assert(NAMES@[k].1@.len() == 7);
        } else if k == 4 {
            assert(NAMES@[k].1@.len() == 8);
        } else if k == 5 {
            assert(NAMES@[k].1@.len() == 8);
        } else if k == 6 {
            assert(NAMES@[k].1@.len() == 8);
        }
    }
}

/// What a table gives for a word is a Python name without line feeds, and
/// the module and library-name tables never give `elif` or `else`.
pub proof fn lemma_found_line_free(w: Seq<char>)
    ensures
        table_lookup(KEYWORDS@, w) matches Some(p) ==> line_free(p),
        table_lookup(METHODS@, w) matches Some(p) ==> line_free(p),
        table_lookup(MODULES@, w) matches Some(p) ==> line_free(p) && p != "elif"@ && p != "else"@,
        table_lookup(NAMES@, w) matches Some(p) ==> line_free(p) && p != "elif"@ && p != "else"@,
{
    lemma_keyword_values_line_free();
    lemma_method_values_line_free();
    lemma_module_values();
    lemma_name_values();
    if let Some(p) = table_lookup(KEYWORDS@, w) {
        let k = lemma_lookup_entry(KEYWORDS@, w, p);
        assert(line_free(KEYWORDS@[k].1@));
    }
    if let Some(p) = table_lookup(METHODS@, w) {
        let k = lemma_lookup_entry(METHODS@, w, p);
        assert(line_free(METHODS@[k].1@));
    }
    if let Some(p) = table_lookup(MODULES@, w) {
        let k = lemma_lookup_entry(MODULES@, w, p);
        assert(line_free(MODULES@[k].1@));
        assert(MODULES@[k].1@ != "elif"@);
    }
    if let Some(p) = table_lookup(NAMES@, w) {
        let k = lemma_lookup_entry(NAMES@, w, p);
        assert(line_free(NAMES@[k].1@));
        assert(NAMES@[k].1@ != "elif"@);
    }
}

} // verus!
