//! Arabic keyword spellings mapped to their English Python equivalents.

use vstd::prelude::*;

use crate::text::{lookup_word, opt_view, table_lookup};

verus! {

/// The `(arabic, python)` keyword pairs of the Shifra language.
pub const KEYWORDS: [(&'static str, &'static str); 38] = [
    ("و", "and"),
    ("باسم", "as"),
    ("تحقق", "assert"),
    ("لازمني", "async"),
    ("انتظر", "await"),
    ("توقف", "break"),
    ("حالة", "case"),
    ("صنف", "class"),
    ("استمر", "continue"),
    ("عرف", "def"),
    ("احذف", "del"),
    ("وإذا", "elif"),
    ("وإلا", "else"),
    ("التقط", "except"),
    ("خاطئ", "False"),
    ("ختاما", "finally"),
    ("لكل", "for"),
    ("من", "from"),
    ("عام", "global"),
    ("إذا", "if"),
    ("استورد", "import"),
    ("ضمن", "in"),
    ("هو", "is"),
    ("لامبدا", "lambda"),
    ("عدم", "None"),
    ("لامحلي", "nonlocal"),
    ("ليس", "not"),
    ("أو", "or"),
    ("تجاوز", "pass"),
    ("ارم", "raise"),
    ("أعد", "return"),
    ("صحيح", "True"),
    ("جرب", "try"),
    ("نوع", "type"),
    ("طالما", "while"),
    ("مع", "with"),
    ("انتج", "yield"),
    ("طابق", "match"),
];

/// Return the Python spelling for an Arabic keyword, or `None` if the word is
/// not a known Arabic keyword.
pub fn keyword(word: &str) -> (r: Option<&'static str>)
    ensures
        opt_view(r) == table_lookup(KEYWORDS@, word@),
{
    lookup_word(&KEYWORDS, word)
}

/// Return `true` if `word` is a known Arabic keyword.
pub fn is_keyword(word: &str) -> (r: bool)
    ensures
        r == table_lookup(KEYWORDS@, word@) is Some,
{
    keyword(word).is_some()
}

} // verus!
