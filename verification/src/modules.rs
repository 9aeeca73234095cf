//! Arabic spellings for standard library module names and single library /
//! dunder names.

use vstd::prelude::*;

use crate::text::{lookup_word, opt_view, table_lookup};

verus! {

/// Arabic module names, rewritten only in the module-name position of a
/// `from … import` / `import` statement.
pub const MODULES: [(&'static str, &'static str); 2] = [
    ("معطيات_الصنوف", "dataclasses"),
    ("تصنيف", "typing"),
];

/// Library names that are always rewritten, wherever they appear as a bare
/// word.
pub const NAMES: [(&'static str, &'static str); 7] = [
    ("معطيات_الصنف", "dataclass"),
    ("أي_نوع", "Any"),
    ("الكل__", "__all__"),
    ("__الكل__", "__all__"),
    ("الاسم__", "__name__"),
    ("__الاسم__", "__name__"),
    ("__التهيئة__", "__init__"),
];

/// Return the Python module name for an Arabic module name, or `None`.
pub fn module(arabic: &str) -> (r: Option<&'static str>)
    ensures
        opt_view(r) == table_lookup(MODULES@, arabic@),
{
    lookup_word(&MODULES, arabic)
}

/// Return the Python name for an Arabic library / dunder name, or `None`.
pub fn name(arabic: &str) -> (r: Option<&'static str>)
    ensures
        opt_view(r) == table_lookup(NAMES@, arabic@),
{
    lookup_word(&NAMES, arabic)
}

} // verus!
