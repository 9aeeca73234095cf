//! Character-level text utilities shared by the translator: conversion
//! between `str`/`String` and `Vec<char>`, comparison of a character range
//! with a string literal, lookup in `(arabic, python)` tables, and the two
//! Unicode character classes that the translator consults.

use vstd::prelude::*;

verus! {

/// Whether `c` satisfies `char::is_alphanumeric` (Unicode `Alphabetic` or
/// `Numeric`). The classification comes from std's Unicode tables.
pub uninterp spec fn alphanumeric(c: char) -> bool;

/// An Arabic letter (U+0620 to U+064A, tatweel among them) or an
/// Arabic-Indic or Persian digit.
pub open spec fn arabic_letter_or_digit(c: char) -> bool {
    ('\u{0620}' <= c && c <= '\u{064A}') || ('\u{0660}' <= c && c <= '\u{0669}') || (
    '\u{06F0}' <= c && c <= '\u{06F9}')
}

/// `char::is_alphanumeric`, as far as it is known here: among ASCII
/// characters exactly the letters and digits; every Arabic letter and digit;
/// no white space; other characters as Unicode's tables say.
pub open spec fn spec_alphanumeric(c: char) -> bool {
    if c <= '\u{7F}' {
        ('a' <= c && c <= 'z') || ('A' <= c && c <= 'Z') || ('0' <= c && c <= '9')
    } else if arabic_letter_or_digit(c) {
        true
    } else if spec_whitespace(c) {
        false
    } else {
        alphanumeric(c)
    }
}

/// `char::is_whitespace`: the Unicode `White_Space` property, which holds
/// for exactly these 25 code points (Unicode's PropList.txt, unchanged since
/// Unicode 6.3).
pub open spec fn spec_whitespace(c: char) -> bool {
    c == ' ' || ('\t' <= c && c <= '\r') || c == '\u{85}' || c == '\u{A0}' || c == '\u{1680}'
        || ('\u{2000}' <= c && c <= '\u{200A}') || c == '\u{2028}' || c == '\u{2029}' || c
        == '\u{202F}' || c == '\u{205F}' || c == '\u{3000}'
}

/// Calls `char::is_alphanumeric`, which std defines as having the Unicode
/// `Alphabetic` or `Numeric` property. The result is named by
/// `alphanumeric`; beyond that, the contract states what those properties
/// give for the characters this crate reads: within ASCII they hold exactly
/// for letters and digits, Arabic letters (category Lo, tatweel Lm) and
/// Arabic-Indic and Persian digits (Nd) have them, and no `White_Space`
/// character (categories Zs, Zl, Zp and Cc) has them. Nothing is said of
/// other characters.
#[verifier::external_body]
pub(crate) fn char_is_alphanumeric(c: char) -> (r: bool)
    ensures
        r == alphanumeric(c),
        c <= '\u{7F}' ==> (r <==> (('a' <= c && c <= 'z') || ('A' <= c && c <= 'Z') || ('0' <= c
            && c <= '9'))),
        arabic_letter_or_digit(c) ==> r,
        spec_whitespace(c) ==> !r,
{
    c.is_alphanumeric()
}

/// Calls `char::is_whitespace`, which std defines as having the Unicode
/// `White_Space` property; the contract states that property in full.
#[verifier::external_body]
pub(crate) fn char_is_whitespace(c: char) -> (r: bool)
    ensures
        r == spec_whitespace(c),
{
    c.is_whitespace()
}

/// Calls `String::push`, which appends one character.
#[verifier::external_body]
pub(crate) fn string_push(s: &mut String, c: char)
    ensures
        final(s)@ == old(s)@.push(c),
{
    s.push(c);
}

/// The characters of `s`, in order.
pub fn chars_of(s: &str) -> (v: Vec<char>)
    ensures
        v@ == s@,
{
    let mut v: Vec<char> = Vec::new();
    for c in it: s.chars()
        invariant
            v@ == it.seq().take(it.index() as int),
    {
        v.push(c);
    }
    v
}

/// The string made of the characters of `v`, in order.
pub fn string_of(v: &Vec<char>) -> (s: String)
    ensures
        s@ == v@,
{
    let mut s = String::new();
    let mut i: usize = 0;
    while i < v.len()
        invariant
            i <= v.len(),
            s@ == v@.take(i as int),
        decreases v.len() - i,
    {
        string_push(&mut s, v[i]);
        i += 1;
        assert(s@ == v@.take(i as int));
    }
    assert(v@.take(v.len() as int) == v@);
    s
}

/// Append `src[lo..hi]` to `out`.
pub fn push_range(out: &mut Vec<char>, src: &Vec<char>, lo: usize, hi: usize)
    requires
        lo <= hi <= src@.len(),
    ensures
        final(out)@ == old(out)@ + src@.subrange(lo as int, hi as int),
{
    let mut k = lo;
    while k < hi
        invariant
            lo <= k <= hi <= src@.len(),
            out@ == old(out)@ + src@.subrange(lo as int, k as int),
        decreases hi - k,
    {
        out.push(src[k]);
        k += 1;
    }
}

/// A fresh vector holding `src[lo..hi]`.
pub fn copy_range(src: &Vec<char>, lo: usize, hi: usize) -> (v: Vec<char>)
    requires
        lo <= hi <= src@.len(),
    ensures
        v@ == src@.subrange(lo as int, hi as int),
{
    let mut v: Vec<char> = Vec::new();
    push_range(&mut v, src, lo, hi);
    v
}

/// Whether the characters `src[lo..hi]` spell exactly `lit`.
pub fn range_is(src: &Vec<char>, lo: usize, hi: usize, lit: &str) -> (r: bool)
    requires
        lo <= hi <= src@.len(),
    ensures
        r == (src@.subrange(lo as int, hi as int) == lit@),
{
    let ghost w = src@.subrange(lo as int, hi as int);
    let mut k = lo;
    for c in it: lit.chars()
        invariant
            lo <= k <= hi <= src@.len(),
            k - lo == it.index(),
            it.seq() == lit@,
            w == src@.subrange(lo as int, hi as int),
            w.take(it.index() as int) == lit@.take(it.index() as int),
    {
        if k >= hi || src[k] != c {
            proof {
                if k < hi {
                    assert(w[k - lo] != lit@[k - lo]);
                }
            }
            return false;
        }
        k += 1;
        proof {
            assert(w.take(it.index() + 1) == lit@.take(it.index() + 1));
        }
    }
    proof {
        assert(lit@.take(lit@.len() as int) == lit@);
        if k < hi {
            assert(w.len() > lit@.len());
        } else {
            assert(w == w.take(w.len() as int));
        }
    }
    k == hi
}

/// The view of an optional string.
pub open spec fn opt_view(o: Option<&str>) -> Option<Seq<char>> {
    match o {
        Some(s) => Some(s@),
        None => None,
    }
}

/// The value of the first `(key, value)` pair of `table` whose key spells
/// `w`, or `None` when no key does.
pub open spec fn table_lookup(table: Seq<(&'static str, &'static str)>, w: Seq<char>) -> Option<
    Seq<char>,
>
    decreases table.len(),
{
    if table.len() == 0 {
        None
    } else if table[0].0@ == w {
        Some(table[0].1@)
    } else {
        table_lookup(table.drop_first(), w)
    }
}

/// Look `src[lo..hi]` up in `table` (first matching key wins).
pub fn lookup_range(
    table: &[(&'static str, &'static str)],
    src: &Vec<char>,
    lo: usize,
    hi: usize,
) -> (r: Option<&'static str>)
    requires
        lo <= hi <= src@.len(),
    ensures
        opt_view(r) == table_lookup(table@, src@.subrange(lo as int, hi as int)),
{
    let ghost w = src@.subrange(lo as int, hi as int);
    let mut i: usize = 0;
    assert(table@.skip(0) == table@);
    while i < table.len()
        invariant
            i <= table@.len(),
            table_lookup(table@, w) == table_lookup(table@.skip(i as int), w),
            w == src@.subrange(lo as int, hi as int),
            lo <= hi <= src@.len(),
        decreases table.len() - i,
    {
        let (key, value) = table[i];
        if range_is(src, lo, hi, key) {
            assert(table@.skip(i as int)[0] == table@[i as int]);
            return Some(value);
        }
        assert(table@.skip(i as int).drop_first() == table@.skip(i + 1));
        i += 1;
    }
    None
}

/// Look the word `word` up in `table` (first matching key wins).
pub fn lookup_word(table: &[(&'static str, &'static str)], word: &str) -> (r: Option<
    &'static str,
>)
    ensures
        opt_view(r) == table_lookup(table@, word@),
{
    let w = chars_of(word);
    assert(w@.subrange(0, w@.len() as int) == w@);
    lookup_range(table, &w, 0, w.len())
}

} // verus!
