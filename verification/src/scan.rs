//! Character classes and the scanning primitives of the translator: words,
//! digits, escapes, string-literal boundaries and f-string braces.

use vstd::prelude::*;

use crate::text::{char_is_alphanumeric, char_is_whitespace, spec_alphanumeric, spec_whitespace};

verus! {

/// A character that may appear in an identifier or a keyword.
pub open spec fn spec_is_word_char(c: char) -> bool {
    c == '_' || spec_alphanumeric(c)
}

/// An Arabic-Indic (٠-٩) or Persian (۰-۹) digit.
pub open spec fn spec_is_arabic_digit(c: char) -> bool {
    ('\u{0660}' <= c && c <= '\u{0669}') || ('\u{06F0}' <= c && c <= '\u{06F9}')
}

/// The ASCII digit that an Arabic-Indic or Persian digit stands for.
pub open spec fn spec_ascii_digit(c: char) -> Option<char> {
    if '\u{0660}' <= c && c <= '\u{0669}' {
        Some(((c as int) - 0x0660 + 0x30) as char)
    } else if '\u{06F0}' <= c && c <= '\u{06F9}' {
        Some(((c as int) - 0x06F0 + 0x30) as char)
    } else {
        None
    }
}

/// `c` with an Arabic-Indic or Persian digit replaced by its ASCII form.
pub open spec fn digit_to_ascii(c: char) -> char {
    match spec_ascii_digit(c) {
        Some(d) => d,
        None => c,
    }
}

/// `s` with every Arabic-Indic or Persian digit replaced by its ASCII form.
pub open spec fn digits_to_ascii(s: Seq<char>) -> Seq<char> {
    s.map_values(|c: char| digit_to_ascii(c))
}

/// The Python escape letter that a Shifra escape letter stands for.
pub open spec fn spec_shifra_escape(letter: char) -> Option<char> {
    if letter == 'ج' {
        Some('n')
    } else if letter == 'ط' {
        Some('t')
    } else if letter == 'ر' {
        Some('r')
    } else if letter == 'م' {
        Some('\\')
    } else if letter == 'ص' {
        Some('0')
    } else if letter == 'س' {
        Some('b')
    } else if letter == 'ن' {
        Some('f')
    } else if letter == 'ع' {
        Some('v')
    } else if letter == 'ت' {
        Some('a')
    } else {
        None
    }
}

/// A letter that may prefix a string literal (`b`, `r`, `f`, `u`, either case).
pub open spec fn spec_is_string_prefix_letter(c: char) -> bool {
    c == 'b' || c == 'B' || c == 'r' || c == 'R' || c == 'f' || c == 'F' || c == 'u' || c == 'U'
}

/// A quote character opening or closing a string literal.
pub open spec fn is_quote(c: char) -> bool {
    c == '\'' || c == '"'
}

/// Whether the first character at or after `i` that is not white space is a
/// `:`.
pub open spec fn colon_ahead(s: Seq<char>, i: int) -> bool
    decreases s.len() - i,
{
    if i < 0 || i >= s.len() {
        false
    } else if spec_whitespace(s[i]) {
        colon_ahead(s, i + 1)
    } else {
        s[i] == ':'
    }
}

/// The index of the first line feed at or after `i`, or `s.len()`.
pub open spec fn newline_at_or_after(s: Seq<char>, i: int) -> int
    decreases s.len() - i,
{
    if i < 0 || i >= s.len() {
        s.len() as int
    } else if s[i] == '\n' {
        i
    } else {
        newline_at_or_after(s, i + 1)
    }
}

/// The index of the first non-word character at or after `i`, or `s.len()`.
pub open spec fn word_end_from(s: Seq<char>, i: int) -> int
    decreases s.len() - i,
{
    if i < 0 || i >= s.len() {
        s.len() as int
    } else if !spec_is_word_char(s[i]) {
        i
    } else {
        word_end_from(s, i + 1)
    }
}

/// Three copies of `q` start at `i`.
pub open spec fn triple_at(s: Seq<char>, i: int, q: char) -> bool {
    0 <= i && i + 3 <= s.len() && s[i] == q && s[i + 1] == q && s[i + 2] == q
}

/// A triple quote (`'''` or `"""`) starts at `i`.
pub open spec fn opens_triple(s: Seq<char>, i: int) -> bool {
    triple_at(s, i, '\'') || triple_at(s, i, '"')
}

/// The length of a string delimiter.
pub open spec fn delimiter_len(triple: bool) -> int {
    if triple {
        3
    } else {
        1
    }
}

/// The index at or after `i` where the literal opened by `quote` (tripled or
/// not) closes, honoring backslash escapes; `s.len()` when it never closes.
pub open spec fn closing_quote_from(s: Seq<char>, i: int, quote: char, triple: bool) -> int
    decreases s.len() - i,
{
    if i < 0 || i >= s.len() {
        s.len() as int
    } else if s[i] == '\\' && i + 1 < s.len() {
        closing_quote_from(s, i + 2, quote, triple)
    } else if triple {
        if triple_at(s, i, if quote == '\'' { '\'' } else { '"' }) {
            i
        } else {
            closing_quote_from(s, i + 1, quote, triple)
        }
    } else if s[i] == quote {
        i
    } else {
        closing_quote_from(s, i + 1, quote, triple)
    }
}

/// The index just past the closing delimiter of the string literal whose
/// opening quote is at `start`. For a literal that never closes, the closing
/// delimiter is taken to stand at `s.len()`, so this lies past the end.
pub open spec fn literal_end(s: Seq<char>, start: int) -> int {
    let triple = opens_triple(s, start);
    let len = delimiter_len(triple);
    closing_quote_from(s, start + len, s[start], triple) + len
}

/// The index just past the string literal whose opening quote is at
/// `start`, or `s.len()` when the literal never closes.
pub open spec fn quoted_literal_end(s: Seq<char>, start: int) -> int {
    let triple = opens_triple(s, start);
    let len = delimiter_len(triple);
    let closing = closing_quote_from(s, start + len, s[start], triple);
    if closing < s.len() {
        closing + len
    } else {
        s.len() as int
    }
}

/// The index of the `}` that closes an f-string expression whose text starts
/// at `j` with `depth` braces open, or `s.len()` when none does. Quoted
/// strings and backslash escapes inside the expression are skipped.
pub open spec fn closing_brace_from(s: Seq<char>, j: int, depth: nat) -> int
    decreases s.len() - j,
{
    if j < 0 || j >= s.len() {
        s.len() as int
    } else if s[j] == '\\' && j + 1 < s.len() {
        closing_brace_from(s, j + 2, depth)
    } else if is_quote(s[j]) {
        let k = quoted_literal_end(s, j);
        proof {
            lemma_quoted_literal_end_bounds(s, j);
        }
        closing_brace_from(s, k, depth)
    } else if s[j] == '{' {
        closing_brace_from(s, j + 1, depth + 1)
    } else if s[j] == '}' {
        if depth <= 1 {
            j
        } else {
            closing_brace_from(s, j + 1, (depth - 1) as nat)
        }
    } else {
        closing_brace_from(s, j + 1, depth)
    }
}

/// `out` without its trailing white space, line feeds excepted.
pub open spec fn trim_trailing_space(out: Seq<char>) -> Seq<char>
    decreases out.len(),
{
    if out.len() > 0 && spec_whitespace(out.last()) && out.last() != '\n' {
        trim_trailing_space(out.drop_last())
    } else {
        out
    }
}

pub proof fn lemma_closing_quote_bounds(s: Seq<char>, i: int, quote: char, triple: bool)
    requires
        0 <= i <= s.len(),
    ensures
        i <= closing_quote_from(s, i, quote, triple) <= s.len(),
        closing_quote_from(s, i, quote, triple) < s.len() ==> closing_quote_from(
            s,
            i,
            quote,
            triple,
        ) + delimiter_len(triple) <= s.len(),
    decreases s.len() - i,
{
    if i < s.len() {
        if s[i] == '\\' && i + 1 < s.len() {
            lemma_closing_quote_bounds(s, i + 2, quote, triple);
        } else if triple {
            if !triple_at(s, i, if quote == '\'' { '\'' } else { '"' }) {
                lemma_closing_quote_bounds(s, i + 1, quote, triple);
            }
        } else if s[i] != quote {
            lemma_closing_quote_bounds(s, i + 1, quote, triple);
        }
    }
}

pub proof fn lemma_quoted_literal_end_bounds(s: Seq<char>, start: int)
    requires
        0 <= start < s.len(),
    ensures
        start < quoted_literal_end(s, start) <= s.len(),
        start + delimiter_len(opens_triple(s, start)) <= s.len(),
{
    let triple = opens_triple(s, start);
    lemma_closing_quote_bounds(s, start + delimiter_len(triple), s[start], triple);
}

/// A literal's end is its clamped end while it lies within the text; past
/// the text, the literal never closed.
pub proof fn lemma_literal_end(s: Seq<char>, start: int)
    requires
        0 <= start < s.len(),
    ensures
        start < literal_end(s, start) <= s.len() + 3,
        quoted_literal_end(s, start) == if literal_end(s, start) <= s.len() {
            literal_end(s, start)
        } else {
            s.len() as int
        },
{
    let triple = opens_triple(s, start);
    lemma_quoted_literal_end_bounds(s, start);
    lemma_closing_quote_bounds(s, start + delimiter_len(triple), s[start], triple);
}

pub proof fn lemma_closing_brace_bounds(s: Seq<char>, j: int, depth: nat)
    requires
        0 <= j <= s.len(),
    ensures
        j <= closing_brace_from(s, j, depth) <= s.len(),
    decreases s.len() - j,
{
    if j < s.len() {
        if s[j] == '\\' && j + 1 < s.len() {
            lemma_closing_brace_bounds(s, j + 2, depth);
        } else if is_quote(s[j]) {
            lemma_quoted_literal_end_bounds(s, j);
            lemma_closing_brace_bounds(s, quoted_literal_end(s, j), depth);
        } else if s[j] == '{' {
            lemma_closing_brace_bounds(s, j + 1, depth + 1);
        } else if s[j] == '}' {
            if depth > 1 {
                lemma_closing_brace_bounds(s, j + 1, (depth - 1) as nat);
            }
        } else {
            lemma_closing_brace_bounds(s, j + 1, depth);
        }
    }
}

pub proof fn lemma_newline_bounds(s: Seq<char>, i: int)
    requires
        0 <= i <= s.len(),
    ensures
        i <= newline_at_or_after(s, i) <= s.len(),
    decreases s.len() - i,
{
    if i < s.len() && s[i] != '\n' {
        lemma_newline_bounds(s, i + 1);
    }
}

pub proof fn lemma_word_end_bounds(s: Seq<char>, i: int)
    requires
        0 <= i <= s.len(),
    ensures
        i <= word_end_from(s, i) <= s.len(),
    decreases s.len() - i,
{
    if i < s.len() && spec_is_word_char(s[i]) {
        lemma_word_end_bounds(s, i + 1);
    }
}

/// Whether `c` may appear in an identifier.
pub fn is_word_char(c: char) -> (r: bool)
    ensures
        r == spec_is_word_char(c),
{
    c == '_' || char_is_alphanumeric(c)
}

/// Map an Arabic-Indic (٠-٩) or Persian (۰-۹) digit to its ASCII value.
///
/// Returns `None` for any other character.
pub fn ascii_digit(c: char) -> (r: Option<char>)
    ensures
        r == spec_ascii_digit(c),
{
    if '\u{0660}' <= c && c <= '\u{0669}' {
        let d = ((c as u32) - 0x0660 + 0x30) as u8;
        Some(d as char)
    } else if '\u{06F0}' <= c && c <= '\u{06F9}' {
        let d = ((c as u32) - 0x06F0 + 0x30) as u8;
        Some(d as char)
    } else {
        None
    }
}

/// Convert every Arabic-Indic / Persian digit in `s` to its ASCII form.
pub fn translate_arabic_digits(s: &Vec<char>) -> (out: Vec<char>)
    ensures
        out@ == digits_to_ascii(s@),
{
    let mut out: Vec<char> = Vec::new();
    let mut i: usize = 0;
    while i < s.len()
        invariant
            i <= s.len(),
            out@ == digits_to_ascii(s@.take(i as int)),
        decreases s.len() - i,
    {
        let c = s[i];
        match ascii_digit(c) {
            Some(d) => out.push(d),
            None => out.push(c),
        }
        assert(s@.take(i + 1) == s@.take(i as int).push(c));
        i += 1;
    }
    assert(s@.take(s.len() as int) == s@);
    out
}

/// Return `true` if `c` is an Arabic-Indic or Persian digit.
pub fn is_arabic_digit(c: char) -> (r: bool)
    ensures
        r == spec_is_arabic_digit(c),
{
    ('\u{0660}' <= c && c <= '\u{0669}') || ('\u{06F0}' <= c && c <= '\u{06F9}')
}

/// Map a Shifra escape letter (the Arabic first letter after a `\`) to the
/// Python escape letter it stands for; `None` for letters without a Shifra
/// spelling.
pub fn shifra_escape(letter: char) -> (r: Option<char>)
    ensures
        r == spec_shifra_escape(letter),
{
    if letter == 'ج' {
        Some('n')
    } else if letter == 'ط' {
        Some('t')
    } else if letter == 'ر' {
        Some('r')
    } else if letter == 'م' {
        Some('\\')
    } else if letter == 'ص' {
        Some('0')
    } else if letter == 'س' {
        Some('b')
    } else if letter == 'ن' {
        Some('f')
    } else if letter == 'ع' {
        Some('v')
    } else if letter == 'ت' {
        Some('a')
    } else {
        None
    }
}

/// Return `true` if `c` is a valid string-prefix letter.
pub fn is_string_prefix_letter(c: char) -> (r: bool)
    ensures
        r == spec_is_string_prefix_letter(c),
{
    c == 'b' || c == 'B' || c == 'r' || c == 'R' || c == 'f' || c == 'F' || c == 'u' || c == 'U'
}

/// Return `true` if the first non-whitespace character at or after `from` is
/// a `:`.
pub fn followed_by_colon(source: &Vec<char>, from: usize) -> (r: bool)
    requires
        from <= source@.len(),
    ensures
        r == colon_ahead(source@, from as int),
{
    let mut i = from;
    while i < source.len()
        invariant
            from <= i <= source@.len(),
            colon_ahead(source@, from as int) == colon_ahead(source@, i as int),
        decreases source.len() - i,
    {
        let c = source[i];
        if !char_is_whitespace(c) {
            return c == ':';
        }
        i += 1;
    }
    false
}

/// The index of the first line feed at or after `i`, or `source.len()`.
pub fn newline_from(source: &Vec<char>, i: usize) -> (r: usize)
    requires
        i <= source@.len(),
    ensures
        r == newline_at_or_after(source@, i as int),
{
    let mut k = i;
    while k < source.len()
        invariant
            i <= k <= source@.len(),
            newline_at_or_after(source@, i as int) == newline_at_or_after(source@, k as int),
        decreases source.len() - k,
    {
        if source[k] == '\n' {
            return k;
        }
        k += 1;
    }
    k
}

/// The index of the first non-word character at or after `i`, or
/// `source.len()`.
pub fn word_end(source: &Vec<char>, i: usize) -> (r: usize)
    requires
        i <= source@.len(),
    ensures
        r == word_end_from(source@, i as int),
{
    let mut k = i;
    while k < source.len()
        invariant
            i <= k <= source@.len(),
            word_end_from(source@, i as int) == word_end_from(source@, k as int),
        decreases source.len() - k,
    {
        if !is_word_char(source[k]) {
            return k;
        }
        k += 1;
    }
    k
}

/// Whether a triple quote starts at `i`.
pub fn opens_triple_at(source: &Vec<char>, i: usize) -> (r: bool)
    ensures
        r == opens_triple(source@, i as int),
{
    if i < source.len() && source.len() - i >= 3 {
        let c = source[i];
        (c == '\'' || c == '"') && source[i + 1] == c && source[i + 2] == c
    } else {
        false
    }
}

/// Find the closing quote of the string literal whose text starts at `pos`.
/// Returns the index of the closing delimiter, or `source.len()`.
pub fn find_closing_quote(source: &Vec<char>, pos: usize, quote: char, triple: bool) -> (r: usize)
    ensures
        r == closing_quote_from(source@, pos as int, quote, triple),
{
    let close = if quote == '\'' {
        '\''
    } else {
        '"'
    };
    let mut i = pos;
    while i < source.len()
        invariant
            pos <= i,
            i <= source@.len() || i == pos,
            close == (if quote == '\'' { '\'' } else { '"' }),
            closing_quote_from(source@, pos as int, quote, triple) == closing_quote_from(
                source@,
                i as int,
                quote,
                triple,
            ),
        decreases source.len() - i,
    {
        let c = source[i];
        if c == '\\' && i + 1 < source.len() {
            i += 2;
            continue;
        }
        if triple {
            if source.len() - i >= 3 && c == close && source[i + 1] == close && source[i + 2]
                == close {
                return i;
            }
        } else if c == quote {
            return i;
        }
        i += 1;
    }
    source.len()
}

/// Skip a quoted string literal whose opening quote is at `start`. Returns
/// the index just past the closing quote, or `content.len()`.
pub fn skip_quoted(content: &Vec<char>, start: usize) -> (r: usize)
    requires
        start < content@.len(),
    ensures
        r == quoted_literal_end(content@, start as int),
{
    let triple = opens_triple_at(content, start);
    let len: usize = if triple {
        3
    } else {
        1
    };
    proof {
        lemma_quoted_literal_end_bounds(content@, start as int);
        assert(len as int == delimiter_len(triple));
        assert(start + len <= content.len());
    }
    let closing = find_closing_quote(content, start + len, content[start], triple);
    proof {
        lemma_closing_quote_bounds(content@, start + len, content@[start as int], triple);
    }
    if closing < content.len() {
        closing + len
    } else {
        content.len()
    }
}

/// The index of the `}` closing the f-string expression whose text starts
/// at `from`, or `content.len()`.
pub fn matching_brace(content: &Vec<char>, from: usize) -> (r: usize)
    requires
        1 <= from <= content@.len(),
    ensures
        r == closing_brace_from(content@, from as int, 1),
{
    let mut depth: usize = 1;
    let mut j = from;
    while j < content.len()
        invariant
            from <= j <= content@.len(),
            1 <= depth <= j,
            closing_brace_from(content@, from as int, 1) == closing_brace_from(
                content@,
                j as int,
                depth as nat,
            ),
        decreases content.len() - j,
    {
        let cj = content[j];
        if cj == '\\' && j + 1 < content.len() {
            j += 2;
            continue;
        }
        if cj == '\'' || cj == '"' {
            proof {
                lemma_quoted_literal_end_bounds(content@, j as int);
            }
            j = skip_quoted(content, j);
            continue;
        }
        if cj == '{' {
            depth += 1;
        } else if cj == '}' {
            if depth <= 1 {
                return j;
            }
            depth -= 1;
        }
        j += 1;
    }
    content.len()
}

/// Drop the trailing white space of `out`, line feeds excepted.
pub fn trim_trailing_whitespace(out: &mut Vec<char>)
    ensures
        final(out)@ == trim_trailing_space(old(out)@),
{
    while out.len() > 0 && char_is_whitespace(out[out.len() - 1]) && out[out.len() - 1] != '\n'
        invariant
            trim_trailing_space(out@) == trim_trailing_space(old(out)@),
        decreases out.len(),
    {
        out.pop();
    }
}

} // verus!
