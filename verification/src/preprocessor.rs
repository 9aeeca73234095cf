//! A string/comment-aware translator that rewrites Arabic keywords and object
//! methods to their English Python equivalents.
//!
//! Reserved words in code are translated everywhere; method names are
//! translated only when they appear as an attribute access (right after a
//! `.`). Words inside string literals and comments are preserved verbatim.
//!
//! The translation is specified by `translation`: the source is read token
//! by token (`token_at`, `token_end`), a small line state is carried along
//! (`Scan`), and each token appends its rendering to the output.

use vstd::prelude::*;

use crate::keywords::KEYWORDS;
use crate::methods::METHODS;
use crate::modules::{MODULES, NAMES};
use crate::scan::{
    closing_brace_from, closing_quote_from, colon_ahead, delimiter_len, digits_to_ascii,
    find_closing_quote, followed_by_colon, is_arabic_digit, is_quote, is_string_prefix_letter,
    is_word_char, lemma_closing_brace_bounds, lemma_closing_quote_bounds, lemma_newline_bounds,
    lemma_literal_end, lemma_quoted_literal_end_bounds, lemma_word_end_bounds, matching_brace, newline_at_or_after,
    literal_end, newline_from, opens_triple, opens_triple_at, quoted_literal_end, shifra_escape,
    spec_is_arabic_digit, spec_is_string_prefix_letter, spec_is_word_char, spec_shifra_escape,
    translate_arabic_digits, trim_trailing_space, trim_trailing_whitespace, word_end,
    word_end_from,
};
use crate::text::{
    char_is_whitespace, chars_of, copy_range, lookup_range, push_range, range_is, string_of,
    spec_whitespace, table_lookup,
};

verus! {

/// The kinds of token the translator tells apart.
pub enum Token {
    /// `#` up to the end of the line.
    Comment,
    /// A string literal carrying the Shifra f-prefix `مـ`.
    ShifraFString,
    /// A string literal.
    Quoted,
    /// A string literal carrying a lone Latin `f` prefix.
    LatinFString,
    /// A run of word characters.
    Word,
    /// A line feed.
    Newline,
    /// Any other white space.
    Space,
    /// Any other character.
    Other,
}

/// The kind of the token that starts at `i`.
pub open spec fn token_at(s: Seq<char>, i: int) -> Token {
    let c = s[i];
    if c == '#' {
        Token::Comment
    } else if c == 'م' && i + 2 < s.len() && s[i + 1] == 'ـ' && is_quote(s[i + 2]) {
        Token::ShifraFString
    } else if is_quote(c) {
        Token::Quoted
    } else if spec_is_word_char(c) {
        if c == 'f' && i + 1 < s.len() && is_quote(s[i + 1]) {
            Token::LatinFString
        } else {
            Token::Word
        }
    } else if c == '\n' {
        Token::Newline
    } else if spec_whitespace(c) {
        Token::Space
    } else {
        Token::Other
    }
}

/// The index just past the token that starts at `i`.
pub open spec fn token_end(s: Seq<char>, i: int) -> int {
    match token_at(s, i) {
        Token::Comment => newline_at_or_after(s, i),
        Token::ShifraFString => quoted_literal_end(s, i + 2),
        Token::Quoted => quoted_literal_end(s, i),
        Token::LatinFString => quoted_literal_end(s, i + 1),
        Token::Word => word_end_from(s, i),
        _ => i + 1,
    }
}

/// Scanning the string-prefix letters that end just before `j`, from right
/// to left: whether an `f`/`F` was seen, whether an `r`/`R` was seen, and the
/// index where the scan stopped: the first character that is not a prefix
/// letter, or -1 when the scan ran to the start of the text.
pub open spec fn prefix_letters(s: Seq<char>, j: int) -> (bool, bool, int)
    decreases j,
{
    if j <= 0 {
        (false, false, -1)
    } else if !spec_is_string_prefix_letter(s[j - 1]) {
        (false, false, j - 1)
    } else {
        let rest = prefix_letters(s, j - 1);
        let p = s[j - 1];
        (rest.0 || p == 'f' || p == 'F', rest.1 || p == 'r' || p == 'R', rest.2)
    }
}

/// The literal opened at `q` is raw: an `r`/`R` is among its prefix letters.
pub open spec fn is_raw_literal(s: Seq<char>, q: int) -> bool {
    prefix_letters(s, q).1
}

/// The literal opened at `q` is an f-string: it carries the Shifra prefix
/// `مـ`, or a Latin `f`/`F` among prefix letters that do not end an
/// identifier (they start the text, or follow a character that is not a
/// word character).
pub open spec fn is_fstring_literal(s: Seq<char>, q: int) -> bool {
    let (f, r, j) = prefix_letters(s, q);
    let not_identifier = j < 0 || !spec_is_word_char(s[j]);
    let latin_ok = !(f || r) || not_identifier;
    let shifra = q >= 2 && s[q - 2] == 'م' && s[q - 1] == 'ـ';
    (f && latin_ok) || shifra
}

/// How many characters the literal character at `i` takes (an escape takes
/// two), with `end` the end of the literal text.
pub open spec fn escape_len(s: Seq<char>, i: int, end: int) -> int {
    if s[i] == '\\' && i + 1 < end {
        2
    } else {
        1
    }
}

/// The rendering of the literal character at `i`: a Shifra escape letter
/// after a backslash becomes its Python escape letter, unless the literal is
/// raw; everything else is kept.
pub open spec fn escape_text(s: Seq<char>, i: int, end: int, raw: bool) -> Seq<char> {
    if s[i] == '\\' && i + 1 < end {
        let e = s[i + 1];
        seq![
            '\\',
            if raw {
                e
            } else {
                match spec_shifra_escape(e) {
                    Some(p) => p,
                    None => e,
                }
            },
        ]
    } else {
        seq![s[i]]
    }
}

/// The rendering of the literal text `s[i..end]` of a plain string.
pub open spec fn plain_text(s: Seq<char>, i: int, end: int, raw: bool) -> Seq<char>
    decreases end - i,
{
    if i < 0 || i >= end {
        seq![]
    } else {
        escape_text(s, i, end, raw) + plain_text(s, i + escape_len(s, i, end), end, raw)
    }
}

/// The start of the f-string expression that opens at `i`: a single `{`.
pub open spec fn opens_expression(c: Seq<char>, i: int) -> bool {
    c[i] == '{' && !(i + 1 < c.len() && c[i + 1] == '{')
}

/// The index just past the f-string piece that starts at `i`: an expression
/// `{…}`, a literal brace (`{{`, `}}`, or a lone `}`), or one character.
pub open spec fn fstring_piece_end(c: Seq<char>, i: int) -> int {
    if opens_expression(c, i) {
        let j = closing_brace_from(c, i + 1, 1);
        if j < c.len() {
            j + 1
        } else {
            j
        }
    } else if c[i] == '{' || c[i] == '}' {
        if i + 1 < c.len() && c[i + 1] == c[i] {
            i + 2
        } else {
            i + 1
        }
    } else {
        i + escape_len(c, i, c.len() as int)
    }
}

/// The line state carried through a translation.
pub struct Scan {
    /// Where the next token starts.
    pub index: int,
    /// What has been written so far.
    pub out: Seq<char>,
    /// The current line has shown code (or a comment) already.
    pub line_has_code: bool,
    /// The leading white space of the current line.
    pub indent: Seq<char>,
    /// The previous word was `from`: a module name may follow.
    pub expect_from: bool,
    /// The previous word was `import`: a module name may follow.
    pub expect_import: bool,
}

/// The state before the first token.
pub open spec fn initial_scan() -> Scan {
    Scan {
        index: 0,
        out: seq![],
        line_has_code: false,
        indent: seq![],
        expect_from: false,
        expect_import: false,
    }
}

/// The word token that starts at `i`.
pub open spec fn word_at(s: Seq<char>, i: int) -> Seq<char> {
    s.subrange(i, word_end_from(s, i))
}

/// The word at `i` is an attribute access (it follows a `.`).
pub open spec fn after_dot(s: Seq<char>, i: int) -> bool {
    i > 0 && s[i - 1] == '.'
}

/// The Python spelling written for the word at `i`: after a dot, its method
/// name; otherwise its keyword, else (right after `from`/`import`) its module
/// name, else its library name; the word itself when none applies.
pub open spec fn replacement(s: Seq<char>, i: int, expecting_module: bool) -> Seq<char> {
    let w = word_at(s, i);
    if after_dot(s, i) {
        match table_lookup(METHODS@, w) {
            Some(p) => p,
            None => w,
        }
    } else {
        match table_lookup(KEYWORDS@, w) {
            Some(p) => p,
            None => {
                let m = if expecting_module {
                    table_lookup(MODULES@, w)
                } else {
                    None
                };
                match m {
                    Some(p) => p,
                    None => match table_lookup(NAMES@, w) {
                        Some(p) => p,
                        None => w,
                    },
                }
            },
        }
    }
}

/// The replacement written for the word token of `st`.
pub open spec fn word_replacement(s: Seq<char>, st: Scan) -> Seq<char> {
    replacement(s, st.index, st.expect_from || st.expect_import)
}

/// The word token of `st` is an `elif`, or an `else` followed by `:`, in the
/// middle of a line of code: it must start a new line.
pub open spec fn splits_line(s: Seq<char>, st: Scan) -> bool {
    let r = word_replacement(s, st);
    &&& !after_dot(s, st.index)
    &&& st.line_has_code
    &&& (r == "elif"@ || (r == "else"@ && colon_ahead(s, word_end_from(s, st.index))))
}

/// A replacement that starts with an Arabic digit is a number: its digits
/// are written in ASCII.
pub open spec fn word_text(r: Seq<char>) -> Seq<char> {
    if r.len() > 0 && spec_is_arabic_digit(r[0]) {
        digits_to_ascii(r)
    } else {
        r
    }
}

/// The output after the word token of `st`.
pub open spec fn word_output(s: Seq<char>, st: Scan) -> Seq<char> {
    let base = if splits_line(s, st) {
        trim_trailing_space(st.out).push('\n') + st.indent
    } else {
        st.out
    };
    base + word_text(word_replacement(s, st))
}

/// The state after the token of `st`, its output aside.
pub open spec fn next_state(s: Seq<char>, st: Scan) -> Scan {
    let i = st.index;
    let e = token_end(s, i);
    match token_at(s, i) {
        Token::Word => {
            let r = word_replacement(s, st);
            let dot = after_dot(s, i);
            let keep = dot || table_lookup(KEYWORDS@, word_at(s, i)) is Some;
            Scan {
                index: e,
                out: st.out,
                line_has_code: true,
                indent: st.indent,
                expect_from: (!dot && r == "from"@) || (keep && st.expect_from),
                expect_import: (!dot && r == "import"@) || (keep && st.expect_import),
            }
        },
        Token::Newline => Scan {
            index: e,
            out: st.out,
            line_has_code: false,
            indent: seq![],
            expect_from: false,
            expect_import: false,
        },
        Token::Space => Scan {
            index: e,
            out: st.out,
            line_has_code: st.line_has_code,
            indent: if st.line_has_code {
                st.indent
            } else {
                st.indent.push(s[i])
            },
            expect_from: st.expect_from,
            expect_import: st.expect_import,
        },
        _ => Scan {
            index: e,
            out: st.out,
            line_has_code: true,
            indent: st.indent,
            expect_from: st.expect_from,
            expect_import: st.expect_import,
        },
    }
}

/// The output after the token of `st`.
pub open spec fn next_output(s: Seq<char>, st: Scan) -> Seq<char>
    decreases s.len(), 1int, 0int,
{
    let i = st.index;
    match token_at(s, i) {
        Token::Comment => st.out + s.subrange(i, token_end(s, i)),
        Token::ShifraFString => st.out + seq!['f'] + quoted_text(s, i + 2),
        Token::Quoted => st.out + quoted_text(s, i),
        Token::LatinFString => st.out + seq!['f'] + quoted_text(s, i + 1),
        Token::Word => word_output(s, st),
        _ => st.out.push(s[i]),
    }
}

/// The rendering of the string literal whose opening quote is at `q`: the
/// delimiters are kept; a plain literal's text is kept with Shifra escapes
/// applied (none in a raw literal); an f-string's expressions are translated.
pub open spec fn quoted_text(s: Seq<char>, q: int) -> Seq<char>
    decreases s.len(), 0int, 0int,
{
    if q < 0 || q >= s.len() {
        seq![]
    } else {
        let triple = opens_triple(s, q);
        let len = delimiter_len(triple);
        let closing = closing_quote_from(s, q + len, s[q], triple);
        let raw = is_raw_literal(s, q);
        proof {
            lemma_quoted_literal_end_bounds(s, q);
            lemma_closing_quote_bounds(s, q + len, s[q], triple);
        }
        let body = if is_fstring_literal(s, q) {
            fstring_text(s.subrange(q + len, closing), 0, raw)
        } else {
            plain_text(s, q + len, closing, raw)
        };
        let tail = if closing < s.len() {
            s.subrange(closing, closing + len)
        } else {
            seq![]
        };
        s.subrange(q, q + len) + body + tail
    }
}

/// The rendering of the f-string text `c[i..]`: each `{…}` expression is
/// translated, `{{` and `}}` become one brace, and other characters are
/// rendered as in a plain literal.
pub open spec fn fstring_text(c: Seq<char>, i: int, raw: bool) -> Seq<char>
    decreases c.len(), 4int, c.len() - i,
{
    if i < 0 || i >= c.len() {
        seq![]
    } else {
        proof {
            lemma_fstring_piece_end_bounds(c, i);
            lemma_closing_brace_bounds(c, i + 1, 1);
        }
        let piece = if opens_expression(c, i) {
            let j = closing_brace_from(c, i + 1, 1);
            seq!['{'] + translation(c.subrange(i + 1, j)) + seq!['}']
        } else if c[i] == '{' || c[i] == '}' {
            seq![c[i]]
        } else {
            escape_text(c, i, c.len() as int, raw)
        };
        piece + fstring_text(c, fstring_piece_end(c, i), raw)
    }
}

/// The output of a translation that has reached `st`.
pub open spec fn run(s: Seq<char>, st: Scan) -> Seq<char>
    decreases s.len(), 2int, if 0 <= st.index < s.len() {
        s.len() - st.index
    } else {
        0
    },
{
    if st.index < 0 || st.index >= s.len() {
        st.out
    } else {
        proof {
            lemma_token_end_bounds(s, st.index);
        }
        let nx = next_state(s, st);
        run(
            s,
            Scan {
                index: nx.index,
                out: next_output(s, st),
                line_has_code: nx.line_has_code,
                indent: nx.indent,
                expect_from: nx.expect_from,
                expect_import: nx.expect_import,
            },
        )
    }
}

/// The Python source that the Shifra source `s` translates to.
pub open spec fn translation(s: Seq<char>) -> Seq<char>
    decreases s.len(), 3int, 0int,
{
    run(s, initial_scan())
}

pub proof fn lemma_token_end_bounds(s: Seq<char>, i: int)
    requires
        0 <= i < s.len(),
    ensures
        i < token_end(s, i) <= s.len(),
{
    match token_at(s, i) {
        Token::Comment => lemma_newline_bounds(s, i + 1),
        Token::ShifraFString => lemma_quoted_literal_end_bounds(s, i + 2),
        Token::Quoted => lemma_quoted_literal_end_bounds(s, i),
        Token::LatinFString => lemma_quoted_literal_end_bounds(s, i + 1),
        Token::Word => lemma_word_end_bounds(s, i + 1),
        _ => {},
    }
}

pub proof fn lemma_fstring_piece_end_bounds(c: Seq<char>, i: int)
    requires
        0 <= i < c.len(),
    ensures
        i < fstring_piece_end(c, i) <= c.len(),
{
    lemma_closing_brace_bounds(c, i + 1, 1);
}

/// Copy the literal character at `*i` of `content` (whose literal text ends
/// at `len`) to `out`, applying Shifra escapes in non-raw literals. Advances
/// `*i` past it.
fn push_fstring_char(content: &Vec<char>, len: usize, raw: bool, out: &mut Vec<char>, i: &mut usize)
    requires
        *old(i) < len <= content@.len(),
    ensures
        final(out)@ == old(out)@ + escape_text(content@, *old(i) as int, len as int, raw),
        *final(i) == *old(i) + escape_len(content@, *old(i) as int, len as int),
{
    let ch = content[*i];
    if ch == '\\' && *i + 1 < len {
        let escaped = content[*i + 1];
        out.push('\\');
        if raw {
            out.push(escaped);
        } else {
            match shifra_escape(escaped) {
                Some(py) => out.push(py),
                None => out.push(escaped),
            }
        }
        *i = *i + 2;
    } else {
        out.push(ch);
        *i = *i + 1;
    }
}

/// Is the f-string character at `content[i]` a doubled `{{` (a
/// literal-brace escape)?
fn next_is_double_brace(content: &Vec<char>, i: usize) -> (r: bool)
    requires
        i < content@.len(),
    ensures
        r == (content@[i as int] == '{' && i + 1 < content@.len() && content@[i + 1] == '{'),
{
    content[i] == '{' && content.len() - i > 1 && content[i + 1] == '{'
}

/// Translate the *content* of an f-string (the text between its quotes).
/// Literal runs are kept (Shifra escapes applied); each `{…}` expression is
/// translated with the full Shifra word rules.
fn translate_fstring_content(content: &Vec<char>, raw: bool, out: &mut Vec<char>)
    requires
        content@.len() + 3 <= usize::MAX,
    ensures
        final(out)@ == old(out)@ + fstring_text(content@, 0, raw),
    decreases content@.len(), 4int,
{
    let len = content.len();
    let mut i: usize = 0;
    while i < len
        invariant
            i <= len,
            len == content@.len(),
            len + 3 <= usize::MAX,
            old(out)@ + fstring_text(content@, 0, raw) == out@ + fstring_text(
                content@,
                i as int,
                raw,
            ),
        decreases len - i,
    {
        proof {
            lemma_fstring_piece_end_bounds(content@, i as int);
            lemma_closing_brace_bounds(content@, i + 1, 1);
        }
        let ghost before = out@;
        let ghost at = i as int;
        let ch = content[i];
        if ch == '{' && !next_is_double_brace(content, i) {
            let j = matching_brace(content, i + 1);
            let expr = copy_range(content, i + 1, j);
            out.push('{');
            let translated = translate_chars(&expr);
            push_range(out, &translated, 0, translated.len());
            out.push('}');
            assert(translated@.subrange(0, translated@.len() as int) == translated@);
            i = if j < len {
                j + 1
            } else {
                j
            };
            assert(out@ == before + (seq!['{'] + translation(content@.subrange(at + 1, j as int))
                + seq!['}']));
        } else if ch == '{' || ch == '}' {
            out.push(ch);
            if i + 1 < len && content[i + 1] == ch {
                i += 1;
            }
            i += 1;
            assert(out@ == before + seq![ch]);
        } else {
            push_fstring_char(content, len, raw, out, &mut i);
        }
        assert(i as int == fstring_piece_end(content@, at));
    }
}

/// Consume a full string literal whose opening quote is at `index` in
/// `source`, appending the translated literal to `out`. Returns the index
/// just past the closing quote; for a literal that never closes, the index
/// its closing delimiter would end at, past the end of the source.
///
/// The prefix letters just before the quote decide f-string (Latin `f`/`F`
/// or Shifra `مـ`) and raw (`r`/`R`) status. Plain strings are preserved
/// (Shifra escapes applied); f-strings additionally translate every `{…}`
/// expression.
fn consume_quoted(source: &Vec<char>, index: usize, out: &mut Vec<char>) -> (r: usize)
    requires
        index < source@.len(),
        source@.len() + 3 <= usize::MAX,
    ensures
        final(out)@ == old(out)@ + quoted_text(source@, index as int),
        r == literal_end(source@, index as int),
    decreases source@.len(), 0int,
{
    let ghost s = source@;
    let len = source.len();
    let quote = source[index];
    let triple = opens_triple_at(source, index);
    let quote_len: usize = if triple {
        3
    } else {
        1
    };
    proof {
        lemma_quoted_literal_end_bounds(s, index as int);
        assert(quote_len as int == delimiter_len(triple));
        assert(index + quote_len <= len);
        lemma_closing_quote_bounds(s, index + quote_len, quote, triple);
    }
    let closing = find_closing_quote(source, index + quote_len, quote, triple);

    // Inspect the prefix letters just before the opening quote.
    let mut is_f = false;
    let mut is_raw = false;
    let mut j = index;
    while j > 0 && is_string_prefix_letter(source[j - 1])
        invariant
            j <= index < len == s.len(),
            s == source@,
            prefix_letters(s, index as int) == (
                is_f || prefix_letters(s, j as int).0,
                is_raw || prefix_letters(s, j as int).1,
                prefix_letters(s, j as int).2,
            ),
        decreases j,
    {
        let p = source[j - 1];
        if p == 'f' || p == 'F' {
            is_f = true;
        }
        if p == 'r' || p == 'R' {
            is_raw = true;
        }
        j -= 1;
    }
    // A Latin prefix must not be the tail of an identifier (`bar"…"`); one
    // that starts the text is not.
    let not_identifier = if j > 0 {
        !is_word_char(source[j - 1])
    } else {
        true
    };
    assert(prefix_letters(s, index as int).0 == is_f);
    assert(prefix_letters(s, index as int).1 == is_raw);
    assert(prefix_letters(s, index as int).2 == if j > 0 {
        j - 1
    } else {
        -1
    });
    let latin_ok = !(is_f || is_raw) || not_identifier;
    let shifra_f = index >= 2 && source[index - 2] == 'م' && source[index - 1] == 'ـ';
    let fstring = (is_f && latin_ok) || shifra_f;
    assert(fstring == is_fstring_literal(s, index as int));

    let ghost start = out@;
    push_range(out, source, index, index + quote_len);
    let ghost opened = out@;
    if fstring {
        let content = copy_range(source, index + quote_len, closing);
        translate_fstring_content(&content, is_raw, out);
    } else {
        let mut i = index + quote_len;
        while i < closing
            invariant
                index + quote_len <= i <= closing <= len == s.len(),
                s == source@,
                opened + plain_text(s, index + quote_len, closing as int, is_raw) == out@
                    + plain_text(s, i as int, closing as int, is_raw),
            decreases closing - i,
        {
            push_fstring_char(source, closing, is_raw, out, &mut i);
        }
    }
    let ghost body_done = out@;
    if closing < len {
        push_range(out, source, closing, closing + quote_len);
    }
    assert(out@ == start + quoted_text(s, index as int)) by {
        assert(body_done == opened + (if fstring {
            fstring_text(s.subrange(index + quote_len, closing as int), 0, is_raw)
        } else {
            plain_text(s, index + quote_len, closing as int, is_raw)
        }));
    }
    closing + quote_len
}

/// Write the word token that starts at `start`, and update the module-name
/// expectations. Returns the index just past the word.
fn emit_word(
    source: &Vec<char>,
    start: usize,
    output: &mut Vec<char>,
    line_has_code: bool,
    line_indent: &Vec<char>,
    expect_from_module: &mut bool,
    expect_import_module: &mut bool,
) -> (end: usize)
    requires
        start < source@.len(),
        token_at(source@, start as int) == Token::Word,
    ensures
        ({
            let st = Scan {
                index: start as int,
                out: old(output)@,
                line_has_code,
                indent: line_indent@,
                expect_from: *old(expect_from_module),
                expect_import: *old(expect_import_module),
            };
            &&& final(output)@ == word_output(source@, st)
            &&& end == next_state(source@, st).index
            &&& *final(expect_from_module) == next_state(source@, st).expect_from
            &&& *final(expect_import_module) == next_state(source@, st).expect_import
        }),
{
    let ghost s = source@;
    let ghost st = Scan {
        index: start as int,
        out: output@,
        line_has_code,
        indent: line_indent@,
        expect_from: *expect_from_module,
        expect_import: *expect_import_module,
    };
    let end = word_end(source, start);
    proof {
        lemma_word_end_bounds(s, start as int);
    }
    // A word that directly follows a `.` is an attribute/method access and
    // is looked up in the methods table (e.g. `.اخرج` → `.pop`).
    let preceded_by_dot = start > 0 && source[start - 1] == '.';
    let matched_keyword = lookup_range(&KEYWORDS, source, start, end);
    let replacement_text: Vec<char> = if preceded_by_dot {
        match lookup_range(&METHODS, source, start, end) {
            Some(python) => chars_of(python),
            None => copy_range(source, start, end),
        }
    } else {
        match matched_keyword {
            Some(python) => chars_of(python),
            None => {
                // A bare word in the module-name position of a `from … import`
                // / `import` clause is looked up in the module table; other
                // bare words fall back to library / dunder names.
                let module_name = if *expect_from_module || *expect_import_module {
                    lookup_range(&MODULES, source, start, end)
                } else {
                    None
                };
                match module_name {
                    Some(python) => chars_of(python),
                    None => match lookup_range(&NAMES, source, start, end) {
                        Some(python) => chars_of(python),
                        None => copy_range(source, start, end),
                    },
                }
            },
        }
    };
    assert(replacement_text@ == word_replacement(s, st));
    let rlen = replacement_text.len();
    assert(replacement_text@.subrange(0, rlen as int) == replacement_text@);
    // A bare word that is not itself a keyword consumes a pending module
    // name expectation; `from` / `import` start a new one.
    if !preceded_by_dot && matched_keyword.is_none() {
        *expect_from_module = false;
        *expect_import_module = false;
    }
    if !preceded_by_dot && range_is(&replacement_text, 0, rlen, "from") {
        *expect_from_module = true;
    }
    if !preceded_by_dot && range_is(&replacement_text, 0, rlen, "import") {
        *expect_import_module = true;
    }
    // A mid-line `elif`, and a mid-line statement `else:`, must start a new
    // line: Python rejects them after a finished simple suite on the same
    // physical line. A ternary `else` stays inline.
    let statement_else = range_is(&replacement_text, 0, rlen, "elif") || (range_is(
        &replacement_text,
        0,
        rlen,
        "else",
    ) && followed_by_colon(source, end));
    if !preceded_by_dot && line_has_code && statement_else {
        trim_trailing_whitespace(output);
        output.push('\n');
        push_range(output, line_indent, 0, line_indent.len());
        assert(line_indent@.subrange(0, line_indent@.len() as int) == line_indent@);
    }
    assert(splits_line(s, st) == (!preceded_by_dot && line_has_code && statement_else));
    // Numeric literals written with Arabic-Indic / Persian digits are
    // rewritten to ASCII; identifiers keep their digits.
    if rlen > 0 && is_arabic_digit(replacement_text[0]) {
        let ascii = translate_arabic_digits(&replacement_text);
        push_range(output, &ascii, 0, ascii.len());
        assert(ascii@.subrange(0, ascii@.len() as int) == ascii@);
    } else {
        push_range(output, &replacement_text, 0, rlen);
    }
    end
}

/// Translate a Shifra source, given as characters, into Python source.
fn translate_chars(source: &Vec<char>) -> (output: Vec<char>)
    requires
        source@.len() + 3 <= usize::MAX,
    ensures
        output@ == translation(source@),
    decreases source@.len(), 3int,
{
    let ghost s = source@;
    let mut output: Vec<char> = Vec::new();
    let mut index: usize = 0;
    // Line state used to split one-line `إذا…وإلا` so the `else`/`elif`
    // starts a new line at the same indentation.
    let mut line_has_code = false;
    let mut line_indent: Vec<char> = Vec::new();
    // Pending `from …` / `import …` module-name positions.
    let mut expect_from_module = false;
    let mut expect_import_module = false;

    while index < source.len()
        invariant
            index <= s.len() + 3,
            s.len() + 3 <= usize::MAX,
            s == source@,
            run(
                s,
                Scan {
                    index: index as int,
                    out: output@,
                    line_has_code,
                    indent: line_indent@,
                    expect_from: expect_from_module,
                    expect_import: expect_import_module,
                },
            ) == translation(s),
        decreases source.len() + 3 - index,
    {
        let ghost st = Scan {
            index: index as int,
            out: output@,
            line_has_code,
            indent: line_indent@,
            expect_from: expect_from_module,
            expect_import: expect_import_module,
        };
        proof {
            lemma_token_end_bounds(s, index as int);
            lemma_literal_end(s, index as int);
            if index + 1 < s.len() {
                lemma_literal_end(s, index + 1);
            }
            if index + 2 < s.len() {
                lemma_literal_end(s, index + 2);
            }
        }
        let c = source[index];
        if c == '#' {
            let end = newline_from(source, index);
            push_range(&mut output, source, index, end);
            line_has_code = true;
            index = end;
        } else if c == 'م' && source.len() - index > 2 && source[index + 1] == 'ـ' && (source[index
            + 2] == '\'' || source[index + 2] == '"') {
            // A string literal carrying a Shifra `مـ` (f-string) prefix.
            output.push('f');
            index = consume_quoted(source, index + 2, &mut output);
            line_has_code = true;
        } else if c == '\'' || c == '"' {
            index = consume_quoted(source, index, &mut output);
            line_has_code = true;
        } else if is_word_char(c) {
            if c == 'f' && source.len() - index > 1 && (source[index + 1] == '\'' || source[index
                + 1] == '"') {
                // A Latin `f` immediately before a quote is an f-string prefix.
                output.push('f');
                index = consume_quoted(source, index + 1, &mut output);
                line_has_code = true;
            } else {
                index =
                    emit_word(
                    source,
                    index,
                    &mut output,
                    line_has_code,
                    &line_indent,
                    &mut expect_from_module,
                    &mut expect_import_module,
                );
                line_has_code = true;
            }
        } else if c == '\n' {
            output.push(c);
            index += 1;
            line_has_code = false;
            line_indent = Vec::new();
            expect_from_module = false;
            expect_import_module = false;
        } else if char_is_whitespace(c) {
            if !line_has_code {
                line_indent.push(c);
            }
            output.push(c);
            index += 1;
        } else {
            output.push(c);
            index += 1;
            line_has_code = true;
        }
        proof {
            let nx = next_state(s, st);
            // A literal that never closes leaves the index past the end,
            // where the scan stops just as it does at the end.
            assert(index as int == nx.index || (index >= s.len() && nx.index == s.len()));
            assert(output@ == next_output(s, st));
            assert(line_has_code == nx.line_has_code);
            assert(line_indent@ == nx.indent);
            assert(expect_from_module == nx.expect_from);
            assert(expect_import_module == nx.expect_import);
            let next = Scan {
                index: nx.index,
                out: next_output(s, st),
                line_has_code: nx.line_has_code,
                indent: nx.indent,
                expect_from: nx.expect_from,
                expect_import: nx.expect_import,
            };
            let now = Scan {
                index: index as int,
                out: output@,
                line_has_code,
                indent: line_indent@,
                expect_from: expect_from_module,
                expect_import: expect_import_module,
            };
            assert(run(s, st) == run(s, next));
            assert(run(s, now) == run(s, next)) by {
                if index as int != nx.index {
                    assert(run(s, now) == now.out);
                    assert(run(s, next) == next.out);
                }
            }
        }
    }
    output
}

/// Translate an Arabic source string into valid Python source.
///
/// Walks the source character by character, translating Arabic keywords,
/// methods, module and library names and Arabic digits, while leaving
/// strings and comments untouched (Shifra escapes aside).
///
/// The source must be at least three characters shy of `usize::MAX`, so
/// that the index past an unterminated literal's closing delimiter fits in
/// a `usize`; a `str` never comes near that length.
pub fn translate(source: &str) -> (r: String)
    requires
        source@.len() + 3 <= usize::MAX,
    ensures
        r@ == translation(source@),
{
    let chars = chars_of(source);
    let output = translate_chars(&chars);
    string_of(&output)
}

} // verus!
