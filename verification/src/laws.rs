//! Properties of the translator that hold for every input of a given shape.

use vstd::prelude::*;

use crate::keywords::KEYWORDS;
use crate::methods::METHODS;
use crate::modules::{MODULES, NAMES};
use crate::preprocessor::{
    after_dot, escape_len, escape_text, fstring_piece_end, fstring_text, initial_scan,
    is_fstring_literal, is_raw_literal, lemma_fstring_piece_end_bounds, lemma_token_end_bounds,
    next_output, next_state, opens_expression, plain_text, prefix_letters, quoted_text, run, splits_line,
    token_at, token_end, translation, word_at, word_replacement, word_text, Scan, Token,
};
use crate::scan::{
    closing_brace_from, closing_quote_from, colon_ahead, delimiter_len, digit_to_ascii,
    digits_to_ascii, is_quote,
    lemma_closing_brace_bounds, lemma_closing_quote_bounds, lemma_newline_bounds,
    lemma_quoted_literal_end_bounds, lemma_word_end_bounds, newline_at_or_after, opens_triple,
    quoted_literal_end, spec_is_arabic_digit, spec_is_string_prefix_letter, spec_is_word_char,
    spec_shifra_escape,
    trim_trailing_space, triple_at, word_end_from,
};
use crate::table_laws::{
    has_arabic, in_arabic_block, law_table_keys_are_arabic, lemma_found_line_free,
    lemma_found_shape, lemma_keywords_entries, lemma_methods_entries, lemma_names_entries,
    lemma_non_arabic_word_not_found, line_free,
};
use crate::text::{spec_whitespace, table_lookup};

verus! {

/// No character of `s` is a quote.
pub open spec fn quote_free(s: Seq<char>) -> bool {
    forall|k: int| 0 <= k < s.len() ==> !is_quote(#[trigger] s[k])
}

/// Everything before `i` on its line reads as white space: the line holds
/// no code before `i`.
pub open spec fn blank_before(s: Seq<char>, i: int) -> bool
    decreases i,
{
    if i <= 0 {
        true
    } else if token_at(s, i - 1) == Token::Newline {
        true
    } else {
        token_at(s, i - 1) == Token::Space && blank_before(s, i - 1)
    }
}

/// The word at `i` is `elif`, or `else` followed by `:`: a clause that
/// needs a line of its own.
pub open spec fn opens_clause(s: Seq<char>, i: int) -> bool {
    let w = word_at(s, i);
    w == "elif"@ || (w == "else"@ && colon_ahead(s, word_end_from(s, i)))
}

/// Every word `elif`, and every statement `else:`, begins its line.
pub open spec fn clauses_begin_lines(s: Seq<char>) -> bool {
    forall|i: int|
        0 <= i < s.len() && (i == 0 || !spec_is_word_char(s[i - 1])) && #[trigger] opens_clause(
            s,
            i,
        ) ==> blank_before(s, i)
}

/// A character that may stand in a simple f-string expression: no brace,
/// backslash or quote.
pub open spec fn plain_expression_char(c: char) -> bool {
    c != '{' && c != '}' && c != '\\' && !is_quote(c)
}

/// The first index at or after `j` whose character may not stand in a
/// simple f-string expression, or `c.len()`.
pub open spec fn expression_end(c: Seq<char>, j: int) -> int
    decreases c.len() - j,
{
    if j < 0 || j >= c.len() {
        c.len() as int
    } else if plain_expression_char(c[j]) {
        expression_end(c, j + 1)
    } else {
        j
    }
}

/// F-string text whose braces are simple: every `{` opens an expression
/// that a `}` closes with no brace, backslash or quote inside, and no `}` is
/// doubled.
pub open spec fn simple_fstring_text(c: Seq<char>) -> bool {
    forall|k: int|
        0 <= k < c.len() ==> ((#[trigger] c[k]) == '{' ==> expression_end(c, k + 1) < c.len()
            && c[expression_end(c, k + 1)] == '}') && (c[k] == '}' && k + 1 < c.len() ==> c[k
            + 1] != '}')
}

/// The text of the string literal whose opening quote is at `q`.
pub open spec fn literal_text(s: Seq<char>, q: int) -> Seq<char> {
    let triple = opens_triple(s, q);
    let len = delimiter_len(triple);
    s.subrange(q + len, closing_quote_from(s, q + len, s[q], triple))
}

/// English Python source of the kind the passthrough law speaks of: no
/// Arabic character; f-strings whose braces are simple (no doubled brace,
/// every expression closed and holding no brace, backslash or quote); and
/// every word `elif` and statement `else:` beginning its line.
pub open spec fn english_source(s: Seq<char>) -> bool {
    &&& !has_arabic(s)
    &&& forall|q: int|
        0 <= q < s.len() && is_quote(s[q]) && #[trigger] is_fstring_literal(s, q)
            ==> simple_fstring_text(literal_text(s, q))
    &&& clauses_begin_lines(s)
}

proof fn lemma_expression_end_bounds(c: Seq<char>, j: int)
    requires
        0 <= j <= c.len(),
    ensures
        j <= expression_end(c, j) <= c.len(),
    decreases c.len() - j,
{
    if j < c.len() && plain_expression_char(c[j]) {
        lemma_expression_end_bounds(c, j + 1);
    }
}

proof fn lemma_expression_chars(c: Seq<char>, j: int, k: int)
    requires
        0 <= j <= k < expression_end(c, j),
    ensures
        plain_expression_char(c[k]),
    decreases k - j,
{
    if j < k {
        lemma_expression_chars(c, j + 1, k);
    }
}

proof fn lemma_word_end_stops(s: Seq<char>, i: int)
    requires
        0 <= i <= s.len(),
    ensures
        word_end_from(s, i) < s.len() ==> !spec_is_word_char(s[word_end_from(s, i)]),
    decreases s.len() - i,
{
    if i < s.len() && spec_is_word_char(s[i]) {
        lemma_word_end_stops(s, i + 1);
    }
}

/// A colon ahead inside an expression is a colon ahead in the text around
/// it.
proof fn lemma_colon_ahead_within(s: Seq<char>, base: int, e: Seq<char>, m: int)
    requires
        0 <= base,
        base + e.len() <= s.len(),
        e == s.subrange(base, base + e.len()),
        0 <= m <= e.len(),
    ensures
        colon_ahead(e, m) ==> colon_ahead(s, base + m),
    decreases e.len() - m,
{
    if m < e.len() {
        assert(e[m] == s[base + m]);
        lemma_colon_ahead_within(s, base, e, m + 1);
    }
}

/// Where an expression follows code, a blank line prefix in the text around
/// it is a blank line prefix in the expression.
proof fn lemma_blank_within(s: Seq<char>, base: int, e: Seq<char>, k: int)
    requires
        1 <= base,
        base + e.len() <= s.len(),
        e == s.subrange(base, base + e.len()),
        0 <= k <= e.len(),
        token_at(s, base - 1) != Token::Newline,
        token_at(s, base - 1) != Token::Space,
    ensures
        blank_before(s, base + k) ==> blank_before(e, k),
    decreases k,
{
    if k > 0 {
        lemma_blank_within(s, base, e, k - 1);
        assert(e[k - 1] == s[base + k - 1]);
    }
}

/// A word inside an expression that a non-word character closes is the
/// same word in the text around it.
proof fn lemma_word_end_within(s: Seq<char>, base: int, e: Seq<char>, k: int)
    requires
        0 <= base,
        base + e.len() <= s.len(),
        e == s.subrange(base, base + e.len()),
        0 <= k < e.len(),
        base + e.len() < s.len() ==> !spec_is_word_char(s[base + e.len()]),
    ensures
        word_end_from(s, base + k) == base + word_end_from(e, k),
    decreases e.len() - k,
{
    assert(e[k] == s[base + k]);
    if spec_is_word_char(e[k]) {
        if k + 1 < e.len() {
            lemma_word_end_within(s, base, e, k + 1);
        } else {
            assert(word_end_from(e, k + 1) == e.len());
            assert(word_end_from(s, base + k + 1) == base + e.len());
        }
    }
}

/// A simple f-string expression of English source is English source too.
proof fn lemma_expression_english(s: Seq<char>, base: int, e: Seq<char>)
    requires
        english_source(s),
        1 <= base,
        base + e.len() < s.len(),
        e == s.subrange(base, base + e.len()),
        s[base - 1] == '{',
        s[base + e.len()] == '}',
        forall|k: int| 0 <= k < e.len() ==> plain_expression_char(#[trigger] e[k]),
    ensures
        english_source(e),
{
    assert forall|k: int| 0 <= k < e.len() implies !in_arabic_block(#[trigger] e[k]) by {
        assert(e[k] == s[base + k]);
    }
    assert(token_at(s, base - 1) == Token::Other);
    assert forall|k: int|
        0 <= k < e.len() && (k == 0 || !spec_is_word_char(e[k - 1])) && #[trigger] opens_clause(
            e,
            k,
        ) implies blank_before(e, k) by {
        lemma_word_end_within(s, base, e, k);
        lemma_word_end_bounds(e, k);
        lemma_colon_ahead_within(s, base, e, word_end_from(e, k));
        assert(word_at(s, base + k) =~= word_at(e, k));
        assert(opens_clause(s, base + k));
        if k > 0 {
            assert(e[k - 1] == s[base + k - 1]);
        }
        lemma_blank_within(s, base, e, k);
    }
}

/// A literal character outside the Arabic block is rendered as it is
/// written: every Shifra escape letter is Arabic.
proof fn lemma_escape_verbatim(s: Seq<char>, i: int, end: int, raw: bool)
    requires
        !has_arabic(s),
        0 <= i < end <= s.len(),
    ensures
        escape_text(s, i, end, raw) == s.subrange(i, i + escape_len(s, i, end)),
{
    if s[i] == '\\' && i + 1 < end {
        let e = s[i + 1];
        assert(!in_arabic_block(s[i + 1]));
        assert(spec_shifra_escape(e) is None);
        assert(s.subrange(i, i + 2) =~= seq![s[i], s[i + 1]]);
    } else {
        assert(s.subrange(i, i + 1) =~= seq![s[i]]);
    }
}

proof fn lemma_plain_verbatim(s: Seq<char>, i: int, end: int, raw: bool)
    requires
        !has_arabic(s),
        0 <= i <= end <= s.len(),
    ensures
        plain_text(s, i, end, raw) == s.subrange(i, end),
    decreases end - i,
{
    if i < end {
        lemma_escape_verbatim(s, i, end, raw);
        let n = escape_len(s, i, end);
        lemma_plain_verbatim(s, i + n, end, raw);
        assert(s.subrange(i, end) =~= s.subrange(i, i + n) + s.subrange(i + n, end));
    } else {
        assert(s.subrange(i, end) =~= seq![]);
    }
}

/// The text of an f-string of English source is kept as written: its
/// braces are simple and its expressions are English.
proof fn lemma_fstring_verbatim(s: Seq<char>, q: int, i: int, raw: bool)
    requires
        english_source(s),
        0 <= q < s.len(),
        is_quote(s[q]),
        is_fstring_literal(s, q),
        0 <= i <= literal_text(s, q).len(),
    ensures
        fstring_text(literal_text(s, q), i, raw) == literal_text(s, q).subrange(
            i,
            literal_text(s, q).len() as int,
        ),
    decreases s.len(), 0int, literal_text(s, q).len() - i,
{
    let triple = opens_triple(s, q);
    let dl = delimiter_len(triple);
    let closing = closing_quote_from(s, q + dl, s[q], triple);
    lemma_quoted_literal_end_bounds(s, q);
    lemma_closing_quote_bounds(s, q + dl, s[q], triple);
    let c = literal_text(s, q);
    let top = q + dl;
    assert(c.len() == closing - top);
    assert(simple_fstring_text(c));
    assert forall|k: int| 0 <= k < c.len() implies !in_arabic_block(#[trigger] c[k]) by {
        assert(c[k] == s[top + k]);
    }
    if i < c.len() {
        lemma_fstring_piece_end_bounds(c, i);
        let n = fstring_piece_end(c, i);
        if c[i] == '{' {
            lemma_expression_end_bounds(c, i + 1);
            let m = expression_end(c, i + 1);
            assert(m < c.len() && c[m] == '}');
            assert forall|k: int| i + 1 <= k < m implies plain_expression_char(#[trigger] c[k]) by {
                lemma_expression_chars(c, i + 1, k);
            }
            assert(opens_expression(c, i)) by {
                if i + 1 < m {
                    assert(plain_expression_char(c[i + 1]));
                }
            }
            lemma_closing_brace_after(c, i + 1, m);
            let e = c.subrange(i + 1, m);
            let base = top + i + 1;
            assert(e =~= s.subrange(base, base + e.len()));
            assert(s[base - 1] == c[i]);
            assert(s[base + e.len()] == c[m]);
            assert forall|k: int| 0 <= k < e.len() implies plain_expression_char(#[trigger] e[k]) by {
                assert(e[k] == c[i + 1 + k]);
            }
            lemma_expression_english(s, base, e);
            law_english_passes_through(e);
            assert(n == m + 1);
            assert(fstring_text(c, i, raw) == seq!['{'] + e + seq!['}'] + fstring_text(c, n, raw));
            assert(c.subrange(i, n) =~= seq!['{'] + e + seq!['}']);
        } else if c[i] == '}' {
            assert(n == i + 1);
            assert(c.subrange(i, n) =~= seq![c[i]]);
        } else {
            lemma_escape_verbatim(c, i, c.len() as int, raw);
        }
        lemma_fstring_verbatim(s, q, n, raw);
        assert(c.subrange(i, c.len() as int) =~= c.subrange(i, n) + c.subrange(n, c.len() as int));
    } else {
        assert(c.subrange(i, c.len() as int) =~= seq![]);
    }
}

/// A string literal of English source is kept as written.
proof fn lemma_quoted_verbatim(s: Seq<char>, q: int)
    requires
        english_source(s),
        0 <= q < s.len(),
        is_quote(s[q]),
    ensures
        quoted_text(s, q) == s.subrange(q, quoted_literal_end(s, q)),
    decreases s.len(), 1int, 0int,
{
    let triple = opens_triple(s, q);
    let len = delimiter_len(triple);
    let closing = closing_quote_from(s, q + len, s[q], triple);
    let raw = is_raw_literal(s, q);
    lemma_quoted_literal_end_bounds(s, q);
    lemma_closing_quote_bounds(s, q + len, s[q], triple);
    let body = if is_fstring_literal(s, q) {
        fstring_text(s.subrange(q + len, closing), 0, raw)
    } else {
        plain_text(s, q + len, closing, raw)
    };
    assert(body == s.subrange(q + len, closing)) by {
        if is_fstring_literal(s, q) {
            lemma_fstring_verbatim(s, q, 0, raw);
            let c = literal_text(s, q);
            assert(c.subrange(0, c.len() as int) =~= c);
        } else {
            lemma_plain_verbatim(s, q + len, closing, raw);
        }
    }
    let tail = if closing < s.len() {
        s.subrange(closing, closing + len)
    } else {
        seq![]
    };
    assert(quoted_text(s, q) == s.subrange(q, q + len) + body + tail);
    let end = quoted_literal_end(s, q);
    if closing < s.len() {
        assert(s.subrange(q, end) =~= s.subrange(q, q + len) + s.subrange(q + len, closing)
            + s.subrange(closing, closing + len));
    } else {
        assert(s.subrange(q, end) =~= s.subrange(q, q + len) + s.subrange(q + len, closing)
            + seq![]);
    }
}

/// A literal that closes ends with a quote character.
proof fn lemma_closing_is_quote(s: Seq<char>, i: int, quote: char, triple: bool)
    requires
        0 <= i <= s.len(),
        is_quote(quote),
    ensures
        closing_quote_from(s, i, quote, triple) < s.len() ==> is_quote(
            s[closing_quote_from(s, i, quote, triple) + delimiter_len(triple) - 1],
        ),
    decreases s.len() - i,
{
    lemma_closing_quote_bounds(s, i, quote, triple);
    if i < s.len() {
        if s[i] == '\\' && i + 1 < s.len() {
            lemma_closing_is_quote(s, i + 2, quote, triple);
        } else if triple {
            if !triple_at(s, i, if quote == '\'' { '\'' } else { '"' }) {
                lemma_closing_is_quote(s, i + 1, quote, triple);
            }
        } else if s[i] != quote {
            lemma_closing_is_quote(s, i + 1, quote, triple);
        }
    }
}

/// A token that holds code leaves no blank line prefix behind it.
proof fn lemma_code_not_blank(s: Seq<char>, k: int)
    requires
        0 <= k < s.len(),
        token_at(s, k) != Token::Newline,
        token_at(s, k) != Token::Space,
    ensures
        !blank_before(s, k + 1),
{
}

/// Inside and at the end of a comment the line is not blank.
proof fn lemma_comment_not_blank(s: Seq<char>, i: int, k: int)
    requires
        0 <= i < k <= newline_at_or_after(s, i + 1),
        newline_at_or_after(s, i + 1) <= s.len(),
        s[i] == '#',
    ensures
        !blank_before(s, k),
    decreases k - i,
{
    if k - 1 > i {
        lemma_newline_before(s, i + 1, k - 1);
        lemma_comment_not_blank(s, i, k - 1);
    }
}

/// The first line feed at or after `i`, when there is one, is a line feed.
proof fn lemma_newline_found(s: Seq<char>, i: int)
    requires
        0 <= i <= s.len(),
    ensures
        newline_at_or_after(s, i) < s.len() ==> s[newline_at_or_after(s, i)] == '\n',
    decreases s.len() - i,
{
    if i < s.len() && s[i] != '\n' {
        lemma_newline_found(s, i + 1);
    }
}

/// No line feed lies between `i` and the first one at or after it.
proof fn lemma_newline_before(s: Seq<char>, i: int, k: int)
    requires
        0 <= i <= k < newline_at_or_after(s, i),
        newline_at_or_after(s, i) <= s.len(),
    ensures
        s[k] != '\n',
    decreases k - i,
{
    if i < k {
        lemma_newline_before(s, i + 1, k);
    }
}

/// From any state of English source whose line state is truthful, the rest
/// of the source is copied as it is.
proof fn lemma_english_run(s: Seq<char>, st: Scan)
    requires
        english_source(s),
        0 <= st.index <= s.len(),
        st.index < s.len() && st.line_has_code ==> !blank_before(s, st.index),
        0 < st.index < s.len() && token_at(s, st.index) == Token::Word ==> !spec_is_word_char(
            s[st.index - 1],
        ),
    ensures
        run(s, st) == st.out + s.subrange(st.index, s.len() as int),
    decreases s.len(), 2int, s.len() - st.index,
{
    let i = st.index;
    if i == s.len() {
        assert(s.subrange(i, s.len() as int) =~= seq![]);
        assert(st.out + seq![] =~= st.out);
    } else {
        lemma_token_end_bounds(s, i);
        let e = token_end(s, i);
        assert(!in_arabic_block(s[i]));
        match token_at(s, i) {
            Token::Comment => {},
            Token::ShifraFString => {},
            Token::Quoted => {
                lemma_quoted_verbatim(s, i);
            },
            Token::LatinFString => {
                lemma_quoted_verbatim(s, i + 1);
                assert(s.subrange(i, e) =~= seq!['f'] + s.subrange(i + 1, e));
            },
            Token::Word => {
                law_table_keys_are_arabic();
                lemma_word_end_bounds(s, i);
                let w = word_at(s, i);
                assert(!has_arabic(w)) by {
                    assert forall|k: int| 0 <= k < w.len() implies !in_arabic_block(
                        #[trigger] w[k],
                    ) by {
                        assert(w[k] == s[i + k]);
                    }
                }
                lemma_non_arabic_word_not_found(KEYWORDS@, w);
                lemma_non_arabic_word_not_found(METHODS@, w);
                lemma_non_arabic_word_not_found(MODULES@, w);
                lemma_non_arabic_word_not_found(NAMES@, w);
                assert(word_replacement(s, st) == w);
                assert(!splits_line(s, st)) by {
                    if splits_line(s, st) {
                        assert(opens_clause(s, i));
                    }
                }
                assert(w.len() > 0 && w[0] == s[i]);
                assert(!spec_is_arabic_digit(w[0]));
                assert(word_text(w) == w);
            },
            Token::Newline => {},
            Token::Space => {},
            Token::Other => {
                assert(s.subrange(i, i + 1) =~= seq![s[i]]);
            },
        }
        if token_at(s, i) == Token::Newline || token_at(s, i) == Token::Space {
            assert(s.subrange(i, i + 1) =~= seq![s[i]]);
        }
        lemma_next_state_truthful(s, st);
        assert(next_output(s, st) == st.out + s.subrange(i, e));
        let nx = next_state(s, st);
        let st2 = Scan {
            index: nx.index,
            out: next_output(s, st),
            line_has_code: nx.line_has_code,
            indent: nx.indent,
            expect_from: nx.expect_from,
            expect_import: nx.expect_import,
        };
        lemma_english_run(s, st2);
        assert(s.subrange(i, s.len() as int) =~= s.subrange(i, e) + s.subrange(e, s.len() as int));
    }
}

/// The last character of a word is a word character, which the scanner
/// never reads as white space or a line feed.
proof fn lemma_word_last_is_code(s: Seq<char>, i: int)
    requires
        0 <= i < s.len(),
        token_at(s, i) == Token::Word,
    ensures
        !blank_before(s, word_end_from(s, i)),
{
    assert(spec_is_word_char(s[i]));
    lemma_word_end_bounds(s, i + 1);
    lemma_word_chars(s, i, word_end_from(s, i) - 1);
    lemma_code_not_blank(s, word_end_from(s, i) - 1);
}

proof fn lemma_word_chars(s: Seq<char>, i: int, k: int)
    requires
        0 <= i <= k < word_end_from(s, i),
        word_end_from(s, i) <= s.len(),
    ensures
        spec_is_word_char(s[k]),
    decreases k - i,
{
    if i < k {
        lemma_word_chars(s, i + 1, k);
    }
}

/// English still works everywhere Arabic is absent: English Python source
/// translates to itself, as long as its f-strings hold no doubled brace and
/// no expression that is left open or holds a brace, backslash or quote
/// (such braces are rewritten), and no word `elif` or statement `else:`
/// follows code on its own line (that clause is moved to a line of its
/// own).
pub proof fn law_english_passes_through(s: Seq<char>)
    requires
        english_source(s),
    ensures
        translation(s) == s,
    decreases s.len(), 3int, 0int,
{
    lemma_english_run(s, initial_scan());
    assert(seq![] + s.subrange(0, s.len() as int) =~= s);
}

/// The number of line feeds in `s`.
pub open spec fn line_feeds(s: Seq<char>) -> nat
    decreases s.len(),
{
    if s.len() == 0 {
        0
    } else {
        line_feeds(s.drop_last()) + if s.last() == '\n' {
            1nat
        } else {
            0nat
        }
    }
}

proof fn lemma_feeds_add(a: Seq<char>, b: Seq<char>)
    ensures
        line_feeds(a + b) == line_feeds(a) + line_feeds(b),
    decreases b.len(),
{
    if b.len() > 0 {
        assert((a + b).drop_last() =~= a + b.drop_last());
        lemma_feeds_add(a, b.drop_last());
    } else {
        assert(a + b =~= a);
    }
}

/// Two texts with line feeds at the same places hold as many.
proof fn lemma_feeds_same(a: Seq<char>, b: Seq<char>)
    requires
        a.len() == b.len(),
        forall|k: int| 0 <= k < a.len() ==> (#[trigger] a[k] == '\n') == (b[k] == '\n'),
    ensures
        line_feeds(a) == line_feeds(b),
    decreases a.len(),
{
    if a.len() > 0 {
        lemma_feeds_same(a.drop_last(), b.drop_last());
    }
}

/// A text without line feeds holds none.
proof fn lemma_feeds_none(a: Seq<char>)
    requires
        forall|k: int| 0 <= k < a.len() ==> #[trigger] a[k] != '\n',
    ensures
        line_feeds(a) == 0,
    decreases a.len(),
{
    if a.len() > 0 {
        lemma_feeds_none(a.drop_last());
    }
}

proof fn lemma_trim_feeds(out: Seq<char>)
    ensures
        line_feeds(trim_trailing_space(out)) == line_feeds(out),
    decreases out.len(),
{
    if out.len() > 0 && spec_whitespace(out.last()) && out.last() != '\n' {
        lemma_trim_feeds(out.drop_last());
    }
}

/// Rendering a literal character keeps its line feeds.
proof fn lemma_escape_feeds(s: Seq<char>, i: int, end: int, raw: bool)
    requires
        0 <= i < end <= s.len(),
    ensures
        line_feeds(escape_text(s, i, end, raw)) == line_feeds(
            s.subrange(i, i + escape_len(s, i, end)),
        ),
{
    lemma_feeds_same(escape_text(s, i, end, raw), s.subrange(i, i + escape_len(s, i, end)));
}

proof fn lemma_plain_feeds(s: Seq<char>, i: int, end: int, raw: bool)
    requires
        0 <= i <= end <= s.len(),
    ensures
        line_feeds(plain_text(s, i, end, raw)) == line_feeds(s.subrange(i, end)),
    decreases end - i,
{
    if i < end {
        let n = escape_len(s, i, end);
        lemma_escape_feeds(s, i, end, raw);
        lemma_plain_feeds(s, i + n, end, raw);
        lemma_feeds_add(escape_text(s, i, end, raw), plain_text(s, i + n, end, raw));
        lemma_feeds_add(s.subrange(i, i + n), s.subrange(i + n, end));
        assert(s.subrange(i, end) =~= s.subrange(i, i + n) + s.subrange(i + n, end));
    } else {
        assert(s.subrange(i, end) =~= seq![]);
    }
}

/// The `}` that closes an f-string expression is a brace.
proof fn lemma_closing_brace_is_brace(s: Seq<char>, j: int, depth: nat)
    requires
        0 <= j <= s.len(),
    ensures
        closing_brace_from(s, j, depth) < s.len() ==> s[closing_brace_from(s, j, depth)] == '}',
    decreases s.len() - j,
{
    if j < s.len() {
        if s[j] == '\\' && j + 1 < s.len() {
            lemma_closing_brace_is_brace(s, j + 2, depth);
        } else if is_quote(s[j]) {
            lemma_quoted_literal_end_bounds(s, j);
            lemma_closing_brace_is_brace(s, quoted_literal_end(s, j), depth);
        } else if s[j] == '{' {
            lemma_closing_brace_is_brace(s, j + 1, depth + 1);
        } else if s[j] == '}' {
            if depth > 1 {
                lemma_closing_brace_is_brace(s, j + 1, (depth - 1) as nat);
            }
        } else {
            lemma_closing_brace_is_brace(s, j + 1, depth);
        }
    }
}

proof fn lemma_translation_feeds(s: Seq<char>)
    ensures
        line_feeds(translation(s)) >= line_feeds(s),
    decreases s.len(), 3int, 0int,
{
    lemma_run_feeds(s, initial_scan());
    assert(s.subrange(0, s.len() as int) =~= s);
    assert(seq![] + s =~= s);
    lemma_feeds_add(seq![], s);
}

proof fn lemma_run_feeds(s: Seq<char>, st: Scan)
    requires
        0 <= st.index <= s.len(),
    ensures
        line_feeds(run(s, st)) >= line_feeds(st.out) + line_feeds(
            s.subrange(st.index, s.len() as int),
        ),
    decreases s.len(), 2int, s.len() - st.index,
{
    let i = st.index;
    if i == s.len() {
        assert(s.subrange(i, s.len() as int) =~= seq![]);
    } else {
        lemma_token_end_bounds(s, i);
        let e = token_end(s, i);
        lemma_next_output_feeds(s, st);
        let nx = next_state(s, st);
        let st2 = Scan {
            index: nx.index,
            out: next_output(s, st),
            line_has_code: nx.line_has_code,
            indent: nx.indent,
            expect_from: nx.expect_from,
            expect_import: nx.expect_import,
        };
        lemma_run_feeds(s, st2);
        lemma_feeds_add(s.subrange(i, e), s.subrange(e, s.len() as int));
        assert(s.subrange(i, s.len() as int) =~= s.subrange(i, e) + s.subrange(e, s.len() as int));
    }
}

proof fn lemma_next_output_feeds(s: Seq<char>, st: Scan)
    requires
        0 <= st.index < s.len(),
    ensures
        line_feeds(next_output(s, st)) >= line_feeds(st.out) + line_feeds(
            s.subrange(st.index, token_end(s, st.index)),
        ),
    decreases s.len(), 1int, 0int,
{
    let i = st.index;
    let e = token_end(s, i);
    lemma_token_end_bounds(s, i);
    match token_at(s, i) {
        Token::Comment => {
            lemma_feeds_add(st.out, s.subrange(i, e));
        },
        Token::ShifraFString => {
            lemma_quoted_feeds(s, i + 2);
            lemma_quoted_literal_end_bounds(s, i + 2);
            lemma_feeds_add(st.out + seq!['f'], quoted_text(s, i + 2));
            lemma_feeds_add(st.out, seq!['f']);
            lemma_feeds_none(seq!['f']);
            lemma_feeds_add(s.subrange(i, i + 2), s.subrange(i + 2, e));
            lemma_feeds_none(s.subrange(i, i + 2));
            assert(s.subrange(i, e) =~= s.subrange(i, i + 2) + s.subrange(i + 2, e));
        },
        Token::Quoted => {
            lemma_quoted_feeds(s, i);
            lemma_feeds_add(st.out, quoted_text(s, i));
        },
        Token::LatinFString => {
            lemma_quoted_feeds(s, i + 1);
            lemma_quoted_literal_end_bounds(s, i + 1);
            lemma_feeds_add(st.out + seq!['f'], quoted_text(s, i + 1));
            lemma_feeds_add(st.out, seq!['f']);
            lemma_feeds_none(seq!['f']);
            lemma_feeds_add(s.subrange(i, i + 1), s.subrange(i + 1, e));
            lemma_feeds_none(s.subrange(i, i + 1));
            assert(s.subrange(i, e) =~= s.subrange(i, i + 1) + s.subrange(i + 1, e));
        },
        Token::Word => {
            assert(spec_is_word_char(s[i]));
            lemma_word_end_bounds(s, i + 1);
            assert forall|k: int| 0 <= k < s.subrange(i, e).len() implies #[trigger] s.subrange(
                i,
                e,
            )[k] != '\n' by {
                lemma_word_chars(s, i, i + k);
            }
            lemma_feeds_none(s.subrange(i, e));
            let base = if splits_line(s, st) {
                trim_trailing_space(st.out).push('\n') + st.indent
            } else {
                st.out
            };
            if splits_line(s, st) {
                lemma_trim_feeds(st.out);
                lemma_feeds_add(trim_trailing_space(st.out).push('\n'), st.indent);
                assert(trim_trailing_space(st.out).push('\n') =~= trim_trailing_space(st.out)
                    + seq!['\n']);
                lemma_feeds_add(trim_trailing_space(st.out), seq!['\n']);
            }
            lemma_feeds_add(base, word_text(word_replacement(s, st)));
        },
        _ => {
            assert(st.out.push(s[i]) =~= st.out + s.subrange(i, e));
            lemma_feeds_add(st.out, s.subrange(i, e));
        },
    }
}

proof fn lemma_quoted_feeds(s: Seq<char>, q: int)
    requires
        0 <= q < s.len(),
    ensures
        line_feeds(quoted_text(s, q)) >= line_feeds(s.subrange(q, quoted_literal_end(s, q))),
    decreases s.len(), 0int, 0int,
{
    let triple = opens_triple(s, q);
    let len = delimiter_len(triple);
    let closing = closing_quote_from(s, q + len, s[q], triple);
    let raw = is_raw_literal(s, q);
    lemma_quoted_literal_end_bounds(s, q);
    lemma_closing_quote_bounds(s, q + len, s[q], triple);
    let body = if is_fstring_literal(s, q) {
        fstring_text(s.subrange(q + len, closing), 0, raw)
    } else {
        plain_text(s, q + len, closing, raw)
    };
    if is_fstring_literal(s, q) {
        let c = s.subrange(q + len, closing);
        lemma_fstring_feeds(c, 0, raw);
        assert(c.subrange(0, c.len() as int) =~= c);
    } else {
        lemma_plain_feeds(s, q + len, closing, raw);
    }
    let tail = if closing < s.len() {
        s.subrange(closing, closing + len)
    } else {
        seq![]
    };
    let end = quoted_literal_end(s, q);
    assert(quoted_text(s, q) == s.subrange(q, q + len) + body + tail);
    assert(s.subrange(q, end) =~= s.subrange(q, q + len) + s.subrange(q + len, closing) + tail);
    lemma_feeds_add(s.subrange(q, q + len) + body, tail);
    lemma_feeds_add(s.subrange(q, q + len), body);
    lemma_feeds_add(s.subrange(q, q + len) + s.subrange(q + len, closing), tail);
    lemma_feeds_add(s.subrange(q, q + len), s.subrange(q + len, closing));
}

proof fn lemma_fstring_feeds(c: Seq<char>, i: int, raw: bool)
    requires
        0 <= i <= c.len(),
    ensures
        line_feeds(fstring_text(c, i, raw)) >= line_feeds(c.subrange(i, c.len() as int)),
    decreases c.len(), 4int, c.len() - i,
{
    if i < c.len() {
        lemma_fstring_piece_end_bounds(c, i);
        lemma_closing_brace_bounds(c, i + 1, 1);
        let n = fstring_piece_end(c, i);
        let piece = if opens_expression(c, i) {
            let j = closing_brace_from(c, i + 1, 1);
            seq!['{'] + translation(c.subrange(i + 1, j)) + seq!['}']
        } else if c[i] == '{' || c[i] == '}' {
            seq![c[i]]
        } else {
            escape_text(c, i, c.len() as int, raw)
        };
        if opens_expression(c, i) {
            let j = closing_brace_from(c, i + 1, 1);
            let x = c.subrange(i + 1, j);
            lemma_translation_feeds(x);
            lemma_closing_brace_is_brace(c, i + 1, 1);
            lemma_feeds_add(seq!['{'] + translation(x), seq!['}']);
            lemma_feeds_add(seq!['{'], translation(x));
            let rest = c.subrange(j, n);
            assert(c.subrange(i, n) =~= seq!['{'] + x + rest);
            lemma_feeds_add(seq!['{'] + x, rest);
            lemma_feeds_add(seq!['{'], x);
            lemma_feeds_none(seq!['{']);
            lemma_feeds_none(rest);
        } else if c[i] == '{' || c[i] == '}' {
            lemma_feeds_none(c.subrange(i, n));
        } else {
            lemma_escape_feeds(c, i, c.len() as int, raw);
        }
        lemma_fstring_feeds(c, n, raw);
        assert(fstring_text(c, i, raw) == piece + fstring_text(c, n, raw));
        lemma_feeds_add(piece, fstring_text(c, n, raw));
        lemma_feeds_add(c.subrange(i, n), c.subrange(n, c.len() as int));
        assert(c.subrange(i, c.len() as int) =~= c.subrange(i, n) + c.subrange(n, c.len() as int));
    } else {
        assert(c.subrange(i, c.len() as int) =~= seq![]);
    }
}

/// No line break is ever removed: a translation holds at least as many line
/// feeds as its source. (One is added where an `elif`, or a statement
/// `else:`, that follows code moves to a line of its own.)
pub proof fn law_line_breaks_kept(s: Seq<char>)
    ensures
        line_feeds(translation(s)) >= line_feeds(s),
{
    lemma_translation_feeds(s);
}

/// The word at `i` is `elif`, or `else` followed by `:`, in either
/// spelling: a clause that needs a line of its own.
pub open spec fn clause_word_at(s: Seq<char>, i: int) -> bool {
    let w = word_at(s, i);
    let r = match table_lookup(KEYWORDS@, w) {
        Some(p) => p,
        None => w,
    };
    r == "elif"@ || (r == "else"@ && colon_ahead(s, word_end_from(s, i)))
}

/// Every `elif`, and every statement `else:`, in either spelling, begins its
/// line (a word after a dot is an attribute, not a clause).
pub open spec fn clause_words_begin_lines(s: Seq<char>) -> bool {
    forall|i: int|
        0 <= i < s.len() && (i == 0 || !spec_is_word_char(s[i - 1])) && !after_dot(s, i)
            && #[trigger] clause_word_at(s, i) ==> blank_before(s, i)
}

/// A closing delimiter starts with a quote character.
proof fn lemma_closing_starts_quote(s: Seq<char>, i: int, quote: char, triple: bool)
    requires
        0 <= i <= s.len(),
        is_quote(quote),
    ensures
        closing_quote_from(s, i, quote, triple) < s.len() ==> is_quote(
            s[closing_quote_from(s, i, quote, triple)],
        ),
    decreases s.len() - i,
{
    if i < s.len() {
        if s[i] == '\\' && i + 1 < s.len() {
            lemma_closing_starts_quote(s, i + 2, quote, triple);
        } else if triple {
            if !triple_at(s, i, if quote == '\'' { '\'' } else { '"' }) {
                lemma_closing_starts_quote(s, i + 1, quote, triple);
            }
        } else if s[i] != quote {
            lemma_closing_starts_quote(s, i + 1, quote, triple);
        }
    }
}

/// An f-string expression of a text whose clauses begin their lines has
/// its clauses begin their lines too.
proof fn lemma_clauses_within(s: Seq<char>, base: int, e: Seq<char>)
    requires
        clause_words_begin_lines(s),
        1 <= base,
        base + e.len() <= s.len(),
        e == s.subrange(base, base + e.len()),
        s[base - 1] == '{',
        base + e.len() < s.len() ==> !spec_is_word_char(s[base + e.len()]),
    ensures
        clause_words_begin_lines(e),
{
    assert(token_at(s, base - 1) == Token::Other);
    assert forall|k: int|
        0 <= k < e.len() && (k == 0 || !spec_is_word_char(e[k - 1])) && !after_dot(e, k)
            && #[trigger] clause_word_at(e, k) implies blank_before(e, k) by {
        lemma_word_end_within(s, base, e, k);
        lemma_word_end_bounds(e, k);
        lemma_colon_ahead_within(s, base, e, word_end_from(e, k));
        assert(word_at(s, base + k) =~= word_at(e, k));
        assert(clause_word_at(s, base + k));
        if k > 0 {
            assert(e[k - 1] == s[base + k - 1]);
        }
        lemma_blank_within(s, base, e, k);
    }
}

/// The next state of a scan keeps the line state truthful, and a word it
/// reaches follows a character that is not a word character.
proof fn lemma_next_state_truthful(s: Seq<char>, st: Scan)
    requires
        0 <= st.index < s.len(),
        st.line_has_code ==> !blank_before(s, st.index),
    ensures
        next_state(s, st).index < s.len() && next_state(s, st).line_has_code ==> !blank_before(
            s,
            next_state(s, st).index,
        ),
        0 < next_state(s, st).index < s.len() && token_at(s, next_state(s, st).index)
            == Token::Word ==> !spec_is_word_char(s[next_state(s, st).index - 1]),
{
    let i = st.index;
    lemma_token_end_bounds(s, i);
    let e = token_end(s, i);
    match token_at(s, i) {
        Token::Comment => {
            lemma_newline_bounds(s, i + 1);
            lemma_comment_not_blank(s, i, e);
            lemma_newline_found(s, i + 1);
        },
        Token::ShifraFString => {
            lemma_closing_is_quote(
                s,
                i + 2 + delimiter_len(opens_triple(s, i + 2)),
                s[i + 2],
                opens_triple(s, i + 2),
            );
            if e < s.len() {
                lemma_code_not_blank(s, e - 1);
            }
        },
        Token::Quoted => {
            lemma_closing_is_quote(
                s,
                i + delimiter_len(opens_triple(s, i)),
                s[i],
                opens_triple(s, i),
            );
            if e < s.len() {
                lemma_code_not_blank(s, e - 1);
            }
        },
        Token::LatinFString => {
            lemma_closing_is_quote(
                s,
                i + 1 + delimiter_len(opens_triple(s, i + 1)),
                s[i + 1],
                opens_triple(s, i + 1),
            );
            if e < s.len() {
                lemma_code_not_blank(s, e - 1);
            }
        },
        Token::Word => {
            lemma_word_last_is_code(s, i);
            lemma_word_end_stops(s, i);
        },
        Token::Other => {
            lemma_code_not_blank(s, i);
        },
        _ => {},
    }
    if e < s.len() && token_at(s, e) == Token::Word {
        assert(spec_is_word_char(s[e]));
        assert(!spec_is_word_char(s[e - 1]));
    }
}

proof fn lemma_word_text_line_free(r: Seq<char>)
    requires
        line_free(r),
    ensures
        line_feeds(word_text(r)) == 0,
{
    let t = word_text(r);
    assert forall|k: int| 0 <= k < t.len() implies #[trigger] t[k] != '\n' by {
        assert(r[k] != '\n');
    }
    lemma_feeds_none(t);
}

proof fn lemma_translation_feeds_eq(s: Seq<char>)
    requires
        clause_words_begin_lines(s),
    ensures
        line_feeds(translation(s)) == line_feeds(s),
    decreases s.len(), 4int, 0int,
{
    lemma_run_feeds_eq(s, initial_scan());
    assert(s.subrange(0, s.len() as int) =~= s);
}

proof fn lemma_run_feeds_eq(s: Seq<char>, st: Scan)
    requires
        clause_words_begin_lines(s),
        0 <= st.index <= s.len(),
        st.index < s.len() && st.line_has_code ==> !blank_before(s, st.index),
        0 < st.index < s.len() && token_at(s, st.index) == Token::Word ==> !spec_is_word_char(
            s[st.index - 1],
        ),
    ensures
        line_feeds(run(s, st)) == line_feeds(st.out) + line_feeds(
            s.subrange(st.index, s.len() as int),
        ),
    decreases s.len(), 3int, s.len() - st.index,
{
    let i = st.index;
    if i == s.len() {
        assert(s.subrange(i, s.len() as int) =~= seq![]);
    } else {
        lemma_token_end_bounds(s, i);
        let e = token_end(s, i);
        lemma_next_output_feeds_eq(s, st);
        lemma_next_state_truthful(s, st);
        let nx = next_state(s, st);
        let st2 = Scan {
            index: nx.index,
            out: next_output(s, st),
            line_has_code: nx.line_has_code,
            indent: nx.indent,
            expect_from: nx.expect_from,
            expect_import: nx.expect_import,
        };
        lemma_run_feeds_eq(s, st2);
        lemma_feeds_add(s.subrange(i, e), s.subrange(e, s.len() as int));
        assert(s.subrange(i, s.len() as int) =~= s.subrange(i, e) + s.subrange(e, s.len() as int));
    }
}

proof fn lemma_next_output_feeds_eq(s: Seq<char>, st: Scan)
    requires
        clause_words_begin_lines(s),
        0 <= st.index < s.len(),
        st.line_has_code ==> !blank_before(s, st.index),
        0 < st.index && token_at(s, st.index) == Token::Word ==> !spec_is_word_char(
            s[st.index - 1],
        ),
    ensures
        line_feeds(next_output(s, st)) == line_feeds(st.out) + line_feeds(
            s.subrange(st.index, token_end(s, st.index)),
        ),
    decreases s.len(), 2int, 0int,
{
    let i = st.index;
    let e = token_end(s, i);
    lemma_token_end_bounds(s, i);
    match token_at(s, i) {
        Token::Comment => {
            lemma_feeds_add(st.out, s.subrange(i, e));
        },
        Token::ShifraFString => {
            lemma_quoted_feeds_eq(s, i + 2);
            lemma_quoted_literal_end_bounds(s, i + 2);
            lemma_feeds_add(st.out + seq!['f'], quoted_text(s, i + 2));
            lemma_feeds_add(st.out, seq!['f']);
            lemma_feeds_none(seq!['f']);
            lemma_feeds_add(s.subrange(i, i + 2), s.subrange(i + 2, e));
            lemma_feeds_none(s.subrange(i, i + 2));
            assert(s.subrange(i, e) =~= s.subrange(i, i + 2) + s.subrange(i + 2, e));
        },
        Token::Quoted => {
            lemma_quoted_feeds_eq(s, i);
            lemma_feeds_add(st.out, quoted_text(s, i));
        },
        Token::LatinFString => {
            lemma_quoted_feeds_eq(s, i + 1);
            lemma_quoted_literal_end_bounds(s, i + 1);
            lemma_feeds_add(st.out + seq!['f'], quoted_text(s, i + 1));
            lemma_feeds_add(st.out, seq!['f']);
            lemma_feeds_none(seq!['f']);
            lemma_feeds_add(s.subrange(i, i + 1), s.subrange(i + 1, e));
            lemma_feeds_none(s.subrange(i, i + 1));
            assert(s.subrange(i, e) =~= s.subrange(i, i + 1) + s.subrange(i + 1, e));
        },
        Token::Word => {
            assert(spec_is_word_char(s[i]));
            lemma_word_end_bounds(s, i + 1);
            let w = word_at(s, i);
            assert forall|k: int| 0 <= k < w.len() implies #[trigger] w[k] != '\n' by {
                lemma_word_chars(s, i, i + k);
            }
            lemma_feeds_none(w);
            lemma_found_line_free(w);
            let r = word_replacement(s, st);
            assert(line_free(r));
            assert(!splits_line(s, st)) by {
                if splits_line(s, st) {
                    assert(clause_word_at(s, i));
                }
            }
            lemma_word_text_line_free(r);
            lemma_feeds_add(st.out, word_text(r));
        },
        _ => {
            assert(st.out.push(s[i]) =~= st.out + s.subrange(i, e));
            lemma_feeds_add(st.out, s.subrange(i, e));
        },
    }
}

proof fn lemma_quoted_feeds_eq(s: Seq<char>, q: int)
    requires
        clause_words_begin_lines(s),
        0 <= q < s.len(),
        is_quote(s[q]),
    ensures
        line_feeds(quoted_text(s, q)) == line_feeds(s.subrange(q, quoted_literal_end(s, q))),
    decreases s.len(), 1int, 0int,
{
    let triple = opens_triple(s, q);
    let len = delimiter_len(triple);
    let closing = closing_quote_from(s, q + len, s[q], triple);
    let raw = is_raw_literal(s, q);
    lemma_quoted_literal_end_bounds(s, q);
    lemma_closing_quote_bounds(s, q + len, s[q], triple);
    let body = if is_fstring_literal(s, q) {
        fstring_text(s.subrange(q + len, closing), 0, raw)
    } else {
        plain_text(s, q + len, closing, raw)
    };
    if is_fstring_literal(s, q) {
        lemma_fstring_feeds_eq(s, q, 0, raw);
        let c = literal_text(s, q);
        assert(c.subrange(0, c.len() as int) =~= c);
    } else {
        lemma_plain_feeds(s, q + len, closing, raw);
    }
    let tail = if closing < s.len() {
        s.subrange(closing, closing + len)
    } else {
        seq![]
    };
    let end = quoted_literal_end(s, q);
    assert(quoted_text(s, q) == s.subrange(q, q + len) + body + tail);
    assert(s.subrange(q, end) =~= s.subrange(q, q + len) + s.subrange(q + len, closing) + tail);
    lemma_feeds_add(s.subrange(q, q + len) + body, tail);
    lemma_feeds_add(s.subrange(q, q + len), body);
    lemma_feeds_add(s.subrange(q, q + len) + s.subrange(q + len, closing), tail);
    lemma_feeds_add(s.subrange(q, q + len), s.subrange(q + len, closing));
}

proof fn lemma_fstring_feeds_eq(s: Seq<char>, q: int, i: int, raw: bool)
    requires
        clause_words_begin_lines(s),
        0 <= q < s.len(),
        is_quote(s[q]),
        0 <= i <= literal_text(s, q).len(),
    ensures
        line_feeds(fstring_text(literal_text(s, q), i, raw)) == line_feeds(
            literal_text(s, q).subrange(i, literal_text(s, q).len() as int),
        ),
    decreases s.len(), 0int, literal_text(s, q).len() - i,
{
    let triple = opens_triple(s, q);
    let dl = delimiter_len(triple);
    let closing = closing_quote_from(s, q + dl, s[q], triple);
    lemma_quoted_literal_end_bounds(s, q);
    lemma_closing_quote_bounds(s, q + dl, s[q], triple);
    let c = literal_text(s, q);
    let top = q + dl;
    assert(c.len() == closing - top);
    if i < c.len() {
        lemma_fstring_piece_end_bounds(c, i);
        lemma_closing_brace_bounds(c, i + 1, 1);
        let n = fstring_piece_end(c, i);
        let piece = if opens_expression(c, i) {
            let j = closing_brace_from(c, i + 1, 1);
            seq!['{'] + translation(c.subrange(i + 1, j)) + seq!['}']
        } else if c[i] == '{' || c[i] == '}' {
            seq![c[i]]
        } else {
            escape_text(c, i, c.len() as int, raw)
        };
        if opens_expression(c, i) {
            let j = closing_brace_from(c, i + 1, 1);
            let x = c.subrange(i + 1, j);
            let base = top + i + 1;
            lemma_closing_brace_is_brace(c, i + 1, 1);
            lemma_closing_starts_quote(s, top, s[q], triple);
            assert(x =~= s.subrange(base, base + x.len()));
            assert(s[base - 1] == c[i]);
            if base + x.len() < s.len() {
                if j < c.len() {
                    assert(s[base + x.len()] == c[j]);
                } else {
                    assert(base + x.len() == closing);
                }
            }
            lemma_clauses_within(s, base, x);
            lemma_translation_feeds_eq(x);
            lemma_feeds_add(seq!['{'] + translation(x), seq!['}']);
            lemma_feeds_add(seq!['{'], translation(x));
            let rest = c.subrange(j, n);
            assert(c.subrange(i, n) =~= seq!['{'] + x + rest);
            lemma_feeds_add(seq!['{'] + x, rest);
            lemma_feeds_add(seq!['{'], x);
            lemma_feeds_none(seq!['{']);
            lemma_feeds_none(seq!['}']);
            lemma_feeds_none(rest);
        } else if c[i] == '{' || c[i] == '}' {
            lemma_feeds_none(c.subrange(i, n));
            lemma_feeds_none(piece);
        } else {
            lemma_escape_feeds(c, i, c.len() as int, raw);
        }
        lemma_fstring_feeds_eq(s, q, n, raw);
        assert(fstring_text(c, i, raw) == piece + fstring_text(c, n, raw));
        lemma_feeds_add(piece, fstring_text(c, n, raw));
        lemma_feeds_add(c.subrange(i, n), c.subrange(n, c.len() as int));
        assert(c.subrange(i, c.len() as int) =~= c.subrange(i, n) + c.subrange(n, c.len() as int));
    } else {
        assert(c.subrange(i, c.len() as int) =~= seq![]);
    }
}

/// Where every `elif`, and every statement `else:`, begins its line, no line
/// break is added either: the translation holds exactly as many line feeds
/// as its source.
pub proof fn law_line_breaks_kept_exactly(s: Seq<char>)
    requires
        clause_words_begin_lines(s),
    ensures
        line_feeds(translation(s)) == line_feeds(s),
{
    lemma_translation_feeds_eq(s);
}


/// The state after the token of `st`.
pub open spec fn advance(s: Seq<char>, st: Scan) -> Scan {
    let nx = next_state(s, st);
    Scan {
        index: nx.index,
        out: next_output(s, st),
        line_has_code: nx.line_has_code,
        indent: nx.indent,
        expect_from: nx.expect_from,
        expect_import: nx.expect_import,
    }
}

proof fn lemma_run_advance(s: Seq<char>, st: Scan)
    requires
        0 <= st.index < s.len(),
    ensures
        run(s, st) == run(s, advance(s, st)),
{
}

/// A run of word characters from `i` up to a character that is not one (or
/// the end) is one word.
proof fn lemma_word_end_at(s: Seq<char>, i: int, j: int)
    requires
        0 <= i <= j <= s.len(),
        forall|k: int| i <= k < j ==> spec_is_word_char(#[trigger] s[k]),
        j < s.len() ==> !spec_is_word_char(s[j]),
    ensures
        word_end_from(s, i) == j,
    decreases j - i,
{
    if i < j {
        lemma_word_end_at(s, i + 1, j);
    }
}

/// A word: a run of word characters that does not start with a digit.
pub open spec fn is_plain_word(w: Seq<char>) -> bool {
    &&& w.len() > 0
    &&& !spec_is_arabic_digit(w[0])
    &&& forall|k: int| 0 <= k < w.len() ==> spec_is_word_char(#[trigger] w[k])
}

/// The word token of `st` is written as itself.
proof fn lemma_word_kept(s: Seq<char>, st: Scan, w: Seq<char>)
    requires
        0 <= st.index,
        st.index + w.len() <= s.len(),
        is_plain_word(w),
        s.subrange(st.index, st.index + w.len()) == w,
        st.index + w.len() < s.len() ==> !spec_is_word_char(s[st.index + w.len()]),
        !after_dot(s, st.index),
        !st.line_has_code,
        !st.expect_from && !st.expect_import,
        table_lookup(KEYWORDS@, w) is None,
        table_lookup(NAMES@, w) is None,
        (w[0] == 'f' || w[0] == 'م') ==> quote_free(s),
    ensures
        token_at(s, st.index) == Token::Word,
        advance(s, st).index == st.index + w.len(),
        advance(s, st).out == st.out + w,
        advance(s, st).line_has_code,
{
    let i = st.index;
    assert(s[i] == w[0]);
    assert(spec_is_word_char(w[0]));
    if w[0] == 'f' || w[0] == 'م' {
        if i + 1 < s.len() {
            assert(!is_quote(s[i + 1]));
        }
        if i + 2 < s.len() {
            assert(!is_quote(s[i + 2]));
        }
    }
    assert forall|k: int| i <= k < i + w.len() implies spec_is_word_char(#[trigger] s[k]) by {
        assert(s[k] == w[k - i]);
    }
    lemma_word_end_at(s, i, i + w.len());
    assert(word_at(s, i) == w);
    assert(word_replacement(s, st) == w);
    assert(word_text(w) == w);
}

/// The method word `w` right after a dot is written as its Python name.
proof fn lemma_method_word(s: Seq<char>, st: Scan, w: Seq<char>, p: Seq<char>)
    requires
        0 < st.index,
        st.index + w.len() <= s.len(),
        w.len() > 0,
        forall|k: int| 0 <= k < w.len() ==> spec_is_word_char(#[trigger] w[k]),
        s.subrange(st.index, st.index + w.len()) == w,
        st.index + w.len() < s.len() ==> !spec_is_word_char(s[st.index + w.len()]),
        s[st.index - 1] == '.',
        table_lookup(METHODS@, w) == Some(p),
        p.len() > 0 && !spec_is_arabic_digit(p[0]),
        st.index + 1 < s.len() ==> !is_quote(s[st.index + 1]),
        st.index + 2 < s.len() ==> !is_quote(s[st.index + 2]),
    ensures
        token_at(s, st.index) == Token::Word,
        advance(s, st).index == st.index + w.len(),
        advance(s, st).out == st.out + p,
{
    let i = st.index;
    assert(s[i] == w[0]);
    assert(spec_is_word_char(w[0]));
    if i + 1 < s.len() {
        assert(!is_quote(s[i + 1]));
    }
    if i + 2 < s.len() {
        assert(!is_quote(s[i + 2]));
    }
    assert forall|k: int| i <= k < i + w.len() implies spec_is_word_char(#[trigger] s[k]) by {
        assert(s[k] == w[k - i]);
    }
    lemma_word_end_at(s, i, i + w.len());
    assert(word_at(s, i) == w);
    assert(after_dot(s, i));
    assert(word_replacement(s, st) == p);
    assert(!splits_line(s, st));
    assert(word_text(p) == p);
}

/// A character that the scanner reads as a lone character of code.
proof fn lemma_other_char(s: Seq<char>, st: Scan)
    requires
        0 <= st.index < s.len(),
        s[st.index] == '.' || s[st.index] == '(' || s[st.index] == ')',
    ensures
        token_at(s, st.index) == Token::Other,
        advance(s, st).index == st.index + 1,
        advance(s, st).out == st.out.push(s[st.index]),
{
}

/// Object methods are translated when the word is an attribute, right after
/// a dot: `a.w()` becomes `a.p()` for the method `w` spelled `p` in Python,
/// while `w()` alone stays as it is (unless `w` is also a keyword or library
/// name).
pub proof fn law_methods_after_dot(a: Seq<char>, w: Seq<char>, p: Seq<char>)
    requires
        is_plain_word(a),
        table_lookup(KEYWORDS@, a) is None,
        table_lookup(NAMES@, a) is None,
        forall|k: int| 0 <= k < w.len() ==> spec_is_word_char(#[trigger] w[k]),
        table_lookup(METHODS@, w) == Some(p),
    ensures
        translation(a + seq!['.'] + w + seq!['(', ')']) == a + seq!['.'] + p + seq!['(', ')'],
        table_lookup(KEYWORDS@, w) is None && table_lookup(NAMES@, w) is None ==> translation(
            w + seq!['(', ')'],
        ) == w + seq!['(', ')'],
{
    lemma_methods_entries();
    lemma_found_shape(METHODS@, w, p);
    let s = a + seq!['.'] + w + seq!['(', ')'];
    let n = a.len() as int;
    let m = w.len() as int;
    assert(s.len() == n + m + 3);
    assert(s.subrange(0, n) =~= a);
    assert(s[n] == '.');
    assert(s.subrange(n + 1, n + 1 + m) =~= w);
    assert(s[n + 1 + m] == '(');
    assert(s[n + 2 + m] == ')');
    assert(quote_free(s)) by {
        assert forall|k: int| 0 <= k < s.len() implies !is_quote(#[trigger] s[k]) by {
            if k < n {
                assert(s[k] == a[k] && spec_is_word_char(a[k]));
            } else if n < k < n + 1 + m {
                assert(s[k] == w[k - n - 1] && spec_is_word_char(w[k - n - 1]));
            }
        }
    }
    let st0 = initial_scan();
    lemma_word_kept(s, st0, a);
    let st1 = advance(s, st0);
    lemma_run_advance(s, st0);
    lemma_other_char(s, st1);
    let st2 = advance(s, st1);
    lemma_run_advance(s, st1);
    lemma_method_word(s, st2, w, p);
    let st3 = advance(s, st2);
    lemma_run_advance(s, st2);
    lemma_other_char(s, st3);
    let st4 = advance(s, st3);
    lemma_run_advance(s, st3);
    lemma_other_char(s, st4);
    let st5 = advance(s, st4);
    lemma_run_advance(s, st4);
    assert(st5.index == s.len());
    assert(st5.out =~= a + seq!['.'] + p + seq!['(', ')']);
    if table_lookup(KEYWORDS@, w) is None && table_lookup(NAMES@, w) is None {
        let t = w + seq!['(', ')'];
        assert(t.subrange(0, m) =~= w);
        assert(t[m] == '(');
        assert(t[m + 1] == ')');
        assert(quote_free(t)) by {
            assert forall|k: int| 0 <= k < t.len() implies !is_quote(#[trigger] t[k]) by {
                if k < m {
                    assert(t[k] == w[k] && spec_is_word_char(w[k]));
                }
            }
        }
        lemma_word_kept(t, st0, w);
        let u1 = advance(t, st0);
        lemma_run_advance(t, st0);
        lemma_other_char(t, u1);
        let u2 = advance(t, u1);
        lemma_run_advance(t, u1);
        lemma_other_char(t, u2);
        let u3 = advance(t, u2);
        lemma_run_advance(t, u2);
        assert(u3.out =~= t);
    }
}

/// No character of `s` is a brace or a backslash.
pub open spec fn plain_literal_text(s: Seq<char>) -> bool {
    forall|k: int| 0 <= k < s.len() ==> #[trigger] s[k] != '{' && s[k] != '}' && s[k] != '\\'
}

/// Literal f-string text without braces or backslashes is kept, one
/// character at a time, up to `end`.
proof fn lemma_fstring_literal_run(c: Seq<char>, i: int, end: int, raw: bool)
    requires
        0 <= i <= end <= c.len(),
        forall|k: int| i <= k < end ==> #[trigger] c[k] != '{' && c[k] != '}' && c[k] != '\\',
    ensures
        fstring_text(c, i, raw) == c.subrange(i, end) + fstring_text(c, end, raw),
    decreases end - i,
{
    if i < end {
        lemma_fstring_piece_end_bounds(c, i);
        assert(fstring_piece_end(c, i) == i + 1);
        assert(escape_text(c, i, c.len() as int, raw) == seq![c[i]]);
        lemma_fstring_literal_run(c, i + 1, end, raw);
        assert(c.subrange(i, end) =~= seq![c[i]] + c.subrange(i + 1, end));
    } else {
        assert(c.subrange(i, end) =~= seq![]);
    }
}

/// An expression without braces, backslashes or quotes closes at the first
/// `}` after it.
proof fn lemma_closing_brace_after(c: Seq<char>, j: int, end: int)
    requires
        0 <= j <= end < c.len(),
        c[end] == '}',
        forall|k: int| j <= k < end ==> #[trigger] c[k] != '{' && c[k] != '}' && c[k] != '\\'
            && !is_quote(c[k]),
    ensures
        closing_brace_from(c, j, 1) == end,
    decreases end - j,
{
    if j < end {
        lemma_closing_brace_after(c, j + 1, end);
    }
}

/// F-string text is kept and its `{…}` expression translated: `t1{e}t2`,
/// whose literal parts hold no brace or backslash and whose expression holds
/// no brace, backslash or quote, renders as `t1{`, the translation of `e`,
/// and `}t2`.
pub proof fn law_fstring_segments(t1: Seq<char>, e: Seq<char>, t2: Seq<char>, raw: bool)
    requires
        plain_literal_text(t1),
        plain_literal_text(t2),
        plain_literal_text(e),
        quote_free(e),
    ensures
        fstring_text(t1 + seq!['{'] + e + seq!['}'] + t2, 0, raw) == t1 + seq!['{'] + translation(
            e,
        ) + seq!['}'] + t2,
{
    let c = t1 + seq!['{'] + e + seq!['}'] + t2;
    let a = t1.len() as int;
    let j = a + 1 + e.len();
    assert(c.len() == j + 1 + t2.len());
    assert forall|k: int| 0 <= k < a implies #[trigger] c[k] != '{' && c[k] != '}' && c[k]
        != '\\' by {
        assert(c[k] == t1[k]);
    }
    lemma_fstring_literal_run(c, 0, a, raw);
    assert(c[a] == '{');
    assert(c[j] == '}');
    assert forall|k: int| a + 1 <= k < j implies #[trigger] c[k] != '{' && c[k] != '}' && c[k]
        != '\\' && !is_quote(c[k]) by {
        assert(c[k] == e[k - a - 1]);
    }
    lemma_closing_brace_after(c, a + 1, j);
    assert(opens_expression(c, a)) by {
        if a + 1 < c.len() {
            assert(c[a + 1] != '{');
        }
    }
    assert(fstring_piece_end(c, a) == j + 1);
    assert(c.subrange(a + 1, j) =~= e);
    lemma_fstring_piece_end_bounds(c, a);
    assert(fstring_text(c, a, raw) == seq!['{'] + translation(e) + seq!['}'] + fstring_text(
        c,
        j + 1,
        raw,
    ));
    assert forall|k: int| j + 1 <= k < c.len() implies #[trigger] c[k] != '{' && c[k] != '}'
        && c[k] != '\\' by {
        assert(c[k] == t2[k - j - 1]);
    }
    lemma_fstring_literal_run(c, j + 1, c.len() as int, raw);
    assert(fstring_text(c, c.len() as int, raw) == Seq::<char>::empty());
    assert(c.subrange(0, a) =~= t1);
    assert(c.subrange(j + 1, c.len() as int) =~= t2);
    assert(t1 + seq!['{'] + translation(e) + seq!['}'] + t2 =~= t1 + (seq!['{'] + translation(e)
        + seq!['}'] + (t2 + Seq::<char>::empty())));
}

/// The f-string law seen through a whole source: a Shifra f-string
/// `مـ'…'` whose text is `t1{e}t2` (literal parts without quotes) is written
/// `f'…'`, its literal parts kept and its expression translated.
pub proof fn law_shifra_fstring_segments(t1: Seq<char>, e: Seq<char>, t2: Seq<char>)
    requires
        plain_literal_text(t1),
        plain_literal_text(t2),
        quote_free(t1),
        quote_free(t2),
        plain_literal_text(e),
        quote_free(e),
    ensures
        translation(seq!['م', 'ـ', '\''] + (t1 + seq!['{'] + e + seq!['}'] + t2) + seq!['\''])
            == seq!['f', '\''] + (t1 + seq!['{'] + translation(e) + seq!['}'] + t2) + seq!['\''],
{
    law_fstring_segments(t1, e, t2, false);
    let x = t1 + seq!['{'] + e + seq!['}'] + t2;
    let s = seq!['م', 'ـ', '\''] + x + seq!['\''];
    let n = s.len() as int;
    assert(n == x.len() + 4);
    assert forall|k: int| 0 <= k < x.len() implies #[trigger] x[k] != '\'' && x[k] != '\\' by {
        let a = t1.len() as int;
        if k < a {
            assert(x[k] == t1[k]);
        } else if k == a {
        } else if k <= a + 1 + e.len() {
            if k < a + 1 + e.len() {
                assert(x[k] == e[k - a - 1]);
            }
        } else {
            assert(x[k] == t2[k - a - 2 - e.len()]);
        }
    }
    assert forall|k: int| 3 <= k < n - 1 implies #[trigger] s[k] != '\'' && s[k] != '\\' by {
        assert(s[k] == x[k - 3]);
    }
    assert(s[0] == 'م' && s[1] == 'ـ' && s[2] == '\'' && s.last() == '\'');
    assert(token_at(s, 0) == Token::ShifraFString);
    assert(!opens_triple(s, 2)) by {
        assert(s[3] != '\'');
    }
    lemma_closing_at_end(s, 3, '\'');
    assert(is_fstring_literal(s, 2));
    assert(!is_raw_literal(s, 2));
    assert(s.subrange(3, n - 1) =~= x);
    assert(quoted_text(s, 2) =~= seq!['\''] + fstring_text(x, 0, false) + seq!['\'']);
    let st = initial_scan();
    assert(next_state(s, st).index == n);
    assert(next_output(s, st) =~= seq!['f'] + quoted_text(s, 2));
}

/// A literal's text that holds neither its quote nor a backslash is scanned
/// past whole when looking for the closing quote.
proof fn lemma_closing_skip(s: Seq<char>, i: int, p: int, quote: char, triple: bool)
    requires
        0 <= i <= p <= s.len(),
        is_quote(quote),
        forall|k: int| i <= k < p ==> #[trigger] s[k] != quote && s[k] != '\\',
    ensures
        closing_quote_from(s, i, quote, triple) == closing_quote_from(s, p, quote, triple),
    decreases p - i,
{
    if i < p {
        lemma_closing_skip(s, i + 1, p, quote, triple);
    }
}

/// Literal text without backslashes is rendered as it is written, up to `m`.
proof fn lemma_plain_prefix(s: Seq<char>, i: int, m: int, end: int, raw: bool)
    requires
        0 <= i <= m <= end <= s.len(),
        forall|k: int| i <= k < m ==> #[trigger] s[k] != '\\',
    ensures
        plain_text(s, i, end, raw) == s.subrange(i, m) + plain_text(s, m, end, raw),
    decreases m - i,
{
    if i < m {
        assert(escape_text(s, i, end, raw) =~= seq![s[i]]);
        lemma_plain_prefix(s, i + 1, m, end, raw);
        assert(s.subrange(i, m) =~= seq![s[i]] + s.subrange(i + 1, m));
    } else {
        assert(s.subrange(i, m) =~= seq![]);
    }
}

/// A literal with no prefix, at the start of the text, is neither raw nor
/// an f-string.
proof fn lemma_bare_literal(s: Seq<char>)
    requires
        s.len() > 0,
    ensures
        !is_raw_literal(s, 0),
        !is_fstring_literal(s, 0),
{
}

/// A plain literal `q…q` that opens the text, whose text holds neither its
/// quote nor a backslash, is the first token and is written as it is.
proof fn lemma_literal_first(s: Seq<char>, q: char, n: int)
    requires
        q == '\'' || q == '"',
        0 <= n,
        n + 2 <= s.len(),
        s[0] == q,
        s[n + 1] == q,
        forall|k: int| 1 <= k < n + 1 ==> #[trigger] s[k] != q && s[k] != '\\',
        !opens_triple(s, 0),
    ensures
        token_at(s, 0) == Token::Quoted,
        advance(s, initial_scan()).index == n + 2,
        advance(s, initial_scan()).out == s.subrange(0, n + 2),
        run(s, initial_scan()) == run(s, advance(s, initial_scan())),
{
    lemma_closing_skip(s, 1, n + 1, q, false);
    lemma_bare_literal(s);
    lemma_plain_kept(s, 1, n + 1, false);
    let st0 = initial_scan();
    assert(quoted_text(s, 0) =~= s.subrange(0, n + 2));
    lemma_run_advance(s, st0);
}

/// The Python escape letter that SHIFRA.md gives for each Shifra escape
/// letter.
pub open spec fn documented_escape(x: char) -> Option<char> {
    if x == 'ج' {
        Some('n')
    } else if x == 'ط' {
        Some('t')
    } else if x == 'ر' {
        Some('r')
    } else if x == 'م' {
        Some('\\')
    } else if x == 'ص' {
        Some('0')
    } else if x == 'س' {
        Some('b')
    } else if x == 'ن' {
        Some('f')
    } else if x == 'ع' {
        Some('v')
    } else if x == 'ت' {
        Some('a')
    } else {
        None
    }
}

/// Text that may stand in a literal delimited by `q` without an escape: no
/// `q` and no backslash.
pub open spec fn unescaped_text(a: Seq<char>, q: char) -> bool {
    forall|k: int| 0 <= k < a.len() ==> #[trigger] a[k] != q && a[k] != '\\'
}

/// `\\x` in a plain literal without a prefix becomes `\\` and `x`'s Python
/// letter.
proof fn lemma_escape_plain(q: char, a: Seq<char>, x: char, b: Seq<char>)
    requires
        q == '\'' || q == '"',
        unescaped_text(a, q),
        unescaped_text(b, q),
        documented_escape(x) is Some,
    ensures
        translation(seq![q] + a + seq!['\\', x] + b + seq![q]) == seq![q] + a + seq![
            '\\',
            documented_escape(x)->0,
        ] + b + seq![q],
{
    let n = a.len() as int;
    let m = b.len() as int;
    let s = seq![q] + a + seq!['\\', x] + b + seq![q];
    assert(s.len() == n + m + 4);
    assert(s.last() == q);
    assert forall|k: int| 1 <= k < n + 1 implies #[trigger] s[k] != q && s[k] != '\\' by {
        assert(s[k] == a[k - 1]);
    }
    assert(s[n + 1] == '\\' && s[n + 2] == x);
    assert forall|k: int| n + 3 <= k < s.len() - 1 implies #[trigger] s[k] != q && s[k]
        != '\\' by {
        assert(s[k] == b[k - n - 3]);
    }
    assert(token_at(s, 0) == Token::Quoted);
    assert(!opens_triple(s, 0)) by {
        if s.len() >= 3 {
            assert(s[1] != q);
        }
    }
    lemma_closing_skip(s, 1, n + 1, q, false);
    assert(closing_quote_from(s, n + 1, q, false) == closing_quote_from(s, n + 3, q, false));
    lemma_closing_at_end(s, n + 3, q);
    lemma_bare_literal(s);
    let end = s.len() - 1;
    lemma_plain_prefix(s, 1, n + 1, end, false);
    assert(plain_text(s, n + 1, end, false) == seq!['\\', documented_escape(x)->0] + plain_text(
        s,
        n + 3,
        end,
        false,
    ));
    lemma_plain_kept(s, n + 3, end, false);
    assert(s.subrange(1, n + 1) =~= a);
    assert(s.subrange(n + 3, end) =~= b);
    let st = initial_scan();
    assert(next_state(s, st).index == s.len());
    assert(next_output(s, st) =~= seq![q] + a + seq!['\\', documented_escape(x)->0] + b + seq![
        q,
    ]);
}

/// `\\x` in an `r`-prefixed literal is kept as written.
proof fn lemma_escape_raw(q: char, a: Seq<char>, x: char, b: Seq<char>)
    requires
        q == '\'' || q == '"',
        unescaped_text(a, q),
        unescaped_text(b, q),
        documented_escape(x) is Some,
    ensures
        translation(seq!['r', q] + a + seq!['\\', x] + b + seq![q]) == seq!['r', q] + a + seq![
            '\\',
            x,
        ] + b + seq![q],
{
    let n = a.len() as int;
    let m = b.len() as int;
    let st = initial_scan();
    let r = seq!['r', q] + a + seq!['\\', x] + b + seq![q];
    assert(r.len() == n + m + 5);
    assert(r.last() == q);
    law_table_keys_are_arabic();
    let w = seq!['r'];
    assert(!has_arabic(w)) by {
        assert(!in_arabic_block(w[0]));
    }
    lemma_non_arabic_word_not_found(KEYWORDS@, w);
    lemma_non_arabic_word_not_found(NAMES@, w);
    assert(r.subrange(0, 1) =~= w);
    lemma_word_kept(r, st, w);
    let st1 = advance(r, st);
    lemma_run_advance(r, st);
    assert forall|k: int| 2 <= k < n + 2 implies #[trigger] r[k] != q && r[k] != '\\' by {
        assert(r[k] == a[k - 2]);
    }
    assert(r[n + 2] == '\\' && r[n + 3] == x);
    assert forall|k: int| n + 4 <= k < r.len() - 1 implies #[trigger] r[k] != q && r[k]
        != '\\' by {
        assert(r[k] == b[k - n - 4]);
    }
    assert(token_at(r, 1) == Token::Quoted);
    assert(!opens_triple(r, 1)) by {
        if r.len() >= 4 {
            assert(r[2] != q);
        }
    }
    lemma_closing_skip(r, 2, n + 2, q, false);
    assert(closing_quote_from(r, n + 2, q, false) == closing_quote_from(r, n + 4, q, false));
    lemma_closing_at_end(r, n + 4, q);
    assert(prefix_letters(r, 0) == (false, false, -1int));
    assert(prefix_letters(r, 1) == (false, true, -1int));
    assert(is_raw_literal(r, 1));
    assert(!is_fstring_literal(r, 1));
    let rend = r.len() - 1;
    lemma_plain_prefix(r, 2, n + 2, rend, true);
    assert(plain_text(r, n + 2, rend, true) == seq!['\\', x] + plain_text(r, n + 4, rend, true));
    lemma_plain_kept(r, n + 4, rend, true);
    assert(r.subrange(2, n + 2) =~= a);
    assert(r.subrange(n + 4, rend) =~= b);
    assert(next_state(r, st1).index == r.len());
    assert(next_output(r, st1) =~= r);
}

/// Shifra escapes are applied in every string literal without an `r`
/// prefix, whichever quote delimits it: `\x`, for a Shifra escape letter
/// `x`, is written as a backslash and its Python letter. With an `r` prefix
/// the literal is kept as written.
pub proof fn law_shifra_escapes_in_strings(q: char, a: Seq<char>, x: char, b: Seq<char>)
    requires
        q == '\'' || q == '"',
        unescaped_text(a, q),
        unescaped_text(b, q),
        documented_escape(x) is Some,
    ensures
        translation(seq![q] + a + seq!['\\', x] + b + seq![q]) == seq![q] + a + seq![
            '\\',
            documented_escape(x)->0,
        ] + b + seq![q],
        translation(seq!['r', q] + a + seq!['\\', x] + b + seq![q]) == seq!['r', q] + a + seq![
            '\\',
            x,
        ] + b + seq![q],
{
    lemma_escape_plain(q, a, x, b);
    lemma_escape_raw(q, a, x, b);
}

/// A method name right after a dot is translated whatever precedes the dot,
/// a string literal included: `'…'.w()` becomes `'…'.p()` for the method
/// `w` spelled `p` in Python.
pub proof fn law_methods_after_literal(q: char, a: Seq<char>, w: Seq<char>, p: Seq<char>)
    requires
        q == '\'' || q == '"',
        unescaped_text(a, q),
        forall|k: int| 0 <= k < w.len() ==> spec_is_word_char(#[trigger] w[k]),
        table_lookup(METHODS@, w) == Some(p),
    ensures
        translation(seq![q] + a + seq![q, '.'] + w + seq!['(', ')']) == seq![q] + a + seq![
            q,
            '.',
        ] + p + seq!['(', ')'],
{
    lemma_methods_entries();
    lemma_found_shape(METHODS@, w, p);
    let n = a.len() as int;
    let mw = w.len() as int;
    let s = seq![q] + a + seq![q, '.'] + w + seq!['(', ')'];
    assert(s.len() == n + mw + 5);
    assert forall|k: int| 1 <= k < n + 1 implies #[trigger] s[k] != q && s[k] != '\\' by {
        assert(s[k] == a[k - 1]);
    }
    assert(s[n + 1] == q && s[n + 2] == '.');
    assert(s.subrange(n + 3, n + 3 + mw) =~= w);
    assert(s[n + 3 + mw] == '(' && s[n + 4 + mw] == ')');
    assert(!opens_triple(s, 0)) by {
        assert(s[1] != q || s[2] == '.');
    }
    lemma_literal_first(s, q, n);
    let st0 = initial_scan();
    let st1 = advance(s, st0);
    assert(st1.out =~= seq![q] + a + seq![q]);
    lemma_other_char(s, st1);
    let st2 = advance(s, st1);
    lemma_run_advance(s, st1);
    if n + 4 < s.len() {
        if mw > 1 {
            assert(s[n + 4] == w[1]);
        }
    }
    if n + 5 < s.len() {
        if mw > 2 {
            assert(s[n + 5] == w[2]);
        }
    }
    lemma_method_word(s, st2, w, p);
    let st3 = advance(s, st2);
    lemma_run_advance(s, st2);
    lemma_other_char(s, st3);
    let st4 = advance(s, st3);
    lemma_run_advance(s, st3);
    lemma_other_char(s, st4);
    let st5 = advance(s, st4);
    lemma_run_advance(s, st4);
    assert(st5.index == s.len());
    assert(st5.out =~= seq![q] + a + seq![q, '.'] + p + seq!['(', ')']);
}

/// A docstring does not swallow the code after it: a literal opened by
/// three quotes, `"""` as much as `'''`, closes at the next three, and the
/// keyword on the following line is translated.
pub proof fn law_docstring_then_code(q: char, body: Seq<char>, w: Seq<char>, p: Seq<char>)
    requires
        q == '\'' || q == '"',
        unescaped_text(body, q),
        forall|k: int| 0 <= k < w.len() ==> spec_is_word_char(#[trigger] w[k]),
        table_lookup(KEYWORDS@, w) == Some(p),
    ensures
        translation(seq![q, q, q] + body + seq![q, q, q, '\n'] + w) == seq![q, q, q] + body
            + seq![q, q, q, '\n'] + p,
{
    lemma_keywords_entries();
    lemma_found_shape(KEYWORDS@, w, p);
    let n = body.len() as int;
    let mw = w.len() as int;
    let s = seq![q, q, q] + body + seq![q, q, q, '\n'] + w;
    assert(s.len() == n + mw + 7);
    assert forall|k: int| 3 <= k < n + 3 implies #[trigger] s[k] != q && s[k] != '\\' by {
        assert(s[k] == body[k - 3]);
    }
    assert(s[n + 3] == q && s[n + 4] == q && s[n + 5] == q && s[n + 6] == '\n');
    assert(s.subrange(n + 7, n + 7 + mw) =~= w);
    assert(token_at(s, 0) == Token::Quoted);
    assert(opens_triple(s, 0)) by {
        assert(triple_at(s, 0, q));
    }
    lemma_closing_skip(s, 3, n + 3, q, true);
    assert(triple_at(s, n + 3, q));
    assert(closing_quote_from(s, n + 3, q, true) == n + 3);
    lemma_bare_literal(s);
    lemma_plain_kept(s, 3, n + 3, false);
    let st0 = initial_scan();
    assert(next_state(s, st0).index == n + 6);
    assert(next_output(s, st0) =~= seq![q, q, q] + body + seq![q, q, q]);
    let st1 = advance(s, st0);
    lemma_run_advance(s, st0);
    assert(token_at(s, n + 6) == Token::Newline);
    let st2 = advance(s, st1);
    lemma_run_advance(s, st1);
    assert(st2.index == n + 7);
    assert(!st2.line_has_code && !st2.expect_from && !st2.expect_import);
    // The keyword.
    let i = n + 7;
    assert(s[i] == w[0]);
    assert forall|k: int| i <= k < i + mw implies spec_is_word_char(#[trigger] s[k]) by {
        assert(s[k] == w[k - i]);
    }
    if mw > 1 {
        assert(!is_quote(s[i + 1]));
    }
    if mw > 2 {
        assert(!is_quote(s[i + 2]));
    }
    assert(token_at(s, i) == Token::Word);
    lemma_word_end_at(s, i, i + mw);
    assert(word_at(s, i) =~= w);
    assert(!after_dot(s, i));
    assert(word_replacement(s, st2) == p);
    assert(!splits_line(s, st2));
    assert(word_text(p) == p);
    let st3 = advance(s, st2);
    lemma_run_advance(s, st2);
    assert(st3.index == s.len());
    assert(st3.out =~= seq![q, q, q] + body + seq![q, q, q, '\n'] + p);
}

/// Some character of `o` is a line feed.
pub open spec fn has_line_feed(o: Seq<char>) -> bool {
    exists|j: int| 0 <= j < o.len() && o[j] == '\n'
}

/// Trimming trailing space stops at a line feed: text before the last line
/// feed is never touched.
proof fn lemma_trim_keeps_prefix(l: Seq<char>, o: Seq<char>)
    requires
        has_line_feed(o),
    ensures
        trim_trailing_space(l + o) == l + trim_trailing_space(o),
        has_line_feed(trim_trailing_space(o)),
    decreases o.len(),
{
    let j = choose|j: int| 0 <= j < o.len() && o[j] == '\n';
    assert((l + o).last() == o.last());
    if spec_whitespace(o.last()) && o.last() != '\n' {
        assert(j < o.len() - 1);
        assert(o.drop_last()[j] == '\n');
        assert((l + o).drop_last() =~= l + o.drop_last());
        lemma_trim_keeps_prefix(l, o.drop_last());
    } else {
        assert(o[j] == '\n');
    }
}

/// The text `r` sits at the end of `s`, from `p` on.
pub open spec fn tail_of(s: Seq<char>, p: int, r: Seq<char>) -> bool {
    0 <= p && s.len() == p + r.len() && r == s.subrange(p, s.len() as int)
}

proof fn lemma_tail_char(s: Seq<char>, p: int, r: Seq<char>, j: int)
    requires
        tail_of(s, p, r),
        0 <= j < r.len(),
    ensures
        s[p + j] == r[j],
{
    assert(r[j] == s.subrange(p, s.len() as int)[j]);
}

proof fn lemma_tail_newline(s: Seq<char>, p: int, r: Seq<char>, j: int)
    requires
        tail_of(s, p, r),
        0 <= j <= r.len(),
    ensures
        newline_at_or_after(s, p + j) == p + newline_at_or_after(r, j),
    decreases r.len() - j,
{
    if j < r.len() {
        lemma_tail_char(s, p, r, j);
        lemma_tail_newline(s, p, r, j + 1);
    }
}

proof fn lemma_tail_word_end(s: Seq<char>, p: int, r: Seq<char>, j: int)
    requires
        tail_of(s, p, r),
        0 <= j <= r.len(),
    ensures
        word_end_from(s, p + j) == p + word_end_from(r, j),
    decreases r.len() - j,
{
    if j < r.len() {
        lemma_tail_char(s, p, r, j);
        lemma_tail_word_end(s, p, r, j + 1);
    }
}

proof fn lemma_tail_colon(s: Seq<char>, p: int, r: Seq<char>, j: int)
    requires
        tail_of(s, p, r),
        0 <= j <= r.len(),
    ensures
        colon_ahead(s, p + j) == colon_ahead(r, j),
    decreases r.len() - j,
{
    if j < r.len() {
        lemma_tail_char(s, p, r, j);
        lemma_tail_colon(s, p, r, j + 1);
    }
}

proof fn lemma_tail_triple(s: Seq<char>, p: int, r: Seq<char>, j: int, q: char)
    requires
        tail_of(s, p, r),
        0 <= j <= r.len(),
    ensures
        triple_at(s, p + j, q) == triple_at(r, j, q),
{
    if j + 3 <= r.len() {
        lemma_tail_char(s, p, r, j);
        lemma_tail_char(s, p, r, j + 1);
        lemma_tail_char(s, p, r, j + 2);
    }
}

proof fn lemma_tail_closing(s: Seq<char>, p: int, r: Seq<char>, j: int, q: char, t: bool)
    requires
        tail_of(s, p, r),
        0 <= j <= r.len(),
    ensures
        closing_quote_from(s, p + j, q, t) == p + closing_quote_from(r, j, q, t),
    decreases r.len() - j,
{
    if j < r.len() {
        lemma_tail_char(s, p, r, j);
        if j + 1 < r.len() {
            lemma_tail_char(s, p, r, j + 1);
        }
        lemma_tail_triple(s, p, r, j, if q == '\'' { '\'' } else { '"' });
        if r[j] == '\\' && j + 1 < r.len() {
            if j + 2 <= r.len() {
                lemma_tail_closing(s, p, r, j + 2, q, t);
            } else {
                lemma_tail_closing(s, p, r, r.len() as int, q, t);
            }
        } else {
            lemma_tail_closing(s, p, r, j + 1, q, t);
        }
    }
}

proof fn lemma_tail_plain(s: Seq<char>, p: int, r: Seq<char>, i: int, end: int, raw: bool)
    requires
        tail_of(s, p, r),
        0 <= i <= end <= r.len(),
    ensures
        plain_text(s, p + i, p + end, raw) == plain_text(r, i, end, raw),
    decreases end - i,
{
    if i < end {
        lemma_tail_char(s, p, r, i);
        if i + 1 < end {
            lemma_tail_char(s, p, r, i + 1);
        }
        assert(escape_len(s, p + i, p + end) == escape_len(r, i, end));
        assert(escape_text(s, p + i, p + end, raw) == escape_text(r, i, end, raw));
        lemma_tail_plain(s, p, r, i + escape_len(r, i, end), end, raw);
    }
}

/// Scanning prefix letters back from inside `r` stops at its first line
/// feed, just as in `s`.
proof fn lemma_tail_prefix(s: Seq<char>, p: int, r: Seq<char>, j: int)
    requires
        tail_of(s, p, r),
        r.len() > 0,
        r[0] == '\n',
        1 <= j <= r.len(),
    ensures
        prefix_letters(s, p + j).0 == prefix_letters(r, j).0,
        prefix_letters(s, p + j).1 == prefix_letters(r, j).1,
        prefix_letters(s, p + j).2 == p + prefix_letters(r, j).2,
        0 <= prefix_letters(r, j).2 < j,
    decreases j,
{
    lemma_tail_char(s, p, r, j - 1);
    if j > 1 && spec_is_string_prefix_letter(r[j - 1]) {
        lemma_tail_prefix(s, p, r, j - 1);
    }
}

proof fn lemma_tail_quoted(s: Seq<char>, p: int, r: Seq<char>, q: int)
    requires
        tail_of(s, p, r),
        r.len() > 0,
        r[0] == '\n',
        1 <= q < r.len(),
    ensures
        quoted_text(s, p + q) == quoted_text(r, q),
        quoted_literal_end(s, p + q) == p + quoted_literal_end(r, q),
{
    lemma_tail_char(s, p, r, q);
    lemma_tail_triple(s, p, r, q, '\'');
    lemma_tail_triple(s, p, r, q, '"');
    let triple = opens_triple(r, q);
    let len = delimiter_len(triple);
    lemma_quoted_literal_end_bounds(r, q);
    lemma_closing_quote_bounds(r, q + len, r[q], triple);
    lemma_tail_closing(s, p, r, q + len, r[q], triple);
    let closing = closing_quote_from(r, q + len, r[q], triple);
    lemma_tail_prefix(s, p, r, q);
    let j = prefix_letters(r, q).2;
    lemma_tail_char(s, p, r, j);
    if q >= 2 {
        lemma_tail_char(s, p, r, q - 2);
        lemma_tail_char(s, p, r, q - 1);
    } else {
        lemma_tail_char(s, p, r, 0);
    }
    assert(is_fstring_literal(s, p + q) == is_fstring_literal(r, q));
    assert(is_raw_literal(s, p + q) == is_raw_literal(r, q));
    lemma_tail_plain(s, p, r, q + len, closing, is_raw_literal(r, q));
    assert(s.subrange(p + q + len, p + closing) =~= r.subrange(q + len, closing));
    assert(s.subrange(p + q, p + q + len) =~= r.subrange(q, q + len));
    if closing < r.len() {
        assert(s.subrange(p + closing, p + closing + len) =~= r.subrange(closing, closing + len));
    }
}

/// The scan of `s` at `p + k` stands to that of `r` at `k` as `r` to the
/// end of `s`, with `l` written before.
pub open spec fn lifted(p: int, l: Seq<char>, st: Scan) -> Scan {
    Scan {
        index: p + st.index,
        out: l + st.out,
        line_has_code: st.line_has_code,
        indent: st.indent,
        expect_from: st.expect_from,
        expect_import: st.expect_import,
    }
}

/// One token of `r` reads the same at the end of `s`.
proof fn lemma_tail_step(s: Seq<char>, p: int, r: Seq<char>, l: Seq<char>, st: Scan)
    requires
        tail_of(s, p, r),
        r.len() > 0,
        r[0] == '\n',
        1 <= st.index < r.len(),
        has_line_feed(st.out),
    ensures
        advance(s, lifted(p, l, st)) == lifted(p, l, advance(r, st)),
        has_line_feed(advance(r, st).out),
{
    let k = st.index;
    let i = p + k;
    let sst = lifted(p, l, st);
    lemma_tail_char(s, p, r, k);
    if k + 1 < r.len() {
        lemma_tail_char(s, p, r, k + 1);
    }
    if k + 2 < r.len() {
        lemma_tail_char(s, p, r, k + 2);
    }
    lemma_tail_char(s, p, r, k - 1);
    assert(token_at(s, i) == token_at(r, k));
    let o = st.out;
    let jo = choose|j: int| 0 <= j < o.len() && o[j] == '\n';
    match token_at(r, k) {
        Token::Comment => {
            lemma_tail_newline(s, p, r, k);
            lemma_newline_bounds(r, k);
            let e = newline_at_or_after(r, k);
            assert forall|x: int| 0 <= x < e - k implies #[trigger] s.subrange(i, p + e)[x]
                == r.subrange(k, e)[x] by {
                lemma_tail_char(s, p, r, k + x);
            }
            assert(s.subrange(i, p + newline_at_or_after(r, k)) =~= r.subrange(
                k,
                newline_at_or_after(r, k),
            ));
            assert((l + o) + r.subrange(k, newline_at_or_after(r, k)) =~= l + (o + r.subrange(
                k,
                newline_at_or_after(r, k),
            )));
            assert((o + r.subrange(k, newline_at_or_after(r, k)))[jo] == '\n');
        },
        Token::ShifraFString => {
            lemma_tail_quoted(s, p, r, k + 2);
            assert((l + o) + seq!['f'] + quoted_text(r, k + 2) =~= l + (o + seq!['f'] + quoted_text(
                r,
                k + 2,
            )));
            assert((o + seq!['f'] + quoted_text(r, k + 2))[jo] == '\n');
        },
        Token::Quoted => {
            lemma_tail_quoted(s, p, r, k);
            assert((l + o) + quoted_text(r, k) =~= l + (o + quoted_text(r, k)));
            assert((o + quoted_text(r, k))[jo] == '\n');
        },
        Token::LatinFString => {
            lemma_tail_quoted(s, p, r, k + 1);
            assert((l + o) + seq!['f'] + quoted_text(r, k + 1) =~= l + (o + seq!['f'] + quoted_text(
                r,
                k + 1,
            )));
            assert((o + seq!['f'] + quoted_text(r, k + 1))[jo] == '\n');
        },
        Token::Word => {
            lemma_tail_word_end(s, p, r, k);
            lemma_word_end_bounds(r, k);
            let e = word_end_from(r, k);
            lemma_tail_colon(s, p, r, e);
            assert(word_at(s, i) =~= word_at(r, k));
            assert(after_dot(s, i) == after_dot(r, k));
            assert(word_replacement(s, sst) == word_replacement(r, st));
            assert(splits_line(s, sst) == splits_line(r, st));
            let t = word_text(word_replacement(r, st));
            if splits_line(r, st) {
                lemma_trim_keeps_prefix(l, o);
                let tr = trim_trailing_space(o);
                assert(trim_trailing_space(l + o).push('\n') + st.indent + t =~= l + (tr.push('\n')
                    + st.indent + t));
                assert((tr.push('\n') + st.indent + t)[tr.len() as int] == '\n');
            } else {
                assert((l + o) + t =~= l + (o + t));
                assert((o + t)[jo] == '\n');
            }
        },
        _ => {
            assert((l + o).push(s[i]) =~= l + o.push(r[k]));
            assert(o.push(r[k])[jo] == '\n');
        },
    }
}

/// A text that follows a line break is translated the same wherever it
/// stands: from the break on, the translation of `s` is that of its tail
/// `r`, after what was written before.
proof fn lemma_tail_run(s: Seq<char>, p: int, r: Seq<char>, l: Seq<char>, st: Scan)
    requires
        tail_of(s, p, r),
        r.len() > 0,
        r[0] == '\n',
        1 <= st.index <= r.len(),
        has_line_feed(st.out),
    ensures
        run(s, lifted(p, l, st)) == l + run(r, st),
    decreases r.len() - st.index,
{
    if st.index < r.len() {
        lemma_tail_step(s, p, r, l, st);
        lemma_token_end_bounds(r, st.index);
        lemma_run_advance(s, lifted(p, l, st));
        lemma_run_advance(r, st);
        lemma_tail_run(s, p, r, l, advance(r, st));
    }
}

/// A docstring does not swallow the code after it: a literal opened by
/// three quotes, `"""` as much as `'''`, closes at the next three, and the
/// rest of the program, from the next line on, is translated exactly as it
/// would be on its own.
pub proof fn law_docstring_keeps_rest(q: char, body: Seq<char>, rest: Seq<char>)
    requires
        q == '\'' || q == '"',
        unescaped_text(body, q),
        rest.len() > 0,
        rest[0] == '\n',
    ensures
        translation(seq![q, q, q] + body + seq![q, q, q] + rest) == seq![q, q, q] + body + seq![
            q,
            q,
            q,
        ] + translation(rest),
{
    let n = body.len() as int;
    let l = seq![q, q, q] + body + seq![q, q, q];
    let s = l + rest;
    let p = n + 6;
    assert(l.len() == p);
    assert(s.subrange(p, s.len() as int) =~= rest);
    assert(tail_of(s, p, rest));
    assert forall|k: int| 3 <= k < n + 3 implies #[trigger] s[k] != q && s[k] != '\\' by {
        assert(s[k] == body[k - 3]);
    }
    assert(s[n + 3] == q && s[n + 4] == q && s[n + 5] == q && s[n + 6] == '\n');
    assert(token_at(s, 0) == Token::Quoted);
    assert(opens_triple(s, 0)) by {
        assert(triple_at(s, 0, q));
    }
    lemma_closing_skip(s, 3, n + 3, q, true);
    assert(triple_at(s, n + 3, q));
    lemma_bare_literal(s);
    lemma_plain_kept(s, 3, n + 3, false);
    let st0 = initial_scan();
    assert(next_output(s, st0) =~= l);
    let st1 = advance(s, st0);
    lemma_run_advance(s, st0);
    assert(st1.index == p);
    // The line feed that starts `rest`.
    assert(token_at(s, p) == Token::Newline);
    let st2 = advance(s, st1);
    lemma_run_advance(s, st1);
    let r0 = advance(rest, st0);
    assert(token_at(rest, 0) == Token::Newline);
    lemma_run_advance(rest, st0);
    assert(r0.out =~= seq!['\n']);
    assert(r0.out[0] == '\n');
    assert(st2 == lifted(p, l, r0)) by {
        assert(st2.out =~= l + seq!['\n']);
    }
    lemma_tail_run(s, p, rest, l, r0);
}

/// An Arabic-Indic (U+0660 to U+0669) or Persian (U+06F0 to U+06F9) digit.
pub open spec fn eastern_digit(c: char) -> bool {
    ('\u{0660}' <= c && c <= '\u{0669}') || ('\u{06F0}' <= c && c <= '\u{06F9}')
}

/// The value, 0 to 9, of an Arabic-Indic or Persian digit.
pub open spec fn eastern_digit_value(c: char) -> int {
    if c <= '\u{0669}' {
        c as int - 0x0660
    } else {
        c as int - 0x06F0
    }
}

/// A numeral written in Arabic-Indic or Persian digits becomes the ASCII
/// numeral of the same value: each digit turns into the ASCII digit
/// (U+0030 plus its value), so no non-ASCII digit is left.
pub proof fn law_numerals_become_ascii(d: Seq<char>)
    requires
        d.len() > 0,
        forall|k: int| 0 <= k < d.len() ==> eastern_digit(#[trigger] d[k]),
    ensures
        translation(d).len() == d.len(),
        forall|k: int|
            0 <= k < d.len() ==> (#[trigger] translation(d)[k]) as int == 0x30
                + eastern_digit_value(d[k]),
{
    lemma_keywords_entries();
    lemma_names_entries();
    assert forall|k: int| 0 <= k < d.len() implies spec_is_word_char(#[trigger] d[k]) by {
        assert(eastern_digit(d[k]));
    }
    assert(eastern_digit(d[0]));
    lemma_word_end_at(d, 0, d.len() as int);
    assert(word_at(d, 0) =~= d);
    if let Some(p) = table_lookup(KEYWORDS@, d) {
        lemma_found_shape(KEYWORDS@, d, p);
    }
    if let Some(p) = table_lookup(NAMES@, d) {
        lemma_found_shape(NAMES@, d, p);
    }
    let st0 = initial_scan();
    assert(token_at(d, 0) == Token::Word);
    assert(word_replacement(d, st0) == d);
    assert(!splits_line(d, st0));
    assert(word_text(d) == digits_to_ascii(d));
    let st1 = advance(d, st0);
    lemma_run_advance(d, st0);
    assert(st1.index == d.len());
    assert(translation(d) == digits_to_ascii(d));
    assert forall|k: int| 0 <= k < d.len() implies (#[trigger] translation(d)[k]) as int == 0x30
        + eastern_digit_value(d[k]) by {
        assert(translation(d)[k] == digit_to_ascii(d[k]));
        assert(eastern_digit(d[k]));
    }
}

proof fn lemma_no_newline_reaches_end(s: Seq<char>, i: int)
    requires
        0 <= i <= s.len(),
        forall|k: int| 0 <= k < s.len() ==> #[trigger] s[k] != '\n',
    ensures
        newline_at_or_after(s, i) == s.len(),
    decreases s.len() - i,
{
    if i < s.len() {
        lemma_no_newline_reaches_end(s, i + 1);
    }
}

/// Comments are preserved verbatim: a source that is one comment line
/// translates to itself, whatever it says.
pub proof fn law_comment_line_kept(s: Seq<char>)
    requires
        s.len() > 0,
        s[0] == '#',
        forall|k: int| 0 <= k < s.len() ==> #[trigger] s[k] != '\n',
    ensures
        translation(s) == s,
{
    lemma_no_newline_reaches_end(s, 0);
    assert(token_at(s, 0) == Token::Comment);
    assert(s.subrange(0, s.len() as int) =~= s);
    let st = initial_scan();
    let nx = next_state(s, st);
    assert(nx.index == s.len());
    assert(next_output(s, st) =~= s);
}

/// A literal whose text holds neither its quote nor a backslash closes at
/// the last character.
proof fn lemma_closing_at_end(s: Seq<char>, i: int, q: char)
    requires
        0 <= i < s.len(),
        s.last() == q,
        forall|k: int| i <= k < s.len() - 1 ==> #[trigger] s[k] != q && s[k] != '\\',
    ensures
        closing_quote_from(s, i, q, false) == s.len() - 1,
    decreases s.len() - i,
{
    if i < s.len() - 1 {
        lemma_closing_at_end(s, i + 1, q);
    }
}

/// Strings are preserved verbatim: a plain string literal, with no inner
/// quote of its kind and no backslash, translates to itself, whatever it
/// says.
pub proof fn law_plain_literal_kept(q: char, body: Seq<char>)
    requires
        q == '\'' || q == '"',
        forall|k: int| 0 <= k < body.len() ==> #[trigger] body[k] != q && body[k] != '\\',
    ensures
        translation(seq![q] + body + seq![q]) == seq![q] + body + seq![q],
{
    let s = seq![q] + body + seq![q];
    assert(s.len() == body.len() + 2);
    assert forall|k: int| 1 <= k < s.len() - 1 implies #[trigger] s[k] != q && s[k] != '\\' by {
        assert(s[k] == body[k - 1]);
    }
    assert(s[0] == q);
    assert(s.last() == q);
    assert(!opens_triple(s, 0)) by {
        if s.len() >= 3 {
            assert(s[1] == body[0]);
        }
    }
    lemma_closing_at_end(s, 1, q);
    assert(token_at(s, 0) == Token::Quoted);
    assert(!is_fstring_literal(s, 0));
    lemma_plain_kept(s, 1, s.len() - 1, is_raw_literal(s, 0));
    assert(quoted_text(s, 0) =~= s.subrange(0, 1) + s.subrange(1, s.len() - 1) + s.subrange(
        s.len() - 1,
        s.len() as int,
    ));
    assert(quoted_text(s, 0) =~= s);
    let st = initial_scan();
    assert(next_state(s, st).index == s.len());
    assert(next_output(s, st) =~= s);
}

proof fn lemma_plain_kept(s: Seq<char>, i: int, end: int, raw: bool)
    requires
        0 <= i <= end <= s.len(),
        forall|k: int| i <= k < end ==> (#[trigger] s[k]) != '\\',
    ensures
        plain_text(s, i, end, raw) == s.subrange(i, end),
    decreases end - i,
{
    if i < end {
        assert(escape_text(s, i, end, raw) =~= s.subrange(i, i + 1));
        lemma_plain_kept(s, i + 1, end, raw);
        assert(s.subrange(i, end) =~= s.subrange(i, i + 1) + s.subrange(i + 1, end));
    } else {
        assert(s.subrange(i, end) =~= seq![]);
    }
}

} // verus!
