//! Arabic shaping for a rendering engine without bidi or shaping support
//! (Tk on X11 draws characters left to right in codepoint order).
//!
//! `shape_arabic` turns logical-order Arabic letters into their contextual
//! presentation forms (isolated / initial / medial / final, plus the lam-alef
//! ligature). Reordering the result into visual order is left to fribidi.

use vstd::prelude::*;

use crate::text::string_push;

verus! {

/// ZERO WIDTH NON-JOINER.
pub const ZWNJ: u32 = 0x200C;

/// ZERO WIDTH JOINER.
pub const ZWJ: u32 = 0x200D;

/// ARABIC LETTER LAM.
pub const LAM: u32 = 0x0644;

/// Right-joining letters: (base, isolated, final). They never connect
/// forward, so only the isolated/final pair exists.
pub const RTL_JOIN: [(u32, u32, u32); 13] = [
    (0x0622, 0xFE81, 0xFE82),
    (0x0623, 0xFE83, 0xFE84),
    (0x0624, 0xFE85, 0xFE86),
    (0x0625, 0xFE87, 0xFE88),
    (0x0627, 0xFE8D, 0xFE8E),
    (0x0629, 0xFE93, 0xFE94),
    (0x062F, 0xFEA9, 0xFEAA),
    (0x0630, 0xFEAB, 0xFEAC),
    (0x0631, 0xFEAD, 0xFEAE),
    (0x0632, 0xFEAF, 0xFEB0),
    (0x0648, 0xFEED, 0xFEEE),
    (0x0649, 0xFEEF, 0xFEF0),
    (0x0671, 0xFB50, 0xFB51),
];

/// Dual-joining letters: (base, isolated, final, initial, medial).
pub const DUAL_JOIN: [(u32, u32, u32, u32, u32); 23] = [
    (0x0626, 0xFE89, 0xFE8A, 0xFE8B, 0xFE8C),
    (0x0628, 0xFE8F, 0xFE90, 0xFE91, 0xFE92),
    (0x062A, 0xFE95, 0xFE96, 0xFE97, 0xFE98),
    (0x062B, 0xFE99, 0xFE9A, 0xFE9B, 0xFE9C),
    (0x062C, 0xFE9D, 0xFE9E, 0xFE9F, 0xFEA0),
    (0x062D, 0xFEA1, 0xFEA2, 0xFEA3, 0xFEA4),
    (0x062E, 0xFEA5, 0xFEA6, 0xFEA7, 0xFEA8),
    (0x0633, 0xFEB1, 0xFEB2, 0xFEB3, 0xFEB4),
    (0x0634, 0xFEB5, 0xFEB6, 0xFEB7, 0xFEB8),
    (0x0635, 0xFEB9, 0xFEBA, 0xFEBB, 0xFEBC),
    (0x0636, 0xFEBD, 0xFEBE, 0xFEBF, 0xFEC0),
    (0x0637, 0xFEC1, 0xFEC2, 0xFEC3, 0xFEC4),
    (0x0638, 0xFEC5, 0xFEC6, 0xFEC7, 0xFEC8),
    (0x0639, 0xFEC9, 0xFECA, 0xFECB, 0xFECC),
    (0x063A, 0xFECD, 0xFECE, 0xFECF, 0xFED0),
    (0x0641, 0xFED1, 0xFED2, 0xFED3, 0xFED4),
    (0x0642, 0xFED5, 0xFED6, 0xFED7, 0xFED8),
    (0x0643, 0xFED9, 0xFEDA, 0xFEDB, 0xFEDC),
    (0x0644, 0xFEDD, 0xFEDE, 0xFEDF, 0xFEE0),
    (0x0645, 0xFEE1, 0xFEE2, 0xFEE3, 0xFEE4),
    (0x0646, 0xFEE5, 0xFEE6, 0xFEE7, 0xFEE8),
    (0x0647, 0xFEE9, 0xFEEA, 0xFEEB, 0xFEEC),
    (0x064A, 0xFEF1, 0xFEF2, 0xFEF3, 0xFEF4),
];

/// Alef variants that form a lam-alef ligature with a preceding ل.
pub const LAM_ALEF_ALEPS: [u32; 4] = [0x0622, 0x0623, 0x0625, 0x0627];

/// A codepoint of right-to-left text (Hebrew, Arabic and their presentation
/// forms, or a bidi control).
pub open spec fn is_rtl_codepoint(cp: u32) -> bool {
    (0x0591 <= cp && cp <= 0x08FF) || (0xFB1D <= cp && cp <= 0xFDFF) || (0xFE70 <= cp && cp
        <= 0xFEFE) || cp == 0x061C || (0x2066 <= cp && cp <= 0x2069) || (0x200E <= cp && cp
        <= 0x200F)
}

/// Some character of `s` is right-to-left.
pub open spec fn has_rtl(s: Seq<char>) -> bool {
    exists|i: int| 0 <= i < s.len() && is_rtl_codepoint(#[trigger] s[i] as u32)
}

/// A transparent mark: it does not take part in joining decisions.
pub open spec fn spec_is_transparent(c: u32) -> bool {
    (0x0610 <= c && c <= 0x061A) || (0x064B <= c && c <= 0x065F) || c == 0x0670 || (0x06D6 <= c
        && c <= 0x06ED) || (0x08D3 <= c && c <= 0x08FF)
}

/// The (isolated, final) forms of the first entry of `t` whose base is `c`.
pub open spec fn right_forms_in(t: Seq<(u32, u32, u32)>, c: u32) -> Option<(u32, u32)>
    decreases t.len(),
{
    if t.len() == 0 {
        None
    } else if t[0].0 == c {
        Some((t[0].1, t[0].2))
    } else {
        right_forms_in(t.drop_first(), c)
    }
}

/// The (isolated, final, initial, medial) forms of the first entry of `t`
/// whose base is `c`.
pub open spec fn dual_forms_in(t: Seq<(u32, u32, u32, u32, u32)>, c: u32) -> Option<
    (u32, u32, u32, u32),
>
    decreases t.len(),
{
    if t.len() == 0 {
        None
    } else if t[0].0 == c {
        Some((t[0].1, t[0].2, t[0].3, t[0].4))
    } else {
        dual_forms_in(t.drop_first(), c)
    }
}

/// The presentation forms of a right-joining letter.
pub open spec fn right_forms(c: u32) -> Option<(u32, u32)> {
    right_forms_in(RTL_JOIN@, c)
}

/// The presentation forms of a dual-joining letter.
pub open spec fn dual_forms(c: u32) -> Option<(u32, u32, u32, u32)> {
    dual_forms_in(DUAL_JOIN@, c)
}

/// 0 = not a joining letter, 1 = right-joining, 2 = dual-joining.
pub open spec fn spec_joining(c: u32) -> u8 {
    if right_forms(c) is Some {
        1
    } else if dual_forms(c) is Some {
        2
    } else {
        0
    }
}

/// The nearest non-transparent position before `i`.
pub open spec fn spec_nearest_left(s: Seq<u32>, i: int) -> Option<int>
    decreases i,
{
    if i <= 0 {
        None
    } else if !spec_is_transparent(s[i - 1]) {
        Some(i - 1)
    } else {
        spec_nearest_left(s, i - 1)
    }
}

/// The nearest non-transparent position after `i`.
pub open spec fn spec_nearest_right(s: Seq<u32>, i: int) -> Option<int>
    decreases s.len() - i,
{
    if i < -1 || i + 1 >= s.len() {
        None
    } else if !spec_is_transparent(s[i + 1]) {
        Some(i + 1)
    } else {
        spec_nearest_right(s, i + 1)
    }
}

/// The letter at `p` connects to its neighbour: a ZWJ or a joining letter.
pub open spec fn joins(s: Seq<u32>, p: Option<int>) -> bool {
    match p {
        None => false,
        Some(k) => s[k] == ZWJ || spec_joining(s[k]) != 0,
    }
}

/// The boundary between position `i` and the letter before it is joined.
pub open spec fn spec_left_join(s: Seq<u32>, i: int) -> bool {
    joins(s, spec_nearest_left(s, i))
}

/// The boundary between position `i` and the letter after it is joined.
pub open spec fn spec_right_join(s: Seq<u32>, i: int) -> bool {
    joins(s, spec_nearest_right(s, i))
}

/// `c` is an alef that forms a ligature with a preceding lam.
pub open spec fn is_ligature_alef(c: u32) -> bool {
    c == 0x0622 || c == 0x0623 || c == 0x0625 || c == 0x0627
}

/// A lam at `i` whose next non-transparent letter is an alef: they collapse
/// into one lam-alef ligature.
pub open spec fn lam_alef_at(s: Seq<u32>, i: int) -> bool {
    s[i] == LAM && match spec_nearest_right(s, i) {
        Some(j) => is_ligature_alef(s[j]),
        None => false,
    }
}

/// The presentation form written for the letter at `i` (not a ligature): a
/// joining letter takes the form that its joined sides call for, ZWNJ is
/// dropped, anything else is kept.
pub open spec fn letter_form(s: Seq<u32>, i: int) -> Seq<u32> {
    let c = s[i];
    let l = spec_left_join(s, i);
    let r = spec_right_join(s, i);
    if spec_joining(c) == 1 {
        let f = right_forms(c)->0;
        seq![
            if l {
                f.1
            } else {
                f.0
            },
        ]
    } else if spec_joining(c) == 2 {
        let f = dual_forms(c)->0;
        seq![
            if l && r {
                f.3
            } else if l {
                f.1
            } else if r {
                f.2
            } else {
                f.0
            },
        ]
    } else if c != ZWNJ {
        seq![c]
    } else {
        seq![]
    }
}

/// The shaping of `s[i..]`.
pub open spec fn shape_from(s: Seq<u32>, i: int) -> Seq<u32>
    decreases s.len() - i,
{
    if i < 0 || i >= s.len() {
        seq![]
    } else if lam_alef_at(s, i) {
        let j = spec_nearest_right(s, i)->0;
        proof {
            lemma_nearest_right_bounds(s, i);
        }
        seq![
            if spec_left_join(s, i) {
                0xFEFCu32
            } else {
                0xFEFBu32
            },
        ] + s.subrange(i + 1, j) + shape_from(s, j + 1)
    } else {
        letter_form(s, i) + shape_from(s, i + 1)
    }
}

/// The codepoints of `s`.
pub open spec fn codepoints_of(s: Seq<char>) -> Seq<u32> {
    s.map_values(|c: char| c as u32)
}

pub proof fn lemma_nearest_right_bounds(s: Seq<u32>, i: int)
    requires
        0 <= i < s.len(),
    ensures
        spec_nearest_right(s, i) matches Some(j) ==> i < j < s.len() && !spec_is_transparent(s[j])
            && forall|k: int| i < k < j ==> spec_is_transparent(#[trigger] s[k]),
    decreases s.len() - i,
{
    if i + 1 < s.len() && spec_is_transparent(s[i + 1]) {
        lemma_nearest_right_bounds(s, i + 1);
        if let Some(j) = spec_nearest_right(s, i + 1) {
            assert forall|k: int| i < k < j implies spec_is_transparent(#[trigger] s[k]) by {
                if k > i + 1 {
                    assert(spec_is_transparent(s[k]));
                }
            }
        }
    }
}

pub proof fn lemma_nearest_left_bounds(s: Seq<u32>, i: int)
    requires
        0 <= i <= s.len(),
    ensures
        spec_nearest_left(s, i) matches Some(p) ==> 0 <= p < i,
    decreases i,
{
    if i > 0 && spec_is_transparent(s[i - 1]) {
        lemma_nearest_left_bounds(s, i - 1);
    }
}

/// Return `true` if `s` holds right-to-left text.
pub fn contains_rtl(s: &str) -> (r: bool)
    ensures
        r == has_rtl(s@),
{
    for c in it: s.chars()
        invariant
            it.seq() == s@,
            forall|k: int| 0 <= k < it.index() ==> !is_rtl_codepoint(#[trigger] s@[k] as u32),
    {
        let cp = c as u32;
        if (0x0591 <= cp && cp <= 0x08FF) || (0xFB1D <= cp && cp <= 0xFDFF) || (0xFE70 <= cp
            && cp <= 0xFEFE) || cp == 0x061C || (0x2066 <= cp && cp <= 0x2069) || (0x200E <= cp
            && cp <= 0x200F) {
            assert(is_rtl_codepoint(s@[it.index() as int] as u32));
            return true;
        }
    }
    false
}

/// Transparent marks (do not participate in joining decisions).
pub fn is_transparent(c: u32) -> (r: bool)
    ensures
        r == spec_is_transparent(c),
{
    (0x0610 <= c && c <= 0x061A) || (0x064B <= c && c <= 0x065F) || c == 0x0670 || (0x06D6 <= c
        && c <= 0x06ED) || (0x08D3 <= c && c <= 0x08FF)
}

/// The (isolated, final) forms of a right-joining letter.
fn right_forms_of(c: u32) -> (r: Option<(u32, u32)>)
    ensures
        r == right_forms(c),
{
    let mut k: usize = 0;
    assert(RTL_JOIN@.skip(0) == RTL_JOIN@);
    while k < RTL_JOIN.len()
        invariant
            k <= RTL_JOIN@.len(),
            right_forms(c) == right_forms_in(RTL_JOIN@.skip(k as int), c),
        decreases RTL_JOIN.len() - k,
    {
        let (base, isolated, fin) = RTL_JOIN[k];
        assert(RTL_JOIN@.skip(k as int)[0] == RTL_JOIN@[k as int]);
        if base == c {
            return Some((isolated, fin));
        }
        assert(RTL_JOIN@.skip(k as int).drop_first() == RTL_JOIN@.skip(k + 1));
        k += 1;
    }
    None
}

/// The (isolated, final, initial, medial) forms of a dual-joining letter.
fn dual_forms_of(c: u32) -> (r: Option<(u32, u32, u32, u32)>)
    ensures
        r == dual_forms(c),
{
    let mut k: usize = 0;
    assert(DUAL_JOIN@.skip(0) == DUAL_JOIN@);
    while k < DUAL_JOIN.len()
        invariant
            k <= DUAL_JOIN@.len(),
            dual_forms(c) == dual_forms_in(DUAL_JOIN@.skip(k as int), c),
        decreases DUAL_JOIN.len() - k,
    {
        let (base, isolated, fin, initial, medial) = DUAL_JOIN[k];
        assert(DUAL_JOIN@.skip(k as int)[0] == DUAL_JOIN@[k as int]);
        if base == c {
            return Some((isolated, fin, initial, medial));
        }
        assert(DUAL_JOIN@.skip(k as int).drop_first() == DUAL_JOIN@.skip(k + 1));
        k += 1;
    }
    None
}

/// 0 = not a joining letter, 1 = right-joining, 2 = dual-joining.
pub fn joining(c: u32) -> (r: u8)
    ensures
        r == spec_joining(c),
{
    if right_forms_of(c).is_some() {
        1
    } else if dual_forms_of(c).is_some() {
        2
    } else {
        0
    }
}

/// The nearest non-transparent position before `i`.
pub fn nearest_left(chars: &Vec<u32>, i: usize) -> (r: Option<usize>)
    requires
        i <= chars@.len(),
    ensures
        match r {
            Some(p) => spec_nearest_left(chars@, i as int) == Some(p as int),
            None => spec_nearest_left(chars@, i as int) is None,
        },
{
    let mut k = i;
    while k > 0
        invariant
            k <= i <= chars@.len(),
            spec_nearest_left(chars@, i as int) == spec_nearest_left(chars@, k as int),
        decreases k,
    {
        if !is_transparent(chars[k - 1]) {
            return Some(k - 1);
        }
        k -= 1;
    }
    None
}

/// The nearest non-transparent position after `i`.
pub fn nearest_right(chars: &Vec<u32>, i: usize) -> (r: Option<usize>)
    requires
        i < chars@.len(),
    ensures
        match r {
            Some(n) => spec_nearest_right(chars@, i as int) == Some(n as int),
            None => spec_nearest_right(chars@, i as int) is None,
        },
{
    let mut k = i;
    while chars.len() - k > 1
        invariant
            i <= k < chars@.len(),
            spec_nearest_right(chars@, i as int) == spec_nearest_right(chars@, k as int),
        decreases chars.len() - k,
    {
        if !is_transparent(chars[k + 1]) {
            return Some(k + 1);
        }
        k += 1;
    }
    None
}

/// Whether the boundary between `chars` positions `i-1`/`i` is joined.
pub fn left_join(chars: &Vec<u32>, i: usize) -> (r: bool)
    requires
        i <= chars@.len(),
    ensures
        r == spec_left_join(chars@, i as int),
{
    proof {
        lemma_nearest_left_bounds(chars@, i as int);
    }
    match nearest_left(chars, i) {
        None => false,
        Some(p) => chars[p] == ZWJ || joining(chars[p]) != 0,
    }
}

/// Whether the boundary between `chars` positions `i`/`i+1` is joined.
pub fn right_join(chars: &Vec<u32>, i: usize) -> (r: bool)
    requires
        i < chars@.len(),
    ensures
        r == spec_right_join(chars@, i as int),
{
    proof {
        lemma_nearest_right_bounds(chars@, i as int);
    }
    match nearest_right(chars, i) {
        None => false,
        Some(n) => chars[n] == ZWJ || joining(chars[n]) != 0,
    }
}

/// Shape a logical-order Arabic string into presentation forms, returning a
/// (possibly shorter) string of visual-ready codepoints.
pub fn shape_arabic(chars: &Vec<u32>) -> (out: Vec<u32>)
    ensures
        out@ == shape_from(chars@, 0),
{
    let n = chars.len();
    let mut out: Vec<u32> = Vec::new();
    let mut i: usize = 0;
    while i < n
        invariant
            i <= n == chars@.len(),
            shape_from(chars@, 0) == out@ + shape_from(chars@, i as int),
        decreases n - i,
    {
        let ghost before = out@;
        let ghost at = i as int;
        let c = chars[i];
        proof {
            lemma_nearest_right_bounds(chars@, i as int);
        }
        // Lam-alef ligature: ل followed by an alef variant collapses into
        // FEFB (isolated) / FEFC (final).
        let mut ligature = false;
        if c == LAM {
            if let Some(j) = nearest_right(chars, i) {
                let a = chars[j];
                if a == 0x0622 || a == 0x0623 || a == 0x0625 || a == 0x0627 {
                    out.push(
                        if left_join(chars, i) {
                            0xFEFC
                        } else {
                            0xFEFB
                        },
                    );
                    let mut m = i + 1;
                    while m < j
                        invariant
                            0 <= at < m <= j < n,
                            n == chars@.len(),
                            out@ == before.push(
                                if spec_left_join(chars@, at) {
                                    0xFEFCu32
                                } else {
                                    0xFEFBu32
                                },
                            ) + chars@.subrange(at + 1, m as int),
                        decreases j - m,
                    {
                        out.push(chars[m]);
                        assert(chars@.subrange(at + 1, m + 1) == chars@.subrange(at + 1, m as int).push(
                            chars@[m as int],
                        ));
                        m += 1;
                    }
                    i = j + 1;
                    ligature = true;
                }
            }
        }
        if !ligature {
            match joining(c) {
                1 => {
                    let forms = right_forms_of(c).unwrap();
                    out.push(
                        if left_join(chars, i) {
                            forms.1
                        } else {
                            forms.0
                        },
                    );
                },
                2 => {
                    let forms = dual_forms_of(c).unwrap();
                    let l = left_join(chars, i);
                    let r = right_join(chars, i);
                    out.push(
                        if l && r {
                            forms.3
                        } else if l {
                            forms.1
                        } else if r {
                            forms.2
                        } else {
                            forms.0
                        },
                    );
                },
                _ => {
                    // Hamza and other non-joining characters stay as-is.
                    if c != ZWNJ {
                        out.push(c);
                    }
                },
            }
            i += 1;
            assert(out@ == before + letter_form(chars@, at));
        }
    }
    out
}

/// The codepoints of `s`, in order.
pub fn codepoints(s: &str) -> (v: Vec<u32>)
    ensures
        v@ == codepoints_of(s@),
{
    let mut v: Vec<u32> = Vec::new();
    for c in it: s.chars()
        invariant
            it.seq() == s@,
            v@ == codepoints_of(s@.take(it.index() as int)),
    {
        v.push(c as u32);
        assert(s@.take(it.index() + 1) == s@.take(it.index() as int).push(c));
    }
    assert(s@.take(s@.len() as int) == s@);
    v
}

/// The shaped codepoints of `s` for a bidi-less rendering engine, still in
/// logical order; `None` when `s` has no right-to-left content.
pub fn shaped_codepoints(s: &str) -> (r: Option<Vec<u32>>)
    ensures
        r is None <==> !has_rtl(s@),
        r matches Some(v) ==> v@ == shape_from(codepoints_of(s@), 0),
{
    if !contains_rtl(s) {
        return None;
    }
    let cps = codepoints(s);
    Some(shape_arabic(&cps))
}

/// Calls `char::from_u32`, which gives the character with that codepoint,
/// or `None` for a surrogate or a value above U+10FFFF.
#[verifier::external_body]
fn char_from_u32(v: u32) -> (r: Option<char>)
    ensures
        r is Some <==> is_scalar_value(v),
        r matches Some(c) ==> c as u32 == v,
{
    char::from_u32(v)
}

/// A Unicode scalar value: not a surrogate, not above U+10FFFF.
pub open spec fn is_scalar_value(v: u32) -> bool {
    v <= 0x10FFFF && !(0xD800 <= v && v <= 0xDFFF)
}

/// The Unicode scalar values of `v`, in order.
pub open spec fn scalar_values(v: Seq<u32>) -> Seq<u32>
    decreases v.len(),
{
    if v.len() == 0 {
        seq![]
    } else {
        let rest = scalar_values(v.drop_last());
        if is_scalar_value(v.last()) {
            rest.push(v.last())
        } else {
            rest
        }
    }
}

/// The string of the codepoints of `v` that are characters (the others are
/// skipped).
pub fn visible_text(v: &Vec<u32>) -> (s: String)
    ensures
        codepoints_of(s@) == scalar_values(v@),
{
    let mut s = String::new();
    let mut i: usize = 0;
    while i < v.len()
        invariant
            i <= v@.len(),
            codepoints_of(s@) == scalar_values(v@.take(i as int)),
        decreases v.len() - i,
    {
        assert(v@.take(i + 1).drop_last() == v@.take(i as int));
        assert(v@.take(i + 1).last() == v@[i as int]);
        if let Some(c) = char_from_u32(v[i]) {
            let ghost prev = s@;
            string_push(&mut s, c);
            assert(codepoints_of(s@) == codepoints_of(prev).push(c as u32));
        }
        i += 1;
    }
    assert(v@.take(v@.len() as int) == v@);
    s
}

proof fn lemma_dual_forms_found(t: Seq<(u32, u32, u32, u32, u32)>, k: int, c: u32)
    requires
        0 <= k < t.len(),
        t[k].0 == c,
    ensures
        dual_forms_in(t, c) is Some,
    decreases k,
{
    if t[0].0 != c {
        assert(t.drop_first()[k - 1] == t[k]);
        lemma_dual_forms_found(t.drop_first(), k - 1, c);
    }
}

/// Lam is a joining letter (dual-joining).
proof fn lemma_lam_joins()
    ensures
        spec_joining(LAM) != 0,
{
    assert(DUAL_JOIN@[18].0 == LAM);
    lemma_dual_forms_found(DUAL_JOIN@, 18, LAM);
}

proof fn lemma_shape_len(s: Seq<u32>, i: int)
    requires
        0 <= i <= s.len(),
    ensures
        shape_from(s, i).len() <= s.len() - i,
    decreases s.len() - i,
{
    if i < s.len() {
        lemma_nearest_right_bounds(s, i);
        if lam_alef_at(s, i) {
            let j = spec_nearest_right(s, i)->0;
            lemma_shape_len(s, j + 1);
        } else {
            lemma_shape_len(s, i + 1);
        }
    }
}

/// Shaping never lengthens text: a ligature takes the place of two letters
/// and a ZWNJ is dropped, every other codepoint gives exactly one.
pub proof fn law_shaping_never_lengthens(s: Seq<u32>)
    ensures
        shape_from(s, 0).len() <= s.len(),
{
    lemma_shape_len(s, 0);
}

proof fn lemma_non_joining_from(s: Seq<u32>, i: int)
    requires
        0 <= i <= s.len(),
        forall|k: int| 0 <= k < s.len() ==> spec_joining(#[trigger] s[k]) == 0 && s[k] != ZWNJ,
    ensures
        shape_from(s, i) == s.subrange(i, s.len() as int),
    decreases s.len() - i,
{
    if i < s.len() {
        lemma_lam_joins();
        assert(!lam_alef_at(s, i));
        assert(letter_form(s, i) =~= seq![s[i]]);
        lemma_non_joining_from(s, i + 1);
        assert(s.subrange(i, s.len() as int) =~= seq![s[i]] + s.subrange(i + 1, s.len() as int));
    } else {
        assert(s.subrange(i, s.len() as int) =~= seq![]);
    }
}

/// Text without Arabic joining letters (and without ZWNJ), such as Latin or
/// Hebrew text, comes out of shaping unchanged.
pub proof fn law_non_joining_text_unchanged(s: Seq<u32>)
    requires
        forall|k: int| 0 <= k < s.len() ==> spec_joining(#[trigger] s[k]) == 0 && s[k] != ZWNJ,
    ensures
        shape_from(s, 0) == s,
{
    lemma_non_joining_from(s, 0);
    assert(s.subrange(0, s.len() as int) =~= s);
}

/// The positions `k` in `i..n` that satisfy `p`, counted.
pub open spec fn count_from(i: int, n: int, p: spec_fn(int) -> bool) -> nat
    decreases n - i,
{
    if i >= n {
        0
    } else {
        (if p(i) {
            1nat
        } else {
            0nat
        }) + count_from(i + 1, n, p)
    }
}

/// The positions of `s` that hold a ZWNJ.
pub open spec fn zwnj_at(s: Seq<u32>) -> spec_fn(int) -> bool {
    |k: int| s[k] == ZWNJ
}

/// The positions of `s` where a lam forms a lam-alef ligature.
pub open spec fn ligature_at(s: Seq<u32>) -> spec_fn(int) -> bool {
    |k: int| lam_alef_at(s, k)
}

/// Positions that do not satisfy `p` add nothing to the count.
proof fn lemma_count_skip(i: int, j: int, n: int, p: spec_fn(int) -> bool)
    requires
        i <= j <= n,
        forall|k: int| i <= k < j ==> !#[trigger] p(k),
    ensures
        count_from(i, n, p) == count_from(j, n, p),
    decreases j - i,
{
    if i < j {
        lemma_count_skip(i + 1, j, n, p);
    }
}

/// No base letter of the joining tables is ZWNJ: ZWNJ does not join.
proof fn lemma_zwnj_not_joining()
    ensures
        spec_joining(ZWNJ) == 0,
{
    assert forall|k: int| 0 <= k < RTL_JOIN@.len() implies (#[trigger] RTL_JOIN@[k]).0 < 0x0700 by {
        if k == 0 {
        } else if k == 1 {
        } else if k == 2 {
        } else if k == 3 {
        } else if k == 4 {
        } else if k == 5 {
        } else if k == 6 {
        } else if k == 7 {
        } else if k == 8 {
        } else if k == 9 {
        } else if k == 10 {
        } else if k == 11 {
        } else if k == 12 {
        }
    }
    assert forall|k: int| 0 <= k < DUAL_JOIN@.len() implies (#[trigger] DUAL_JOIN@[k]).0 < 0x0700 by {
        if k == 0 {
        } else if k == 1 {
        } else if k == 2 {
        } else if k == 3 {
        } else if k == 4 {
        } else if k == 5 {
        } else if k == 6 {
        } else if k == 7 {
        } else if k == 8 {
        } else if k == 9 {
        } else if k == 10 {
        } else if k == 11 {
        } else if k == 12 {
        } else if k == 13 {
        } else if k == 14 {
        } else if k == 15 {
        } else if k == 16 {
        } else if k == 17 {
        } else if k == 18 {
        } else if k == 19 {
        } else if k == 20 {
        } else if k == 21 {
        } else if k == 22 {
        }
    }
    lemma_right_forms_absent(RTL_JOIN@, ZWNJ);
    lemma_dual_forms_absent(DUAL_JOIN@, ZWNJ);
}

proof fn lemma_right_forms_absent(t: Seq<(u32, u32, u32)>, c: u32)
    requires
        forall|k: int| 0 <= k < t.len() ==> (#[trigger] t[k]).0 < 0x0700,
        c >= 0x0700,
    ensures
        right_forms_in(t, c) is None,
    decreases t.len(),
{
    if t.len() > 0 {
        assert(t[0].0 < 0x0700);
        assert forall|k: int| 0 <= k < t.drop_first().len() implies (
        #[trigger] t.drop_first()[k]).0 < 0x0700 by {
            assert(t.drop_first()[k] == t[k + 1]);
        }
        lemma_right_forms_absent(t.drop_first(), c);
    }
}

proof fn lemma_dual_forms_absent(t: Seq<(u32, u32, u32, u32, u32)>, c: u32)
    requires
        forall|k: int| 0 <= k < t.len() ==> (#[trigger] t[k]).0 < 0x0700,
        c >= 0x0700,
    ensures
        dual_forms_in(t, c) is None,
    decreases t.len(),
{
    if t.len() > 0 {
        assert(t[0].0 < 0x0700);
        assert forall|k: int| 0 <= k < t.drop_first().len() implies (
        #[trigger] t.drop_first()[k]).0 < 0x0700 by {
            assert(t.drop_first()[k] == t[k + 1]);
        }
        lemma_dual_forms_absent(t.drop_first(), c);
    }
}

proof fn lemma_shape_len_exact(s: Seq<u32>, i: int)
    requires
        0 <= i <= s.len(),
    ensures
        shape_from(s, i).len() + count_from(i, s.len() as int, zwnj_at(s)) + count_from(
            i,
            s.len() as int,
            ligature_at(s),
        ) == s.len() - i,
    decreases s.len() - i,
{
    let n = s.len() as int;
    if i < n {
        lemma_nearest_right_bounds(s, i);
        if lam_alef_at(s, i) {
            let j = spec_nearest_right(s, i)->0;
            lemma_shape_len_exact(s, j + 1);
            assert forall|k: int| i + 1 <= k < j + 1 implies !(#[trigger] zwnj_at(s)(k)) by {
                if k < j {
                    assert(spec_is_transparent(s[k]));
                }
            }
            assert forall|k: int| i + 1 <= k < j + 1 implies !(#[trigger] ligature_at(s)(k)) by {
                if k < j {
                    assert(spec_is_transparent(s[k]));
                }
            }
            lemma_count_skip(i + 1, j + 1, n, zwnj_at(s));
            lemma_count_skip(i + 1, j + 1, n, ligature_at(s));
            assert(zwnj_at(s)(i) == (s[i] == ZWNJ));
            assert(ligature_at(s)(i));
        } else {
            lemma_shape_len_exact(s, i + 1);
            lemma_zwnj_not_joining();
            assert(zwnj_at(s)(i) == (s[i] == ZWNJ));
            assert(!ligature_at(s)(i));
            assert(letter_form(s, i).len() == if s[i] == ZWNJ {
                0int
            } else {
                1int
            });
        }
    }
}

/// How long shaped text is: one codepoint for each of the source's, less
/// one for each ZWNJ (dropped) and one for each lam-alef ligature (two
/// letters written as one).
pub proof fn law_shaped_length(s: Seq<u32>)
    ensures
        shape_from(s, 0).len() == s.len() - count_from(0, s.len() as int, zwnj_at(s))
            - count_from(0, s.len() as int, ligature_at(s)),
{
    lemma_shape_len_exact(s, 0);
}

/// A value that is not ZWNJ.
pub open spec fn shows(v: u32) -> bool {
    v != ZWNJ
}

/// A codepoint of the Arabic presentation-form blocks: Forms-A (U+FB50 to
/// U+FDFF) or Forms-B (U+FE70 to U+FEFE).
pub open spec fn presentation_form(v: u32) -> bool {
    (0xFB50 <= v && v <= 0xFDFF) || (0xFE70 <= v && v <= 0xFEFE)
}

proof fn lemma_right_forms_present(t: Seq<(u32, u32, u32)>, c: u32)
    requires
        forall|k: int| 0 <= k < t.len() ==> presentation_form(#[trigger] t[k].1) && presentation_form(t[k].2),
    ensures
        right_forms_in(t, c) matches Some(f) ==> presentation_form(f.0) && presentation_form(f.1),
    decreases t.len(),
{
    if t.len() > 0 && t[0].0 != c {
        assert forall|k: int| 0 <= k < t.drop_first().len() implies presentation_form(
            #[trigger] t.drop_first()[k].1,
        ) && presentation_form(t.drop_first()[k].2) by {
            assert(t.drop_first()[k] == t[k + 1]);
        }
        lemma_right_forms_present(t.drop_first(), c);
    }
}

proof fn lemma_dual_forms_present(t: Seq<(u32, u32, u32, u32, u32)>, c: u32)
    requires
        forall|k: int|
            0 <= k < t.len() ==> presentation_form(#[trigger] t[k].1) && presentation_form(t[k].2) && presentation_form(t[k].3)
                && presentation_form(t[k].4),
    ensures
        dual_forms_in(t, c) matches Some(f) ==> presentation_form(f.0) && presentation_form(f.1) && presentation_form(f.2) && presentation_form(
            f.3,
        ),
    decreases t.len(),
{
    if t.len() > 0 && t[0].0 != c {
        assert forall|k: int| 0 <= k < t.drop_first().len() implies presentation_form(
            #[trigger] t.drop_first()[k].1,
        ) && presentation_form(t.drop_first()[k].2) && presentation_form(t.drop_first()[k].3) && presentation_form(
            t.drop_first()[k].4,
        ) by {
            assert(t.drop_first()[k] == t[k + 1]);
        }
        lemma_dual_forms_present(t.drop_first(), c);
    }
}

/// Every form of the joining tables lies in the presentation-form blocks.
proof fn lemma_forms_present(c: u32)
    ensures
        right_forms(c) matches Some(f) ==> presentation_form(f.0) && presentation_form(f.1),
        dual_forms(c) matches Some(f) ==> presentation_form(f.0) && presentation_form(f.1)
            && presentation_form(f.2) && presentation_form(f.3),
        forall|k: int|
            0 <= k < RTL_JOIN@.len() ==> presentation_form(#[trigger] RTL_JOIN@[k].1)
                && presentation_form(RTL_JOIN@[k].2),
        forall|k: int|
            0 <= k < DUAL_JOIN@.len() ==> presentation_form(#[trigger] DUAL_JOIN@[k].1)
                && presentation_form(DUAL_JOIN@[k].2) && presentation_form(DUAL_JOIN@[k].3)
                && presentation_form(DUAL_JOIN@[k].4),
{
    assert forall|k: int| 0 <= k < RTL_JOIN@.len() implies presentation_form(#[trigger] RTL_JOIN@[k].1) && presentation_form(RTL_JOIN@[k].2) by {
        if k == 0 {
        } else if k == 1 {
        } else if k == 2 {
        } else if k == 3 {
        } else if k == 4 {
        } else if k == 5 {
        } else if k == 6 {
        } else if k == 7 {
        } else if k == 8 {
        } else if k == 9 {
        } else if k == 10 {
        } else if k == 11 {
        } else if k == 12 {
        }
    }
    assert forall|k: int| 0 <= k < DUAL_JOIN@.len() implies presentation_form(#[trigger] DUAL_JOIN@[k].1) && presentation_form(DUAL_JOIN@[k].2) && presentation_form(
        DUAL_JOIN@[k].3,
    ) && presentation_form(DUAL_JOIN@[k].4) by {
        if k == 0 {
        } else if k == 1 {
        } else if k == 2 {
        } else if k == 3 {
        } else if k == 4 {
        } else if k == 5 {
        } else if k == 6 {
        } else if k == 7 {
        } else if k == 8 {
        } else if k == 9 {
        } else if k == 10 {
        } else if k == 11 {
        } else if k == 12 {
        } else if k == 13 {
        } else if k == 14 {
        } else if k == 15 {
        } else if k == 16 {
        } else if k == 17 {
        } else if k == 18 {
        } else if k == 19 {
        } else if k == 20 {
        } else if k == 21 {
        } else if k == 22 {
        }
    }
    lemma_right_forms_present(RTL_JOIN@, c);
    lemma_dual_forms_present(DUAL_JOIN@, c);
}

proof fn lemma_shape_shows(s: Seq<u32>, i: int)
    requires
        0 <= i <= s.len(),
    ensures
        forall|k: int| 0 <= k < shape_from(s, i).len() ==> shows(#[trigger] shape_from(s, i)[k]),
    decreases s.len() - i,
{
    if i < s.len() {
        lemma_nearest_right_bounds(s, i);
        let out = shape_from(s, i);
        if lam_alef_at(s, i) {
            let j = spec_nearest_right(s, i)->0;
            lemma_shape_shows(s, j + 1);
            let head = seq![
                if spec_left_join(s, i) {
                    0xFEFCu32
                } else {
                    0xFEFBu32
                },
            ] + s.subrange(i + 1, j);
            assert forall|k: int| 0 <= k < head.len() implies shows(#[trigger] head[k]) by {
                if k > 0 {
                    assert(head[k] == s[i + k]);
                    assert(spec_is_transparent(s[i + k]));
                }
            }
            assert forall|k: int| 0 <= k < out.len() implies shows(#[trigger] out[k]) by {
                if k < head.len() {
                    assert(out[k] == head[k]);
                } else {
                    assert(out[k] == shape_from(s, j + 1)[k - head.len()]);
                }
            }
        } else {
            lemma_shape_shows(s, i + 1);
            lemma_forms_present(s[i]);
            let head = letter_form(s, i);
            assert forall|k: int| 0 <= k < out.len() implies shows(#[trigger] out[k]) by {
                if k < head.len() {
                    assert(out[k] == head[k]);
                } else {
                    assert(out[k] == shape_from(s, i + 1)[k - head.len()]);
                }
            }
        }
    }
}

/// ZWNJ only steers joining: it never reaches the shaped text.
pub proof fn law_zwnj_never_shown(s: Seq<u32>)
    ensures
        forall|k: int| 0 <= k < shape_from(s, 0).len() ==> #[trigger] shape_from(s, 0)[k] != ZWNJ,
{
    lemma_shape_shows(s, 0);
}

/// Joining letters are written as Arabic presentation forms: every form in
/// the joining tables lies in the presentation-form blocks, a lam-alef pair
/// is written as its ligature, and any other joining letter as one form
/// taken from its own row.
pub proof fn law_joining_letters_take_presentation_forms(s: Seq<u32>, i: int)
    requires
        0 <= i < s.len(),
        spec_joining(s[i]) != 0,
    ensures
        forall|k: int|
            0 <= k < RTL_JOIN@.len() ==> presentation_form(#[trigger] RTL_JOIN@[k].1)
                && presentation_form(RTL_JOIN@[k].2),
        forall|k: int|
            0 <= k < DUAL_JOIN@.len() ==> presentation_form(#[trigger] DUAL_JOIN@[k].1)
                && presentation_form(DUAL_JOIN@[k].2) && presentation_form(DUAL_JOIN@[k].3)
                && presentation_form(DUAL_JOIN@[k].4),
        shape_from(s, i).len() > 0,
        presentation_form(shape_from(s, i)[0]),
        !lam_alef_at(s, i) ==> letter_form(s, i).len() == 1 && shape_from(s, i)[0] == letter_form(
            s,
            i,
        )[0],
{
    lemma_forms_present(s[i]);
    lemma_nearest_right_bounds(s, i);
}

/// An Arabic combining mark that the shaper treats as transparent: U+0610
/// to U+061A, U+064B to U+065F, U+0670, U+06D6 to U+06ED, U+08D3 to U+08FF.
pub open spec fn combining_mark(c: u32) -> bool {
    (0x0610 <= c && c <= 0x061A) || (0x064B <= c && c <= 0x065F) || c == 0x0670 || (0x06D6 <= c
        && c <= 0x06ED) || (0x08D3 <= c && c <= 0x08FF)
}

/// Where a position of `a + b` lands once a mark is put between them.
pub open spec fn past_mark(k: int, x: int) -> int {
    if x < k {
        x
    } else {
        x + 1
    }
}

/// A position found in `a + b`, moved past the mark.
pub open spec fn past_mark_opt(k: int, o: Option<int>) -> Option<int> {
    match o {
        Some(x) => Some(past_mark(k, x)),
        None => None,
    }
}

proof fn lemma_right_forms_entry(t: Seq<(u32, u32, u32)>, c: u32) -> (k: int)
    requires
        right_forms_in(t, c) is Some,
    ensures
        0 <= k < t.len(),
        t[k].0 == c,
    decreases t.len(),
{
    if t[0].0 == c {
        0
    } else {
        let k = lemma_right_forms_entry(t.drop_first(), c);
        assert(t.drop_first()[k] == t[k + 1]);
        k + 1
    }
}

proof fn lemma_dual_forms_entry(t: Seq<(u32, u32, u32, u32, u32)>, c: u32) -> (k: int)
    requires
        dual_forms_in(t, c) is Some,
    ensures
        0 <= k < t.len(),
        t[k].0 == c,
    decreases t.len(),
{
    if t[0].0 == c {
        0
    } else {
        let k = lemma_dual_forms_entry(t.drop_first(), c);
        assert(t.drop_first()[k] == t[k + 1]);
        k + 1
    }
}

/// A transparent mark is no joining letter: every base of the joining
/// tables is a letter (U+0622 to U+064A, or U+0671).
proof fn lemma_mark_not_joining(m: u32)
    requires
        spec_is_transparent(m),
    ensures
        spec_joining(m) == 0,
        m != LAM,
        m != ZWNJ,
{
    assert forall|k: int| 0 <= k < RTL_JOIN@.len() implies !spec_is_transparent(
        (#[trigger] RTL_JOIN@[k]).0,
    ) by {
        if k == 0 {
        } else if k == 1 {
        } else if k == 2 {
        } else if k == 3 {
        } else if k == 4 {
        } else if k == 5 {
        } else if k == 6 {
        } else if k == 7 {
        } else if k == 8 {
        } else if k == 9 {
        } else if k == 10 {
        } else if k == 11 {
        } else if k == 12 {
        }
    }
    assert forall|k: int| 0 <= k < DUAL_JOIN@.len() implies !spec_is_transparent(
        (#[trigger] DUAL_JOIN@[k]).0,
    ) by {
        if k == 0 {
        } else if k == 1 {
        } else if k == 2 {
        } else if k == 3 {
        } else if k == 4 {
        } else if k == 5 {
        } else if k == 6 {
        } else if k == 7 {
        } else if k == 8 {
        } else if k == 9 {
        } else if k == 10 {
        } else if k == 11 {
        } else if k == 12 {
        } else if k == 13 {
        } else if k == 14 {
        } else if k == 15 {
        } else if k == 16 {
        } else if k == 17 {
        } else if k == 18 {
        } else if k == 19 {
        } else if k == 20 {
        } else if k == 21 {
        } else if k == 22 {
        }
    }
    if right_forms(m) is Some {
        let k = lemma_right_forms_entry(RTL_JOIN@, m);
        assert(!spec_is_transparent(RTL_JOIN@[k].0));
    }
    if dual_forms(m) is Some {
        let k = lemma_dual_forms_entry(DUAL_JOIN@, m);
        assert(!spec_is_transparent(DUAL_JOIN@[k].0));
    }
}

/// Left of the mark, nothing changes.
proof fn lemma_left_before_mark(t: Seq<u32>, t2: Seq<u32>, k: int, p: int)
    requires
        0 <= k <= t.len(),
        t2.len() == t.len() + 1,
        forall|x: int| 0 <= x < k ==> #[trigger] t2[x] == t[x],
        0 <= p <= k,
    ensures
        spec_nearest_left(t2, p) == spec_nearest_left(t, p),
    decreases p,
{
    if p > 0 {
        assert(t2[p - 1] == t[p - 1]);
        lemma_left_before_mark(t, t2, k, p - 1);
    }
}

/// Looking left from past the mark skips it.
proof fn lemma_left_after_mark(t: Seq<u32>, t2: Seq<u32>, k: int, p: int)
    requires
        0 <= k <= t.len(),
        t2.len() == t.len() + 1,
        forall|x: int| 0 <= x < k ==> #[trigger] t2[x] == t[x],
        spec_is_transparent(t2[k]),
        forall|x: int| k <= x < t.len() ==> t2[x + 1] == #[trigger] t[x],
        k <= p <= t.len(),
    ensures
        spec_nearest_left(t2, p + 1) == past_mark_opt(k, spec_nearest_left(t, p)),
    decreases p,
{
    if p == k {
        lemma_left_before_mark(t, t2, k, k);
        lemma_nearest_left_bounds(t, k);
    } else {
        assert(t2[p] == t[p - 1]);
        lemma_left_after_mark(t, t2, k, p - 1);
    }
}

/// Looking right from past the mark sees what `a + b` shows, moved by one.
proof fn lemma_right_after_mark(t: Seq<u32>, t2: Seq<u32>, k: int, p: int)
    requires
        0 <= k <= t.len(),
        t2.len() == t.len() + 1,
        forall|x: int| k <= x < t.len() ==> t2[x + 1] == #[trigger] t[x],
        k - 1 <= p <= t.len(),
    ensures
        spec_nearest_right(t2, p + 1) == past_mark_opt(k, spec_nearest_right(t, p)),
        spec_nearest_right(t, p) matches Some(j) ==> j >= k,
    decreases t.len() - p,
{
    if p + 1 < t.len() && p >= -1 {
        assert(t2[p + 2] == t[p + 1]);
        if spec_is_transparent(t[p + 1]) {
            lemma_right_after_mark(t, t2, k, p + 1);
        }
    }
}

/// Looking right from before the mark skips it.
proof fn lemma_right_before_mark(t: Seq<u32>, t2: Seq<u32>, k: int, p: int)
    requires
        0 <= k <= t.len(),
        t2.len() == t.len() + 1,
        forall|x: int| 0 <= x < k ==> #[trigger] t2[x] == t[x],
        spec_is_transparent(t2[k]),
        forall|x: int| k <= x < t.len() ==> t2[x + 1] == #[trigger] t[x],
        0 <= p < k,
    ensures
        spec_nearest_right(t2, p) == past_mark_opt(k, spec_nearest_right(t, p)),
    decreases k - p,
{
    if p + 1 < k {
        assert(t2[p + 1] == t[p + 1]);
        if spec_is_transparent(t[p + 1]) {
            lemma_right_before_mark(t, t2, k, p + 1);
        }
    } else {
        lemma_right_after_mark(t, t2, k, k - 1);
    }
}

/// Every letter of `a + b` has the same neighbours once the mark is in.
proof fn lemma_neighbours_kept(t: Seq<u32>, t2: Seq<u32>, k: int, p: int)
    requires
        0 <= k <= t.len(),
        t2.len() == t.len() + 1,
        forall|x: int| 0 <= x < k ==> #[trigger] t2[x] == t[x],
        spec_is_transparent(t2[k]),
        forall|x: int| k <= x < t.len() ==> t2[x + 1] == #[trigger] t[x],
        0 <= p < t.len(),
    ensures
        t2[past_mark(k, p)] == t[p],
        spec_nearest_left(t2, past_mark(k, p)) == past_mark_opt(k, spec_nearest_left(t, p)),
        spec_nearest_right(t2, past_mark(k, p)) == past_mark_opt(k, spec_nearest_right(t, p)),
        spec_left_join(t2, past_mark(k, p)) == spec_left_join(t, p),
        spec_right_join(t2, past_mark(k, p)) == spec_right_join(t, p),
        lam_alef_at(t2, past_mark(k, p)) == lam_alef_at(t, p),
        letter_form(t2, past_mark(k, p)) == letter_form(t, p),
{
    lemma_nearest_left_bounds(t, p);
    lemma_nearest_right_bounds(t, p);
    if p < k {
        lemma_left_before_mark(t, t2, k, p);
        lemma_right_before_mark(t, t2, k, p);
    } else {
        lemma_left_after_mark(t, t2, k, p);
        lemma_right_after_mark(t, t2, k, p);
    }
    if let Some(x) = spec_nearest_left(t, p) {
        assert(t2[past_mark(k, x)] == t[x]);
    }
    if let Some(x) = spec_nearest_right(t, p) {
        assert(t2[past_mark(k, x)] == t[x]);
    }
}

/// Past the mark, the shaping is that of `a + b`.
proof fn lemma_shape_after_mark(t: Seq<u32>, t2: Seq<u32>, k: int, i: int)
    requires
        0 <= k <= t.len(),
        t2.len() == t.len() + 1,
        forall|x: int| 0 <= x < k ==> #[trigger] t2[x] == t[x],
        spec_is_transparent(t2[k]),
        forall|x: int| k <= x < t.len() ==> t2[x + 1] == #[trigger] t[x],
        k <= i <= t.len(),
    ensures
        shape_from(t2, i + 1) == shape_from(t, i),
    decreases t.len() - i,
{
    if i < t.len() {
        lemma_neighbours_kept(t, t2, k, i);
        lemma_nearest_right_bounds(t, i);
        if lam_alef_at(t, i) {
            let j = spec_nearest_right(t, i)->0;
            lemma_shape_after_mark(t, t2, k, j + 1);
            assert(t2.subrange(i + 2, j + 1) =~= t.subrange(i + 1, j));
        } else {
            lemma_shape_after_mark(t, t2, k, i + 1);
        }
    }
}

/// Up to the mark, the shaping is that of `a + b` with the mark put in at
/// `n`.
proof fn lemma_shape_before_mark(t: Seq<u32>, t2: Seq<u32>, k: int, i: int) -> (n: int)
    requires
        0 <= k <= t.len(),
        t2.len() == t.len() + 1,
        forall|x: int| 0 <= x < k ==> #[trigger] t2[x] == t[x],
        spec_is_transparent(t2[k]),
        forall|x: int| k <= x < t.len() ==> t2[x + 1] == #[trigger] t[x],
        0 <= i <= k,
    ensures
        0 <= n <= shape_from(t, i).len(),
        shape_from(t2, i) == shape_from(t, i).subrange(0, n) + seq![t2[k]] + shape_from(
            t,
            i,
        ).subrange(n, shape_from(t, i).len() as int),
    decreases k - i,
{
    let m = t2[k];
    let x = shape_from(t, i);
    if i == k {
        lemma_mark_not_joining(m);
        lemma_shape_after_mark(t, t2, k, k);
        assert(!lam_alef_at(t2, k));
        assert(letter_form(t2, k) =~= seq![m]);
        assert(x.subrange(0, 0) + seq![m] + x.subrange(0, x.len() as int) =~= seq![m] + x);
        0
    } else {
        lemma_neighbours_kept(t, t2, k, i);
        lemma_nearest_right_bounds(t, i);
        if lam_alef_at(t, i) {
            let j = spec_nearest_right(t, i)->0;
            let lig = seq![
                if spec_left_join(t, i) {
                    0xFEFCu32
                } else {
                    0xFEFBu32
                },
            ];
            if j < k {
                let n2 = lemma_shape_before_mark(t, t2, k, j + 1);
                let y = shape_from(t, j + 1);
                let head = lig + t.subrange(i + 1, j);
                assert(t2.subrange(i + 1, j) =~= t.subrange(i + 1, j));
                assert(x == head + y);
                let n = head.len() + n2;
                assert(x.subrange(0, n) =~= head + y.subrange(0, n2));
                assert(x.subrange(n, x.len() as int) =~= y.subrange(n2, y.len() as int));
                n
            } else {
                lemma_shape_after_mark(t, t2, k, j + 1);
                let y = shape_from(t, j + 1);
                assert(t2.subrange(i + 1, j + 1) =~= t.subrange(i + 1, k) + seq![m] + t.subrange(
                    k,
                    j,
                ));
                assert(x == lig + t.subrange(i + 1, j) + y);
                let n = k - i;
                assert(x.subrange(0, n) =~= lig + t.subrange(i + 1, k));
                assert(x.subrange(n, x.len() as int) =~= t.subrange(k, j) + y);
                n
            }
        } else {
            let n2 = lemma_shape_before_mark(t, t2, k, i + 1);
            let f = letter_form(t, i);
            let y = shape_from(t, i + 1);
            assert(x == f + y);
            let n = f.len() + n2;
            assert(x.subrange(0, n) =~= f + y.subrange(0, n2));
            assert(x.subrange(n, x.len() as int) =~= y.subrange(n2, y.len() as int));
            n
        }
    }
}

/// Transparent marks take no part in joining, on either side: putting a
/// combining mark anywhere in a text puts it, unchanged, into the shaped
/// text, and every letter keeps the form it had without it.
pub proof fn law_transparent_marks_do_not_join(a: Seq<u32>, m: u32, b: Seq<u32>) -> (n: int)
    requires
        combining_mark(m),
    ensures
        0 <= n <= shape_from(a + b, 0).len(),
        shape_from(a + seq![m] + b, 0) == shape_from(a + b, 0).subrange(0, n) + seq![m]
            + shape_from(a + b, 0).subrange(n, shape_from(a + b, 0).len() as int),
{
    let t = a + b;
    let t2 = a + seq![m] + b;
    let k = a.len() as int;
    assert(spec_is_transparent(m));
    assert forall|x: int| 0 <= x < k implies #[trigger] t2[x] == t[x] by {}
    assert forall|x: int| k <= x < t.len() implies t2[x + 1] == #[trigger] t[x] by {}
    assert(t2[k] == m);
    lemma_shape_before_mark(t, t2, k, 0)
}

} // verus!
