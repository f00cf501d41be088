//! The slug normaliser: turns an arbitrary title into a lowercase,
//! dash-separated, URL-path-safe slug that keeps Hiragana, Katakana, CJK
//! ideographs and Hangul syllables as they are.
//!
//! The pipeline has seven stages, applied in this order:
//!
//! 1. runs of half-width Katakana, then runs of Hangul compatibility
//!    characters, are rewritten to Unicode Normalization Form KC;
//! 2. quotation marks are deleted;
//! 3. every run of whitespace and underscores becomes one dash;
//! 4. every character outside the allowed set becomes a dash;
//! 5. every run of dashes becomes one dash;
//! 6. one leading and one trailing dash are removed;
//! 7. the result is lowercased.
//!
//! Each stage is a spec function on `Seq<char>` and an executable function
//! proved equal to it. Normalization Form KC itself is computed by the
//! `unicode-normalization` crate; its result is only named here
//! ([`nfkc_text`]).

pub mod classes;
pub mod lemmas;

pub use crate::cjk_slug::classes::{
    in_class, is_allowed, is_halfwidth_kana, is_hangul_compat, is_quote, is_separator,
    is_whitespace, lower, CharClass,
};

use crate::cjk_slug::lemmas::{
    lemma_normalize_clean, lemma_rewrite_clean, lemma_run_len, lemma_run_len_is,
    lemma_slugify_idempotent, lemma_slugify_shape, lemma_strip_free,
};
use crate::text::{chars_of, text_of, text_of_range};
use vstd::prelude::*;

verus! {

/// What `unicode_normalization` returns as Normalization Form KC of `text`.
pub uninterp spec fn nfkc_text(text: Seq<char>) -> Seq<char>;

/// Calls `UnicodeNormalization::nfkc` on `text` and collects the
/// characters that it yields.
///
/// Trusted: the result is what the crate gives as Form KC of `text`, and it
/// holds no character of the half-width range U+FF60..=U+FF9F. The second
/// claim rests on the crate's tables: each code point of that range has a
/// compatibility decomposition, so that the decomposition pass replaces
/// it, and no entry of the decomposition and composition tables yields a
/// code point of that range.
#[verifier::external_body]
fn nfkc(text: &str) -> (r: String)
    ensures
        r@ == nfkc_text(text@),
        forall|i: int| 0 <= i < r@.len() ==> !is_halfwidth_kana(#[trigger] r@[i]),
{
    unicode_normalization::UnicodeNormalization::nfkc(text).collect()
}

// ----------------------------------------------------------------------
// The stages, as functions on sequences of characters
// ----------------------------------------------------------------------
/// Whether no character of `s` is in `class`.
pub open spec fn free_of(s: Seq<char>, class: CharClass) -> bool {
    forall|i: int| 0 <= i < s.len() ==> !in_class(class, #[trigger] s[i])
}

/// The length of the longest prefix of `s` whose characters are all in
/// `class`.
pub open spec fn run_len(s: Seq<char>, class: CharClass) -> nat
    decreases s.len(),
{
    if s.len() == 0 || !in_class(class, s[0]) {
        0
    } else {
        1 + run_len(s.skip(1), class)
    }
}

/// The Form KC of a run: what the `unicode-normalization` crate returns
/// for the run, without the half-width Katakana in it. The crate returns
/// none, so this is what it returns; written this way, the model knows it
/// too.
pub open spec fn form_kc(run: Seq<char>) -> Seq<char> {
    strip(nfkc_text(run), CharClass::HalfwidthKana)
}

/// `s` with every maximal run of characters of `class` replaced by the
/// Form KC of that run; all other characters stay.
pub open spec fn rewrite_runs(s: Seq<char>, class: CharClass) -> Seq<char>
    decreases s.len(),
{
    if s.len() == 0 {
        s
    } else if in_class(class, s[0]) {
        let n = run_len(s, class);
        proof {
            lemma_run_len(s, class);
        }
        form_kc(s.take(n as int)) + rewrite_runs(s.skip(n as int), class)
    } else {
        seq![s[0]] + rewrite_runs(s.skip(1), class)
    }
}

/// Stage 1: half-width Katakana runs first, then Hangul compatibility runs.
pub open spec fn normalize_spec(s: Seq<char>) -> Seq<char> {
    rewrite_runs(rewrite_runs(s, CharClass::HalfwidthKana), CharClass::HangulCompat)
}

/// `s` without its characters of `class`.
pub open spec fn strip(s: Seq<char>, class: CharClass) -> Seq<char>
    decreases s.len(),
{
    if s.len() == 0 {
        s
    } else if in_class(class, s.last()) {
        strip(s.drop_last(), class)
    } else {
        strip(s.drop_last(), class).push(s.last())
    }
}

/// `s` with every maximal run of characters of `class` replaced by one dash.
pub open spec fn collapse(s: Seq<char>, class: CharClass) -> Seq<char>
    decreases s.len(),
{
    if s.len() == 0 {
        s
    } else if !in_class(class, s.last()) {
        collapse(s.drop_last(), class).push(s.last())
    } else if s.len() >= 2 && in_class(class, s[s.len() - 2]) {
        collapse(s.drop_last(), class)
    } else {
        collapse(s.drop_last(), class).push('-')
    }
}

/// `s` with a dash in place of every character that is not allowed.
pub open spec fn dash_disallowed(s: Seq<char>) -> Seq<char> {
    Seq::new(s.len(), |i: int| if is_allowed(s[i]) { s[i] } else { '-' })
}

/// `s` without one leading dash.
pub open spec fn trim_start(s: Seq<char>) -> Seq<char> {
    if s.len() > 0 && s[0] == '-' {
        s.skip(1)
    } else {
        s
    }
}

/// `s` without one trailing dash.
pub open spec fn trim_end(s: Seq<char>) -> Seq<char> {
    if s.len() > 0 && s.last() == '-' {
        s.drop_last()
    } else {
        s
    }
}

/// `s` without one leading and one trailing dash.
pub open spec fn trim(s: Seq<char>) -> Seq<char> {
    trim_end(trim_start(s))
}

/// `s` with every character lowercased.
pub open spec fn lowercase(s: Seq<char>) -> Seq<char> {
    Seq::new(s.len(), |i: int| lower(s[i]))
}

/// Stages 2 to 7, on text that stage 1 has been through.
pub open spec fn slug_of_normalized(s: Seq<char>) -> Seq<char> {
    lowercase(
        trim(
            collapse(
                dash_disallowed(collapse(strip(s, CharClass::Quote), CharClass::Separator)),
                CharClass::Dash,
            ),
        ),
    )
}

/// The slug of `s`: the whole pipeline.
pub open spec fn slugify_spec(s: Seq<char>) -> Seq<char> {
    slug_of_normalized(normalize_spec(s))
}

/// A character as a finished slug holds it: allowed, and lowercase.
pub open spec fn is_slug_char(c: char) -> bool {
    is_allowed(c) && lower(c) == c
}

/// Whether every character of `s` is allowed.
pub open spec fn all_allowed(s: Seq<char>) -> bool {
    forall|i: int| 0 <= i < s.len() ==> is_allowed(#[trigger] s[i])
}

/// Whether no two dashes stand side by side in `s`.
pub open spec fn no_double_dash(s: Seq<char>) -> bool {
    forall|i: int, j: int|
        0 <= i && j == i + 1 && j < s.len() ==> !(#[trigger] s[i] == '-' && #[trigger] s[j] == '-')
}

/// Whether `s` neither starts nor ends with a dash.
pub open spec fn no_edge_dash(s: Seq<char>) -> bool {
    s.len() > 0 ==> s[0] != '-' && s.last() != '-'
}

/// The shape of a finished slug: allowed lowercase characters only, no two
/// dashes in a row, and no dash at either end.
pub open spec fn is_slug(s: Seq<char>) -> bool {
    &&& forall|i: int| 0 <= i < s.len() ==> is_slug_char(#[trigger] s[i])
    &&& no_double_dash(s)
    &&& no_edge_dash(s)
}

// ----------------------------------------------------------------------
// The stages, executable
// ----------------------------------------------------------------------
/// Stage 1 for one class: rewrites every maximal run of characters of
/// `class` in `text` to its Form KC.
fn normalize_runs(text: &str, class: CharClass) -> (out: String)
    ensures
        out@ == rewrite_runs(text@, class),
{
    let chars = chars_of(text);
    let mut out = String::new();
    let mut i: usize = 0;
    proof {
        assert(chars@.skip(0) =~= chars@);
        assert(out@ + rewrite_runs(chars@, class) =~= rewrite_runs(chars@, class));
    }
    while i < chars.len()
        invariant
            i <= chars.len(),
            chars@ == text@,
            out@ + rewrite_runs(chars@.skip(i as int), class) == rewrite_runs(chars@, class),
        decreases chars.len() - i,
    {
        let ghost rest = chars@.skip(i as int);
        let ghost before = out@;
        if in_class(class, chars[i]) {
            let mut j: usize = i + 1;
            while j < chars.len() && in_class(class, chars[j])
                invariant
                    i < j <= chars.len(),
                    forall|k: int| i <= k < j ==> in_class(class, #[trigger] chars@[k]),
                decreases chars.len() - j,
            {
                j += 1;
            }
            let run = text_of_range(&chars, i, j);
            let normal = nfkc(run.as_str());
            out.append(normal.as_str());
            proof {
                lemma_run_len_is(rest, class, j - i);
                lemma_strip_free(normal@, CharClass::HalfwidthKana);
                assert(rest.take(j - i) =~= chars@.subrange(i as int, j as int));
                assert(rest.skip(j - i) =~= chars@.skip(j as int));
                assert(out@ + rewrite_runs(chars@.skip(j as int), class) =~= before
                    + rewrite_runs(rest, class));
            }
            i = j;
        } else {
            out.push(chars[i]);
            proof {
                assert(rest.skip(1) =~= chars@.skip(i + 1));
                assert(out@ + rewrite_runs(chars@.skip(i + 1), class) =~= before + rewrite_runs(
                    rest,
                    class,
                ));
            }
            i += 1;
        }
    }
    assert(out@ + rewrite_runs(chars@.skip(i as int), class) =~= out@);
    out
}

/// Rewrites every run of half-width Katakana to full-width Katakana
/// (Form KC). The result holds no half-width Katakana.
pub fn normalize_katakana(text: &str) -> (out: String)
    ensures
        out@ == rewrite_runs(text@, CharClass::HalfwidthKana),
        free_of(out@, CharClass::HalfwidthKana),
{
    proof {
        lemma_rewrite_clean(text@, CharClass::HalfwidthKana);
    }
    normalize_runs(text, CharClass::HalfwidthKana)
}

/// Rewrites every run of Hangul compatibility characters to its Form KC.
pub fn normalize_hangul(text: &str) -> (out: String)
    ensures
        out@ == rewrite_runs(text@, CharClass::HangulCompat),
{
    normalize_runs(text, CharClass::HangulCompat)
}

/// Stage 1: compatibility pre-normalisation of the two half-width ranges.
/// The result holds no half-width Katakana.
pub fn normalize(text: &str) -> (out: String)
    ensures
        out@ == normalize_spec(text@),
        free_of(out@, CharClass::HalfwidthKana),
{
    proof {
        lemma_normalize_clean(text@);
    }
    let kana = normalize_katakana(text);
    normalize_hangul(kana.as_str())
}

/// Stage 2, and any other deletion of a class.
fn strip_class(chars: &Vec<char>, class: CharClass) -> (out: Vec<char>)
    ensures
        out@ == strip(chars@, class),
{
    let mut out: Vec<char> = Vec::new();
    let mut i: usize = 0;
    while i < chars.len()
        invariant
            i <= chars.len(),
            out@ == strip(chars@.take(i as int), class),
        decreases chars.len() - i,
    {
        let c = chars[i];
        proof {
            assert(chars@.take(i + 1).drop_last() =~= chars@.take(i as int));
        }
        if !in_class(class, c) {
            out.push(c);
        }
        i += 1;
    }
    assert(chars@.take(chars@.len() as int) =~= chars@);
    out
}

/// Stages 3 and 5: one dash for every maximal run of `class`.
fn collapse_class(chars: &Vec<char>, class: CharClass) -> (out: Vec<char>)
    ensures
        out@ == collapse(chars@, class),
{
    let mut out: Vec<char> = Vec::new();
    let mut i: usize = 0;
    while i < chars.len()
        invariant
            i <= chars.len(),
            out@ == collapse(chars@.take(i as int), class),
        decreases chars.len() - i,
    {
        let c = chars[i];
        proof {
            assert(chars@.take(i + 1).drop_last() =~= chars@.take(i as int));
        }
        if !in_class(class, c) {
            out.push(c);
        } else if i == 0 || !in_class(class, chars[i - 1]) {
            out.push('-');
        }
        i += 1;
    }
    assert(chars@.take(chars@.len() as int) =~= chars@);
    out
}

/// Stage 4: a dash for every character that is not allowed.
fn replace_disallowed(chars: &Vec<char>) -> (out: Vec<char>)
    ensures
        out@ == dash_disallowed(chars@),
{
    let mut out: Vec<char> = Vec::new();
    let mut i: usize = 0;
    while i < chars.len()
        invariant
            i <= chars.len(),
            out@ == dash_disallowed(chars@).take(i as int),
        decreases chars.len() - i,
    {
        let c = chars[i];
        out.push(if is_allowed(c) { c } else { '-' });
        assert(out@ =~= dash_disallowed(chars@).take(i + 1));
        i += 1;
    }
    assert(dash_disallowed(chars@).take(chars@.len() as int) =~= dash_disallowed(chars@));
    out
}

/// Stage 6: drops one leading and one trailing dash.
fn trim_dashes(chars: &Vec<char>) -> (out: Vec<char>)
    ensures
        out@ == trim(chars@),
{
    let mut from: usize = 0;
    let mut to: usize = chars.len();
    if to > 0 && chars[0] == '-' {
        from = 1;
    }
    if to > from && chars[to - 1] == '-' {
        to = to - 1;
    }
    let mut out: Vec<char> = Vec::new();
    let mut i: usize = from;
    while i < to
        invariant
            from <= i <= to <= chars.len(),
            out@ == chars@.subrange(from as int, i as int),
        decreases to - i,
    {
        out.push(chars[i]);
        i += 1;
    }
    assert(out@ =~= trim(chars@));
    out
}

/// Stage 7: lowercases every character.
fn lowercase_all(chars: &Vec<char>) -> (out: Vec<char>)
    ensures
        out@ == lowercase(chars@),
{
    let mut out: Vec<char> = Vec::new();
    let mut i: usize = 0;
    while i < chars.len()
        invariant
            i <= chars.len(),
            out@ == lowercase(chars@).take(i as int),
        decreases chars.len() - i,
    {
        out.push(lower(chars[i]));
        assert(out@ =~= lowercase(chars@).take(i + 1));
        i += 1;
    }
    assert(lowercase(chars@).take(chars@.len() as int) =~= lowercase(chars@));
    out
}

/// The slug of `text`.
///
/// The result has the shape of a slug: it holds no quotation mark, no
/// whitespace, no underscore, no two dashes in a row and no dash at either
/// end. It is its own slug: slugifying it again changes nothing.
pub fn slugify(text: &str) -> (out: String)
    ensures
        out@ == slugify_spec(text@),
        is_slug(out@),
        free_of(out@, CharClass::Quote),
        free_of(out@, CharClass::Separator),
        slugify_spec(out@) == out@,
{
    let normal = normalize(text);
    let chars = chars_of(normal.as_str());
    let unquoted = strip_class(&chars, CharClass::Quote);
    let worded = collapse_class(&unquoted, CharClass::Separator);
    let kept = replace_disallowed(&worded);
    let joined = collapse_class(&kept, CharClass::Dash);
    let trimmed = trim_dashes(&joined);
    let lowered = lowercase_all(&trimmed);
    let out = text_of(&lowered);
    proof {
        lemma_slugify_shape(text@);
        lemma_slugify_idempotent(text@);
    }
    out
}

} // verus!
