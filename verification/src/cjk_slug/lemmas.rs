//! What holds of the stages of the slug normaliser: the shape of a slug,
//! that slugifying is idempotent, and what the slug of a title with an id
//! behind it is.

use crate::cjk_slug::classes::{
    in_class, is_allowed, is_halfwidth_kana, lower, CharClass,
};
use crate::cjk_slug::{
    all_allowed, collapse, dash_disallowed, form_kc, free_of, is_slug, is_slug_char,
    lowercase, nfkc_text, no_double_dash, no_edge_dash, normalize_spec, rewrite_runs, run_len,
    slug_of_normalized, slugify_spec, strip, trim, trim_end, trim_start,
};
use vstd::prelude::*;

verus! {

// ----------------------------------------------------------------------
// Runs
// ----------------------------------------------------------------------
/// A run ends inside `s`, covers only characters of `class`, and stops at
/// the first character outside it.
pub proof fn lemma_run_len(s: Seq<char>, class: CharClass)
    ensures
        run_len(s, class) <= s.len(),
        s.len() > 0 && in_class(class, s[0]) ==> run_len(s, class) >= 1,
        forall|k: int| 0 <= k < run_len(s, class) ==> in_class(class, #[trigger] s[k]),
        run_len(s, class) < s.len() ==> !in_class(class, s[run_len(s, class) as int]),
    decreases s.len(),
{
    if s.len() == 0 || !in_class(class, s[0]) {
    } else {
        let rest = s.skip(1);
        lemma_run_len(rest, class);
        assert forall|k: int| 0 <= k < run_len(s, class) implies in_class(class, #[trigger] s[k]) by {
            if k > 0 {
                assert(s[k] == rest[k - 1]);
            }
        }
        if run_len(s, class) < s.len() {
            assert(s[run_len(s, class) as int] == rest[run_len(rest, class) as int]);
        }
    }
}

/// A prefix of `n` characters of `class` that is followed by a character
/// outside it, or by nothing, is the run at the start of `s`.
pub proof fn lemma_run_len_is(s: Seq<char>, class: CharClass, n: int)
    requires
        0 <= n <= s.len(),
        forall|k: int| 0 <= k < n ==> in_class(class, #[trigger] s[k]),
        n < s.len() ==> !in_class(class, s[n]),
    ensures
        run_len(s, class) == n,
    decreases n,
{
    if n > 0 {
        let rest = s.skip(1);
        assert forall|k: int| 0 <= k < n - 1 implies in_class(class, #[trigger] rest[k]) by {
            assert(rest[k] == s[k + 1]);
        }
        lemma_run_len_is(rest, class, n - 1);
    }
}

// ----------------------------------------------------------------------
// What a stage keeps
// ----------------------------------------------------------------------
/// Whether every character of `out` is a dash or a character of `s`.
pub open spec fn drawn_from(out: Seq<char>, s: Seq<char>) -> bool {
    forall|i: int| 0 <= i < out.len() ==> #[trigger] out[i] == '-' || s.contains(out[i])
}

/// What is drawn from text that is free of a class which does not hold the
/// dash is free of that class too.
pub proof fn lemma_drawn_free_of(out: Seq<char>, s: Seq<char>, class: CharClass)
    requires
        drawn_from(out, s),
        free_of(s, class),
        class != CharClass::Dash,
    ensures
        free_of(out, class),
{
    assert forall|i: int| 0 <= i < out.len() implies !in_class(class, #[trigger] out[i]) by {
        if out[i] != '-' {
            let j = choose|j: int| 0 <= j < s.len() && s[j] == out[i];
            assert(!in_class(class, s[j]));
        }
    }
}

/// What is drawn from allowed text is allowed.
pub proof fn lemma_drawn_allowed(out: Seq<char>, s: Seq<char>)
    requires
        drawn_from(out, s),
        all_allowed(s),
    ensures
        all_allowed(out),
{
    assert forall|i: int| 0 <= i < out.len() implies is_allowed(#[trigger] out[i]) by {
        if out[i] != '-' {
            let j = choose|j: int| 0 <= j < s.len() && s[j] == out[i];
            assert(is_allowed(s[j]));
        }
    }
}

/// Being drawn from a prefix is being drawn from the whole.
proof fn lemma_drawn_from_longer(out: Seq<char>, s: Seq<char>)
    requires
        s.len() > 0,
        drawn_from(out, s.drop_last()),
    ensures
        drawn_from(out, s),
        drawn_from(out.push(s.last()), s),
        drawn_from(out.push('-'), s),
{
    let init = s.drop_last();
    assert forall|c: char| init.contains(c) implies s.contains(c) by {
        let j = choose|j: int| 0 <= j < init.len() && init[j] == c;
        assert(s[j] == c);
    }
    assert(s[s.len() - 1] == s.last());
    assert(s.contains(s.last()));
    assert forall|i: int| 0 <= i < out.len() + 1 implies #[trigger] out.push(s.last())[i] == '-'
        || s.contains(out.push(s.last())[i]) by {
        if i < out.len() {
            assert(out.push(s.last())[i] == out[i]);
        }
    }
    assert forall|i: int| 0 <= i < out.len() + 1 implies #[trigger] out.push('-')[i] == '-'
        || s.contains(out.push('-')[i]) by {
        if i < out.len() {
            assert(out.push('-')[i] == out[i]);
        }
    }
}

/// Deleting a class only takes characters away.
pub proof fn lemma_strip_drawn(s: Seq<char>, class: CharClass)
    ensures
        drawn_from(strip(s, class), s),
        free_of(strip(s, class), class),
    decreases s.len(),
{
    if s.len() > 0 {
        lemma_strip_drawn(s.drop_last(), class);
        lemma_drawn_from_longer(strip(s.drop_last(), class), s);
        if !in_class(class, s.last()) {
            let init = strip(s.drop_last(), class);
            assert forall|i: int| 0 <= i < init.len() + 1 implies !in_class(
                class,
                #[trigger] init.push(s.last())[i],
            ) by {
                if i < init.len() {
                    assert(init.push(s.last())[i] == init[i]);
                }
            }
        }
    }
}

/// Collapsing runs yields dashes and characters of the input.
pub proof fn lemma_collapse_drawn(s: Seq<char>, class: CharClass)
    ensures
        drawn_from(collapse(s, class), s),
    decreases s.len(),
{
    if s.len() > 0 {
        lemma_collapse_drawn(s.drop_last(), class);
        lemma_drawn_from_longer(collapse(s.drop_last(), class), s);
    }
}

/// Collapsing runs of dashes keeps the last character, and leaves no two
/// dashes side by side.
pub proof fn lemma_collapse_dashes(s: Seq<char>)
    ensures
        no_double_dash(collapse(s, CharClass::Dash)),
        s.len() > 0 ==> collapse(s, CharClass::Dash).len() > 0 && collapse(
            s,
            CharClass::Dash,
        ).last() == s.last(),
    decreases s.len(),
{
    if s.len() > 0 {
        let init = s.drop_last();
        lemma_collapse_dashes(init);
        let head = collapse(init, CharClass::Dash);
        let whole = collapse(s, CharClass::Dash);
        if s.len() >= 2 {
            assert(init.last() == s[s.len() - 2]);
        }
        if whole != head {
            // One character was pushed; it is a dash only where the one
            // before it in `s`, which ends `head`, is none.
            assert(whole == head.push(s.last()));
            assert forall|i: int, j: int| 0 <= i && j == i + 1 && j < whole.len() implies !(
            #[trigger] whole[i] == '-' && #[trigger] whole[j] == '-') by {
                if j < head.len() {
                    assert(whole[i] == head[i] && whole[j] == head[j]);
                } else {
                    assert(whole[i] == head.last());
                }
            }
        }
    }
}

/// Trimming takes characters from the two ends only.
pub proof fn lemma_trim_shape(s: Seq<char>)
    requires
        no_double_dash(s),
    ensures
        drawn_from(trim(s), s),
        no_double_dash(trim(s)),
        no_edge_dash(trim(s)),
{
    let a = trim_start(s);
    let b = trim(s);
    let off: int = if s.len() > 0 && s[0] == '-' { 1 } else { 0 };
    assert(forall|i: int| 0 <= i < a.len() ==> a[i] == s[i + off]);
    assert(forall|i: int| 0 <= i < b.len() ==> b[i] == s[i + off]);
    assert forall|i: int| 0 <= i < b.len() implies #[trigger] b[i] == '-' || s.contains(b[i]) by {
        assert(s[i + off] == b[i]);
    }
    assert forall|i: int, j: int| 0 <= i && j == i + 1 && j < b.len() implies !(#[trigger] b[i]
        == '-' && #[trigger] b[j] == '-') by {
        assert(b[i] == s[i + off] && b[j] == s[j + off]);
    }
    if b.len() > 0 {
        if off == 1 {
            assert(s[0] == '-' && b[0] == s[1]);
        }
        if a.len() > 0 && a.last() == '-' {
            assert(b.last() == a[a.len() - 2]);
            assert(a[a.len() - 2] == s[a.len() - 2 + off] && a[a.len() - 1] == s[a.len() - 1
                + off]);
        }
    }
}

/// Lowercasing an allowed character gives a slug character; it gives a
/// dash only for a dash, and never a half-width Katakana for another
/// character.
pub proof fn lemma_lower(c: char)
    ensures
        is_allowed(c) ==> is_slug_char(lower(c)),
        lower(c) == '-' <==> c == '-',
        is_halfwidth_kana(lower(c)) ==> is_halfwidth_kana(c),
{
}

// ----------------------------------------------------------------------
// What a stage leaves as it is
// ----------------------------------------------------------------------
/// Text that is free of a class has no run to rewrite.
pub proof fn lemma_rewrite_free(s: Seq<char>, class: CharClass)
    requires
        free_of(s, class),
    ensures
        rewrite_runs(s, class) == s,
    decreases s.len(),
{
    if s.len() > 0 {
        let rest = s.skip(1);
        assert(!in_class(class, s[0]));
        assert forall|i: int| 0 <= i < rest.len() implies !in_class(class, #[trigger] rest[i]) by {
            assert(rest[i] == s[i + 1]);
        }
        lemma_rewrite_free(rest, class);
        assert(seq![s[0]] + rest =~= s);
    }
}

/// Text that is free of a class loses nothing when the class is deleted.
pub proof fn lemma_strip_free(s: Seq<char>, class: CharClass)
    requires
        free_of(s, class),
    ensures
        strip(s, class) == s,
    decreases s.len(),
{
    if s.len() > 0 {
        let init = s.drop_last();
        assert(!in_class(class, s[s.len() - 1]));
        assert forall|i: int| 0 <= i < init.len() implies !in_class(class, #[trigger] init[i]) by {
            assert(init[i] == s[i]);
        }
        lemma_strip_free(init, class);
        assert(init.push(s.last()) =~= s);
    }
}

/// Text that is free of a class has no run to collapse.
pub proof fn lemma_collapse_free(s: Seq<char>, class: CharClass)
    requires
        free_of(s, class),
    ensures
        collapse(s, class) == s,
    decreases s.len(),
{
    if s.len() > 0 {
        let init = s.drop_last();
        assert(!in_class(class, s[s.len() - 1]));
        assert forall|i: int| 0 <= i < init.len() implies !in_class(class, #[trigger] init[i]) by {
            assert(init[i] == s[i]);
        }
        lemma_collapse_free(init, class);
        assert(init.push(s.last()) =~= s);
    }
}

/// Text without two dashes side by side has no run of dashes to collapse.
pub proof fn lemma_collapse_single_dashes(s: Seq<char>)
    requires
        no_double_dash(s),
    ensures
        collapse(s, CharClass::Dash) == s,
    decreases s.len(),
{
    if s.len() > 0 {
        let init = s.drop_last();
        assert forall|i: int, j: int| 0 <= i && j == i + 1 && j < init.len() implies !(
        #[trigger] init[i] == '-' && #[trigger] init[j] == '-') by {
            assert(init[i] == s[i] && init[j] == s[j]);
        }
        lemma_collapse_single_dashes(init);
        if s.len() >= 2 {
            assert(!(s[s.len() - 2] == '-' && s[s.len() - 1] == '-'));
        }
        assert(init.push(s.last()) =~= s);
    }
}

// ----------------------------------------------------------------------
// No half-width Katakana behind stage 1
// ----------------------------------------------------------------------
/// Rewriting runs brings in no half-width Katakana: none comes out where
/// the runs are those of half-width Katakana, or where none went in.
pub proof fn lemma_rewrite_clean(s: Seq<char>, class: CharClass)
    requires
        class == CharClass::HalfwidthKana || free_of(s, CharClass::HalfwidthKana),
    ensures
        free_of(rewrite_runs(s, class), CharClass::HalfwidthKana),
    decreases s.len(),
{
    let kana = CharClass::HalfwidthKana;
    if s.len() > 0 {
        lemma_run_len(s, class);
        let n: int = if in_class(class, s[0]) {
            run_len(s, class) as int
        } else {
            1
        };
        let head = if in_class(class, s[0]) {
            form_kc(s.take(n))
        } else {
            seq![s[0]]
        };
        let rest = s.skip(n);
        assert forall|i: int| 0 <= i < rest.len() implies !in_class(kana, #[trigger] rest[i])
            || class == kana by {
            assert(rest[i] == s[i + n]);
        }
        lemma_rewrite_clean(rest, class);
        lemma_strip_drawn(nfkc_text(s.take(n)), kana);
        assert(free_of(head, kana));
        let tail = rewrite_runs(rest, class);
        assert(rewrite_runs(s, class) == head + tail);
        assert forall|i: int| 0 <= i < (head + tail).len() implies !in_class(
            kana,
            #[trigger] (head + tail)[i],
        ) by {
            if i < head.len() {
                assert((head + tail)[i] == head[i]);
            } else {
                assert((head + tail)[i] == tail[i - head.len()]);
            }
        }
    }
}

/// Stage 1 leaves no half-width Katakana.
pub proof fn lemma_normalize_clean(s: Seq<char>)
    ensures
        free_of(normalize_spec(s), CharClass::HalfwidthKana),
{
    lemma_rewrite_clean(s, CharClass::HalfwidthKana);
    lemma_rewrite_clean(rewrite_runs(s, CharClass::HalfwidthKana), CharClass::HangulCompat);
}

/// Stages 2 to 7 bring in no half-width Katakana.
pub proof fn lemma_slug_keeps_free_of_kana(s: Seq<char>)
    requires
        free_of(s, CharClass::HalfwidthKana),
    ensures
        free_of(slug_of_normalized(s), CharClass::HalfwidthKana),
{
    let kana = CharClass::HalfwidthKana;
    let unquoted = strip(s, CharClass::Quote);
    let worded = collapse(unquoted, CharClass::Separator);
    let kept = dash_disallowed(worded);
    let joined = collapse(kept, CharClass::Dash);
    let trimmed = trim(joined);
    let out = lowercase(trimmed);
    lemma_strip_drawn(s, CharClass::Quote);
    lemma_drawn_free_of(unquoted, s, kana);
    lemma_collapse_drawn(unquoted, CharClass::Separator);
    lemma_drawn_free_of(worded, unquoted, kana);
    assert forall|i: int| 0 <= i < kept.len() implies !in_class(kana, #[trigger] kept[i]) by {
        assert(!in_class(kana, worded[i]));
    }
    lemma_collapse_drawn(kept, CharClass::Dash);
    lemma_drawn_free_of(joined, kept, kana);
    lemma_collapse_dashes(kept);
    lemma_trim_shape(joined);
    lemma_drawn_free_of(trimmed, joined, kana);
    assert forall|i: int| 0 <= i < out.len() implies !in_class(kana, #[trigger] out[i]) by {
        lemma_lower(trimmed[i]);
        assert(!in_class(kana, trimmed[i]));
    }
}

// ----------------------------------------------------------------------
// The shape of a slug
// ----------------------------------------------------------------------
/// Stages 2 to 7 always give the shape of a slug.
pub proof fn lemma_slug_shape(s: Seq<char>)
    ensures
        is_slug(slug_of_normalized(s)),
{
    let worded = collapse(strip(s, CharClass::Quote), CharClass::Separator);
    let kept = dash_disallowed(worded);
    let joined = collapse(kept, CharClass::Dash);
    let trimmed = trim(joined);
    let out = lowercase(trimmed);
    assert(all_allowed(kept));
    lemma_collapse_drawn(kept, CharClass::Dash);
    lemma_drawn_allowed(joined, kept);
    lemma_collapse_dashes(kept);
    lemma_trim_shape(joined);
    lemma_drawn_allowed(trimmed, joined);
    assert forall|i: int| 0 <= i < out.len() implies is_slug_char(#[trigger] out[i]) by {
        lemma_lower(trimmed[i]);
    }
    assert forall|i: int, j: int| 0 <= i && j == i + 1 && j < out.len() implies !(#[trigger] out[i]
        == '-' && #[trigger] out[j] == '-') by {
        lemma_lower(trimmed[i]);
        lemma_lower(trimmed[j]);
    }
    if out.len() > 0 {
        lemma_lower(trimmed[0]);
        lemma_lower(trimmed.last());
    }
}

/// A slug holds no quotation mark, no whitespace, no underscore and no
/// Hangul compatibility character.
pub proof fn lemma_slug_excludes(s: Seq<char>)
    requires
        is_slug(s),
    ensures
        free_of(s, CharClass::Quote),
        free_of(s, CharClass::Separator),
        free_of(s, CharClass::HangulCompat),
        all_allowed(s),
{
    assert forall|i: int| 0 <= i < s.len() implies !in_class(CharClass::Quote, #[trigger] s[i])
        && !in_class(CharClass::Separator, s[i]) && !in_class(CharClass::HangulCompat, s[i])
        && is_allowed(s[i]) by {
        assert(is_slug_char(s[i]));
    }
}

/// A slug never holds a quotation mark, whitespace or an underscore, nor
/// two dashes in a row, nor a dash at either end; it holds allowed
/// lowercase characters only.
pub proof fn lemma_slugify_shape(s: Seq<char>)
    ensures
        is_slug(slugify_spec(s)),
        free_of(slugify_spec(s), CharClass::Quote),
        free_of(slugify_spec(s), CharClass::Separator),
{
    lemma_slug_shape(normalize_spec(s));
    lemma_slug_excludes(slugify_spec(s));
}

// ----------------------------------------------------------------------
// Slugifying twice
// ----------------------------------------------------------------------
/// A slug without half-width Katakana is its own slug.
pub proof fn lemma_slug_fixed_point(s: Seq<char>)
    requires
        is_slug(s),
        free_of(s, CharClass::HalfwidthKana),
    ensures
        slugify_spec(s) == s,
{
    lemma_slug_excludes(s);
    lemma_rewrite_free(s, CharClass::HalfwidthKana);
    lemma_rewrite_free(s, CharClass::HangulCompat);
    lemma_strip_free(s, CharClass::Quote);
    lemma_collapse_free(s, CharClass::Separator);
    assert(dash_disallowed(s) =~= s);
    lemma_collapse_single_dashes(s);
    assert(trim(s) =~= s);
    assert forall|i: int| 0 <= i < s.len() implies lower(#[trigger] s[i]) == s[i] by {
        assert(is_slug_char(s[i]));
    }
    assert(lowercase(s) =~= s);
}

/// Slugifying is idempotent: the slug of a slug is that slug.
pub proof fn lemma_slugify_idempotent(s: Seq<char>)
    ensures
        slugify_spec(slugify_spec(s)) == slugify_spec(s),
{
    lemma_normalize_clean(s);
    lemma_slug_keeps_free_of_kana(normalize_spec(s));
    lemma_slug_shape(normalize_spec(s));
    lemma_slug_fixed_point(slugify_spec(s));
}

// ----------------------------------------------------------------------
// The slug of a title with an id behind it
// ----------------------------------------------------------------------
/// A run at the start of `a` does not reach into text that starts outside
/// the class.
pub proof fn lemma_run_len_append(a: Seq<char>, b: Seq<char>, class: CharClass)
    requires
        b.len() > 0,
        !in_class(class, b[0]),
    ensures
        run_len(a + b, class) == run_len(a, class),
    decreases a.len(),
{
    if a.len() == 0 {
        assert((a + b)[0] == b[0]);
    } else {
        assert((a + b)[0] == a[0]);
        if in_class(class, a[0]) {
            assert((a + b).skip(1) =~= a.skip(1) + b);
            lemma_run_len_append(a.skip(1), b, class);
        }
    }
}

/// Text that is free of a class stays as it is behind any text whose runs
/// are rewritten.
pub proof fn lemma_rewrite_append(a: Seq<char>, b: Seq<char>, class: CharClass)
    requires
        b.len() > 0,
        free_of(b, class),
    ensures
        rewrite_runs(a + b, class) == rewrite_runs(a, class) + b,
    decreases a.len(),
{
    assert(!in_class(class, b[0]));
    if a.len() == 0 {
        assert(a + b =~= b);
        lemma_rewrite_free(b, class);
        assert(rewrite_runs(a, class) + b =~= b);
    } else {
        assert((a + b)[0] == a[0]);
        if in_class(class, a[0]) {
            lemma_run_len_append(a, b, class);
            lemma_run_len(a, class);
            let n = run_len(a, class) as int;
            assert((a + b).take(n) =~= a.take(n));
            assert((a + b).skip(n) =~= a.skip(n) + b);
            lemma_rewrite_append(a.skip(n), b, class);
            assert(rewrite_runs(a + b, class) =~= rewrite_runs(a, class) + b);
        } else {
            assert((a + b).skip(1) =~= a.skip(1) + b);
            lemma_rewrite_append(a.skip(1), b, class);
            assert(rewrite_runs(a + b, class) =~= rewrite_runs(a, class) + b);
        }
    }
}

/// Text that is free of a class stays as it is behind any text from which
/// the class is deleted.
pub proof fn lemma_strip_append(a: Seq<char>, b: Seq<char>, class: CharClass)
    requires
        free_of(b, class),
    ensures
        strip(a + b, class) == strip(a, class) + b,
    decreases b.len(),
{
    if b.len() == 0 {
        assert(a + b =~= a);
        assert(strip(a, class) + b =~= strip(a, class));
    } else {
        let init = b.drop_last();
        assert(!in_class(class, b[b.len() - 1]));
        assert forall|i: int| 0 <= i < init.len() implies !in_class(class, #[trigger] init[i]) by {
            assert(init[i] == b[i]);
        }
        assert((a + b).drop_last() =~= a + init);
        lemma_strip_append(a, init, class);
        assert(strip(a + b, class) =~= strip(a, class) + b);
    }
}

/// Text that is free of a class stays as it is behind any text whose runs
/// are collapsed.
pub proof fn lemma_collapse_append(a: Seq<char>, b: Seq<char>, class: CharClass)
    requires
        free_of(b, class),
    ensures
        collapse(a + b, class) == collapse(a, class) + b,
    decreases b.len(),
{
    if b.len() == 0 {
        assert(a + b =~= a);
        assert(collapse(a, class) + b =~= collapse(a, class));
    } else {
        let init = b.drop_last();
        assert(!in_class(class, b[b.len() - 1]));
        assert forall|i: int| 0 <= i < init.len() implies !in_class(class, #[trigger] init[i]) by {
            assert(init[i] == b[i]);
        }
        assert((a + b).drop_last() =~= a + init);
        lemma_collapse_append(a, init, class);
        assert(collapse(a + b, class) =~= collapse(a, class) + b);
    }
}

/// An ASCII letter or an ASCII digit.
pub open spec fn is_alnum(c: char) -> bool {
    ('a' <= c <= 'z') || ('A' <= c <= 'Z') || ('0' <= c <= '9')
}

/// The slug of a title with a dash and an id behind it is the slug of the
/// title, a dash and the lowercased id; it is the lowercased id alone where
/// the title has an empty slug. The id is made of letters and digits.
pub proof fn lemma_slug_with_id(title: Seq<char>, id: Seq<char>)
    requires
        id.len() > 0,
        forall|i: int| 0 <= i < id.len() ==> is_alnum(#[trigger] id[i]),
    ensures
        slugify_spec(title + seq!['-'] + id) == if slugify_spec(title).len() == 0 {
            lowercase(id)
        } else {
            slugify_spec(title) + seq!['-'] + lowercase(id)
        },
{
    let dash = seq!['-'];
    let tail = dash + id;
    assert(title + dash + id =~= title + tail);
    assert forall|i: int| 0 <= i < tail.len() implies is_alnum(#[trigger] tail[i]) || tail[i]
        == '-' by {
        if i > 0 {
            assert(tail[i] == id[i - 1]);
        }
    }
    assert(free_of(tail, CharClass::HalfwidthKana));
    assert(free_of(tail, CharClass::HangulCompat));
    assert(free_of(tail, CharClass::Quote));
    assert(free_of(tail, CharClass::Separator));
    assert(free_of(id, CharClass::Dash));
    // Stages 1 to 4 leave the tail as it is.
    let kana = rewrite_runs(title, CharClass::HalfwidthKana);
    lemma_rewrite_append(title, tail, CharClass::HalfwidthKana);
    lemma_rewrite_append(kana, tail, CharClass::HangulCompat);
    let normal = normalize_spec(title);
    assert(normalize_spec(title + tail) == normal + tail);
    let unquoted = strip(normal, CharClass::Quote);
    lemma_strip_append(normal, tail, CharClass::Quote);
    let worded = collapse(unquoted, CharClass::Separator);
    lemma_collapse_append(unquoted, tail, CharClass::Separator);
    let kept = dash_disallowed(worded);
    assert(dash_disallowed(worded + tail) =~= kept + tail);
    // Stage 5 joins the dash of the tail with a dash before it.
    let joined = collapse(kept, CharClass::Dash);
    lemma_collapse_dashes(kept);
    assert(kept + tail =~= (kept + dash) + id);
    lemma_collapse_append(kept + dash, id, CharClass::Dash);
    assert((kept + dash).drop_last() =~= kept);
    let head = collapse(kept + dash, CharClass::Dash);
    if kept.len() > 0 {
        assert((kept + dash)[kept.len() - 1] == kept.last());
    }
    assert(head == if kept.len() > 0 && kept.last() == '-' {
        joined
    } else {
        joined.push('-')
    });
    // Stage 6 takes the dash before the id for a trailing dash of the
    // title's part, and stage 7 lowercases both parts.
    let core = trim(joined);
    let whole = head + id;
    assert(whole.last() == id.last());
    assert(is_alnum(id[id.len() - 1]));
    assert(whole[0] == head[0]);
    if core.len() == 0 {
        // `joined` is empty or one dash: `head` is one dash.
        assert(head =~= dash);
        assert(trim(whole) =~= id);
    } else {
        assert(joined.len() > 0);
        if joined.len() >= 2 {
            assert(!(joined[0] == '-' && joined[1] == '-'));
            assert(!(joined[joined.len() - 2] == '-' && joined[joined.len() - 1] == '-'));
        }
        assert(head =~= trim_end(joined) + dash);
        assert(trim(whole) =~= core + dash + id);
    }
    assert(lowercase(core + dash + id) =~= lowercase(core) + dash + lowercase(id));
    assert(lowercase(core).len() == core.len());
}

/// A lowercased id is made of small letters and digits, and an id without
/// capitals is lowercase already.
pub proof fn lemma_lowercase_id(id: Seq<char>)
    requires
        forall|i: int| 0 <= i < id.len() ==> is_alnum(#[trigger] id[i]),
    ensures
        lowercase(id).len() == id.len(),
        forall|i: int|
            0 <= i < id.len() ==> ('a' <= #[trigger] lowercase(id)[i] <= 'z') || ('0' <= lowercase(
                id,
            )[i] <= '9'),
        (forall|i: int| 0 <= i < id.len() ==> !('A' <= #[trigger] id[i] <= 'Z')) ==> lowercase(id)
            == id,
{
    assert forall|i: int| 0 <= i < id.len() implies ('a' <= #[trigger] lowercase(id)[i] <= 'z')
        || ('0' <= lowercase(id)[i] <= '9') by {
        assert(is_alnum(id[i]));
    }
    if forall|i: int| 0 <= i < id.len() ==> !('A' <= #[trigger] id[i] <= 'Z') {
        assert forall|i: int| 0 <= i < id.len() implies lowercase(id)[i] == id[i] by {
            assert(is_alnum(id[i]));
            assert(!('A' <= id[i] <= 'Z'));
        }
        assert(lowercase(id) =~= id);
    }
}

} // verus!
