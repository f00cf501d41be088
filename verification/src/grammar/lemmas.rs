//! What holds of the grammar: that [`matched`] accepts the paths of the
//! grammar and no others, and how a title is read piece by piece.

use crate::grammar::{
    belongs, find, is_digit, is_small_letter, is_upper_hex, matched, rfind, split_slug,
    title_rest, Alphabet, PathParts,
};
use vstd::prelude::*;

verus! {

// ----------------------------------------------------------------------
// Searching
// ----------------------------------------------------------------------
/// `find` stops at the first `c` at or after `from`.
pub proof fn lemma_find(s: Seq<char>, c: char, from: int)
    requires
        0 <= from <= s.len(),
    ensures
        from <= find(s, c, from) <= s.len(),
        find(s, c, from) < s.len() ==> s[find(s, c, from)] == c,
        forall|k: int| from <= k < find(s, c, from) ==> #[trigger] s[k] != c,
    decreases s.len() - from,
{
    if from < s.len() && s[from] != c {
        lemma_find(s, c, from + 1);
    }
}

/// `rfind` stops at the last `c`.
pub proof fn lemma_rfind(s: Seq<char>, c: char)
    ensures
        -1 <= rfind(s, c) < s.len(),
        rfind(s, c) >= 0 ==> s[rfind(s, c)] == c,
        forall|k: int| rfind(s, c) < k < s.len() ==> #[trigger] s[k] != c,
    decreases s.len(),
{
    if s.len() > 0 && s.last() != c {
        lemma_rfind(s.drop_last(), c);
        assert forall|k: int| rfind(s, c) < k < s.len() implies #[trigger] s[k] != c by {
            if k < s.len() - 1 {
                assert(s.drop_last()[k] == s[k]);
            }
        }
    }
}

/// Where no `c` stands in `s[from..to]` and `s[to]` is `c` or the end,
/// `find` stops at `to`.
pub proof fn lemma_find_stops(s: Seq<char>, c: char, from: int, to: int)
    requires
        0 <= from <= to <= s.len(),
        forall|k: int| from <= k < to ==> #[trigger] s[k] != c,
        to < s.len() ==> s[to] == c,
    ensures
        find(s, c, from) == to,
    decreases to - from,
{
    if from < to {
        lemma_find_stops(s, c, from + 1, to);
    }
}

/// Where `s[at]` is `c`, or `at` is `-1`, and no `c` stands behind `at`,
/// `rfind` stops at `at`.
pub proof fn lemma_rfind_stops(s: Seq<char>, c: char, at: int)
    requires
        -1 <= at < s.len(),
        at >= 0 ==> s[at] == c,
        forall|k: int| at < k < s.len() ==> #[trigger] s[k] != c,
    ensures
        rfind(s, c) == at,
    decreases s.len(),
{
    if s.len() > 0 && at < s.len() - 1 {
        let init = s.drop_last();
        assert(s[s.len() - 1] != c);
        assert forall|k: int| at < k < init.len() implies #[trigger] init[k] != c by {
            assert(init[k] == s[k]);
        }
        lemma_rfind_stops(init, c, at);
    }
}

// ----------------------------------------------------------------------
// The matcher and the grammar
// ----------------------------------------------------------------------
/// A character that a title can hold.
pub open spec fn is_title_char(c: char) -> bool {
    is_small_letter(c) || is_digit(c) || c == '-' || c == '%' || is_upper_hex(c)
}

/// What can end a title holds characters of titles only.
pub proof fn lemma_title_chars(s: Seq<char>, from: int, after_token: bool)
    requires
        0 <= from,
        title_rest(s, from, after_token),
    ensures
        forall|k: int| from <= k < s.len() ==> is_title_char(#[trigger] s[k]),
    decreases s.len() - from,
{
    if from < s.len() {
        if s[from] == '-' {
            lemma_title_chars(s, from + 1, false);
        } else if is_small_letter(s[from]) || is_digit(s[from]) {
            lemma_title_chars(s, from + 1, true);
        } else {
            lemma_title_chars(s, from + 3, true);
        }
    }
}

/// Every path of the grammar is matched, with the segments it was written
/// from.
pub proof fn lemma_grammar_is_matched(parts: PathParts, trailing_slash: bool)
    requires
        parts.well_formed(),
    ensures
        matched(parts.path(trailing_slash)) == Some(parts),
{
    let path = parts.path(trailing_slash);
    let slug = parts.slug();
    let a: int = parts.country.len() as int + 1;
    let b: int = a + 1 + parts.service_type.len();
    let c: int = b + 1 + slug.len();
    // The slug holds no slash, and its last dash stands before the id.
    match parts.title {
        None => {
            lemma_rfind_stops(slug, '-', -1);
        },
        Some(title) => {
            lemma_title_chars(title, 0, false);
            assert forall|k: int| 0 <= k < slug.len() implies #[trigger] slug[k] != '/' by {
                if k < title.len() {
                    assert(is_title_char(title[k]));
                } else if k > title.len() {
                    assert(belongs(Alphabet::Id, parts.id[k - title.len() - 1]));
                }
            }
            assert forall|k: int| title.len() < k < slug.len() implies #[trigger] slug[k]
                != '-' by {
                assert(belongs(Alphabet::Id, parts.id[k - title.len() - 1]));
            }
            lemma_rfind_stops(slug, '-', title.len() as int);
            assert(slug.take(title.len() as int) =~= title);
            assert(slug.skip(title.len() as int + 1) =~= parts.id);
        },
    }
    assert(split_slug(slug) == Some((parts.title, parts.id)));
    assert forall|k: int| 1 <= k < a implies #[trigger] path[k] != '/' by {
        assert(belongs(Alphabet::Country, parts.country[k - 1]));
    }
    assert forall|k: int| a + 1 <= k < b implies #[trigger] path[k] != '/' by {
        assert(belongs(Alphabet::ServiceType, parts.service_type[k - a - 1]));
    }
    assert forall|k: int| b + 1 <= k < c implies #[trigger] path[k] != '/' by {
        assert(path[k] == slug[k - b - 1]);
        if parts.title is None {
            assert(belongs(Alphabet::Id, parts.id[k - b - 1]));
        }
    }
    assert(path[0] == '/' && path[a] == '/' && path[b] == '/');
    lemma_find_stops(path, '/', 1, a);
    lemma_find_stops(path, '/', a + 1, b);
    assert(path.subrange(1, a) =~= parts.country);
    assert(path.subrange(a + 1, b) =~= parts.service_type);
    assert(path.subrange(b + 1, c) =~= slug);
    match parts.data {
        None => {
            assert(c == path.len() || (c + 1 == path.len() && path[c] == '/'));
            lemma_find_stops(path, '/', b + 1, c);
        },
        Some(data) => {
            let d: int = c + 1 + data.len();
            assert(path[c] == '/');
            lemma_find_stops(path, '/', b + 1, c);
            assert forall|k: int| c + 1 <= k < d implies #[trigger] path[k] != '/' by {
                assert(belongs(Alphabet::Data, data[k - c - 1]));
            }
            assert(d == path.len() || (d + 1 == path.len() && path[d] == '/'));
            lemma_find_stops(path, '/', c + 1, d);
            assert(path.subrange(c + 1, d) =~= data);
        },
    }
}

/// Every path that is matched is a path of the grammar: its segments are
/// well formed, and it is written from them, with a slash at its end or
/// without.
pub proof fn lemma_matched_is_grammar(path: Seq<char>)
    requires
        matched(path) is Some,
    ensures
        matched(path)->0.well_formed(),
        path == matched(path)->0.path(false) || path == matched(path)->0.path(true),
{
    let parts = matched(path)->0;
    let a = find(path, '/', 1);
    lemma_find(path, '/', 1);
    let b = find(path, '/', a + 1);
    lemma_find(path, '/', a + 1);
    let c = find(path, '/', b + 1);
    lemma_find(path, '/', b + 1);
    let slug = path.subrange(b + 1, c);
    lemma_rfind(slug, '-');
    let dash = rfind(slug, '-');
    if dash >= 0 {
        assert(slug =~= slug.take(dash) + seq!['-'] + slug.skip(dash + 1));
    }
    assert(parts.slug() == slug);
    if c == path.len() {
        assert(path =~= parts.path(false));
    } else if c + 1 == path.len() {
        assert(path =~= parts.path(true));
    } else {
        let d = find(path, '/', c + 1);
        lemma_find(path, '/', c + 1);
        if d == path.len() {
            assert(path =~= parts.path(false));
        } else {
            assert(path =~= parts.path(true));
        }
    }
}

// ----------------------------------------------------------------------
// Titles, piece by piece
// ----------------------------------------------------------------------
/// Whether a token stands at the end of `s`, read from `from` on;
/// `after_token` tells whether one stands right before `from`.
pub open spec fn title_end(s: Seq<char>, from: int, after_token: bool) -> bool
    decreases s.len() - from,
{
    if from >= s.len() {
        after_token
    } else if s[from] == '-' {
        title_end(s, from + 1, false)
    } else if s[from] == '%' && from + 3 <= s.len() {
        title_end(s, from + 3, true)
    } else {
        title_end(s, from + 1, true)
    }
}

/// Reading `u` behind `s` is reading `u` alone.
pub proof fn lemma_title_shift(s: Seq<char>, u: Seq<char>, k: int, after_token: bool)
    requires
        0 <= k,
    ensures
        title_rest(s + u, s.len() + k, after_token) == title_rest(u, k, after_token),
        title_end(s + u, s.len() + k, after_token) == title_end(u, k, after_token),
    decreases u.len() - k,
{
    if k < u.len() {
        assert((s + u)[s.len() + k] == u[k]);
        if u[k] == '-' {
            lemma_title_shift(s, u, k + 1, false);
        } else if u[k] == '%' && k + 3 <= u.len() {
            assert((s + u)[s.len() + k + 1] == u[k + 1]);
            assert((s + u)[s.len() + k + 2] == u[k + 2]);
            lemma_title_shift(s, u, k + 3, true);
        } else {
            lemma_title_shift(s, u, k + 1, true);
        }
    }
}

/// Where `s` can end a title, `s` with `u` behind it can if `u` can, read
/// from where `s` ends.
pub proof fn lemma_title_append(s: Seq<char>, u: Seq<char>, from: int, after_token: bool)
    requires
        0 <= from <= s.len(),
        title_rest(s, from, after_token),
    ensures
        title_rest(s + u, from, after_token) == title_rest(u, 0, title_end(s, from, after_token)),
        title_end(s + u, from, after_token) == title_end(u, 0, title_end(s, from, after_token)),
    decreases s.len() - from,
{
    if from == s.len() {
        lemma_title_shift(s, u, 0, after_token);
    } else {
        assert((s + u)[from] == s[from]);
        if s[from] == '-' {
            lemma_title_append(s, u, from + 1, false);
        } else if is_small_letter(s[from]) || is_digit(s[from]) {
            lemma_title_append(s, u, from + 1, true);
        } else {
            assert((s + u)[from + 1] == s[from + 1]);
            assert((s + u)[from + 2] == s[from + 2]);
            lemma_title_append(s, u, from + 3, true);
        }
    }
}

} // verus!
