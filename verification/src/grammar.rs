//! The grammar of a permalink's path.
//!
//! ```text
//! path         = "/" country "/" service-type "/" slug [ "/" data ] [ "/" ]
//! country      = 2 * LETTER
//! service-type = 3 or more of ( SMALL-LETTER / "-" )
//! slug         = [ title "-" ] id
//! title        = 1 or more of ( token [ "-" ] ), starting with a token
//! token        = SMALL-LETTER / DIGIT / "%" UPPER-HEX UPPER-HEX
//! id           = 8 or more of ( LETTER / DIGIT )
//! data         = 1 or more of ( LETTER / DIGIT / "-" / "_" )
//! ```
//!
//! The whole path has to match. No segment holds a slash and an id holds no
//! dash, so a path matches in one way at most: the segments are what stands
//! between the slashes, and the id is what follows the last dash of the
//! slug. [`matched`] reads a path in that way; the lemmas
//! [`lemmas::lemma_matched_is_grammar`] and
//! [`lemmas::lemma_grammar_is_matched`] show that it accepts the paths of the
//! grammar and no others.

pub mod lemmas;

use crate::grammar::lemmas::{lemma_grammar_is_matched, lemma_matched_is_grammar, lemma_rfind};
use crate::text::{chars_of, text_of_range};
use vstd::prelude::*;

verus! {

// ----------------------------------------------------------------------
// Alphabets
// ----------------------------------------------------------------------
/// An ASCII letter.
pub open spec fn spec_is_letter(c: char) -> bool {
    ('a' <= c <= 'z') || ('A' <= c <= 'Z')
}

#[verifier::when_used_as_spec(spec_is_letter)]
pub fn is_letter(c: char) -> (r: bool)
    ensures
        r == spec_is_letter(c),
{
    ('a' <= c && c <= 'z') || ('A' <= c && c <= 'Z')
}

/// A small ASCII letter.
pub open spec fn spec_is_small_letter(c: char) -> bool {
    'a' <= c <= 'z'
}

#[verifier::when_used_as_spec(spec_is_small_letter)]
pub fn is_small_letter(c: char) -> (r: bool)
    ensures
        r == spec_is_small_letter(c),
{
    'a' <= c && c <= 'z'
}

/// An ASCII digit.
pub open spec fn spec_is_digit(c: char) -> bool {
    '0' <= c <= '9'
}

#[verifier::when_used_as_spec(spec_is_digit)]
pub fn is_digit(c: char) -> (r: bool)
    ensures
        r == spec_is_digit(c),
{
    '0' <= c && c <= '9'
}

/// An upper-case hexadecimal digit.
pub open spec fn spec_is_upper_hex(c: char) -> bool {
    ('0' <= c <= '9') || ('A' <= c <= 'F')
}

#[verifier::when_used_as_spec(spec_is_upper_hex)]
pub fn is_upper_hex(c: char) -> (r: bool)
    ensures
        r == spec_is_upper_hex(c),
{
    ('0' <= c && c <= '9') || ('A' <= c && c <= 'F')
}

/// The characters that a segment of the path is made of.
#[derive(Clone, Copy, Debug, PartialEq, Eq)]
pub enum Alphabet {
    /// Letters: the country code.
    Country,
    /// Small letters and the dash: the service type.
    ServiceType,
    /// Letters and digits: the id.
    Id,
    /// Letters, digits, the dash and the underscore: the trailing data.
    Data,
}

/// Whether `c` is a character of `alphabet`.
pub open spec fn spec_belongs(alphabet: Alphabet, c: char) -> bool {
    match alphabet {
        Alphabet::Country => is_letter(c),
        Alphabet::ServiceType => is_small_letter(c) || c == '-',
        Alphabet::Id => is_letter(c) || is_digit(c),
        Alphabet::Data => is_letter(c) || is_digit(c) || c == '-' || c == '_',
    }
}

#[verifier::when_used_as_spec(spec_belongs)]
pub fn belongs(alphabet: Alphabet, c: char) -> (r: bool)
    ensures
        r == spec_belongs(alphabet, c),
{
    match alphabet {
        Alphabet::Country => is_letter(c),
        Alphabet::ServiceType => is_small_letter(c) || c == '-',
        Alphabet::Id => is_letter(c) || is_digit(c),
        Alphabet::Data => is_letter(c) || is_digit(c) || c == '-' || c == '_',
    }
}

/// Whether every character of `s` belongs to `alphabet`.
pub open spec fn made_of(s: Seq<char>, alphabet: Alphabet) -> bool {
    forall|i: int| 0 <= i < s.len() ==> belongs(alphabet, #[trigger] s[i])
}

// ----------------------------------------------------------------------
// Segments
// ----------------------------------------------------------------------
/// A country code: two letters.
pub open spec fn is_country_code(s: Seq<char>) -> bool {
    s.len() == 2 && made_of(s, Alphabet::Country)
}

/// A service type: three or more small letters and dashes.
pub open spec fn is_service_type(s: Seq<char>) -> bool {
    s.len() >= 3 && made_of(s, Alphabet::ServiceType)
}

/// An id: eight or more letters and digits.
pub open spec fn is_id(s: Seq<char>) -> bool {
    s.len() >= 8 && made_of(s, Alphabet::Id)
}

/// Trailing data: one or more letters, digits, dashes and underscores.
pub open spec fn is_data(s: Seq<char>) -> bool {
    s.len() >= 1 && made_of(s, Alphabet::Data)
}

/// Whether `s[from..]` can end a title. `after_token` tells whether a token
/// stands right before `from`: only then may a dash stand at `from`.
pub open spec fn title_rest(s: Seq<char>, from: int, after_token: bool) -> bool
    decreases s.len() - from,
{
    if from >= s.len() {
        true
    } else if s[from] == '-' {
        after_token && title_rest(s, from + 1, false)
    } else if is_small_letter(s[from]) || is_digit(s[from]) {
        title_rest(s, from + 1, true)
    } else if s[from] == '%' {
        from + 2 < s.len() && is_upper_hex(s[from + 1]) && is_upper_hex(s[from + 2]) && title_rest(
            s,
            from + 3,
            true,
        )
    } else {
        false
    }
}

/// A title: tokens, some of them with one dash behind, and a token first.
pub open spec fn is_title(s: Seq<char>) -> bool {
    s.len() > 0 && title_rest(s, 0, false)
}

// ----------------------------------------------------------------------
// Paths
// ----------------------------------------------------------------------
/// The segments of a path, as text.
pub struct PathParts {
    /// The two-letter code, in the case it has in the path.
    pub country: Seq<char>,
    pub service_type: Seq<char>,
    /// The title as it stands in the path, percent-encoded.
    pub title: Option<Seq<char>>,
    pub id: Seq<char>,
    pub data: Option<Seq<char>>,
}

impl PathParts {
    /// Whether each segment is what the grammar asks of it.
    pub open spec fn well_formed(self) -> bool {
        &&& is_country_code(self.country)
        &&& is_service_type(self.service_type)
        &&& (self.title matches Some(title) ==> is_title(title))
        &&& is_id(self.id)
        &&& (self.data matches Some(data) ==> is_data(data))
    }

    /// The slug segment: the title and a dash, if there is a title, and the
    /// id.
    pub open spec fn slug(self) -> Seq<char> {
        match self.title {
            Some(title) => title + seq!['-'] + self.id,
            None => self.id,
        }
    }

    /// The path that has these segments, with or without a slash at its
    /// end.
    pub open spec fn path(self, trailing_slash: bool) -> Seq<char> {
        seq!['/'] + self.country + seq!['/'] + self.service_type + seq!['/'] + self.slug() + (
        match self.data {
            Some(data) => seq!['/'] + data,
            None => Seq::empty(),
        }) + (if trailing_slash {
            seq!['/']
        } else {
            Seq::empty()
        })
    }
}

/// The index of the first `c` in `s` at or after `from`; `s.len()` if
/// there is none.
pub open spec fn find(s: Seq<char>, c: char, from: int) -> int
    decreases s.len() - from,
{
    if from >= s.len() {
        s.len() as int
    } else if s[from] == c {
        from
    } else {
        find(s, c, from + 1)
    }
}

/// The index of the last `c` in `s`; `-1` if there is none.
pub open spec fn rfind(s: Seq<char>, c: char) -> int
    decreases s.len(),
{
    if s.len() == 0 {
        -1
    } else if s.last() == c {
        s.len() - 1
    } else {
        rfind(s.drop_last(), c)
    }
}

/// The title and the id of a slug segment: the id is what follows the last
/// dash, the title what stands before it.
pub open spec fn split_slug(slug: Seq<char>) -> Option<(Option<Seq<char>>, Seq<char>)> {
    let dash = rfind(slug, '-');
    if dash < 0 {
        if is_id(slug) {
            Some((None, slug))
        } else {
            None
        }
    } else {
        let title = slug.take(dash);
        let id = slug.skip(dash + 1);
        if is_title(title) && is_id(id) {
            Some((Some(title), id))
        } else {
            None
        }
    }
}

/// The segments of `path`, if it matches the grammar.
pub open spec fn matched(path: Seq<char>) -> Option<PathParts> {
    let a = find(path, '/', 1);
    let b = find(path, '/', a + 1);
    let c = find(path, '/', b + 1);
    let d = find(path, '/', c + 1);
    let country = path.subrange(1, a);
    let service_type = path.subrange(a + 1, b);
    let slug = path.subrange(b + 1, c);
    let data = path.subrange(c + 1, d);
    if path.len() == 0 || path[0] != '/' || a >= path.len() || b >= path.len() {
        None
    } else if !is_country_code(country) || !is_service_type(service_type) {
        None
    } else {
        match split_slug(slug) {
            None => None,
            Some((title, id)) => {
                if c == path.len() || c + 1 == path.len() {
                    Some(PathParts { country, service_type, title, id, data: None })
                } else if is_data(data) && (d == path.len() || d + 1 == path.len()) {
                    Some(PathParts { country, service_type, title, id, data: Some(data) })
                } else {
                    None
                }
            },
        }
    }
}

// ----------------------------------------------------------------------
// The matcher
// ----------------------------------------------------------------------
/// The segments of a path that matches the grammar.
#[derive(Debug, Clone, PartialEq, Eq)]
pub struct PathFields {
    pub country: String,
    pub service_type: String,
    pub title: Option<String>,
    pub id: String,
    pub data: Option<String>,
}

impl View for PathFields {
    type V = PathParts;

    open spec fn view(&self) -> PathParts {
        PathParts {
            country: self.country@,
            service_type: self.service_type@,
            title: match self.title {
                Some(title) => Some(title@),
                None => None,
            },
            id: self.id@,
            data: match self.data {
                Some(data) => Some(data@),
                None => None,
            },
        }
    }
}

/// The index of the first `c` in `chars` at or after `from`.
fn find_from(chars: &Vec<char>, c: char, from: usize) -> (r: usize)
    requires
        from <= chars.len(),
    ensures
        r == find(chars@, c, from as int),
        from <= r <= chars.len(),
{
    let mut i: usize = from;
    while i < chars.len() && chars[i] != c
        invariant
            from <= i <= chars.len(),
            find(chars@, c, from as int) == find(chars@, c, i as int),
        decreases chars.len() - i,
    {
        i += 1;
    }
    i
}

/// The place of the last dash in `chars[from..to]`, counted from `from`.
fn last_dash(chars: &Vec<char>, from: usize, to: usize) -> (r: Option<usize>)
    requires
        from <= to <= chars.len(),
    ensures
        match r {
            Some(k) => rfind(chars@.subrange(from as int, to as int), '-') == k,
            None => rfind(chars@.subrange(from as int, to as int), '-') == -1,
        },
{
    let ghost s = chars@.subrange(from as int, to as int);
    let mut j: usize = to;
    assert(s.take(s.len() as int) =~= s);
    while j > from && chars[j - 1] != '-'
        invariant
            from <= j <= to <= chars.len(),
            s == chars@.subrange(from as int, to as int),
            rfind(s, '-') == rfind(s.take(j - from), '-'),
        decreases j,
    {
        proof {
            assert(s.take(j - from).drop_last() =~= s.take(j - from - 1));
        }
        j -= 1;
    }
    if j > from {
        Some(j - 1 - from)
    } else {
        None
    }
}

/// Whether `chars[from..to]` is made of characters of `alphabet`.
fn span_made_of(chars: &Vec<char>, from: usize, to: usize, alphabet: Alphabet) -> (r: bool)
    requires
        from <= to <= chars.len(),
    ensures
        r == made_of(chars@.subrange(from as int, to as int), alphabet),
{
    let ghost s = chars@.subrange(from as int, to as int);
    let mut i: usize = from;
    while i < to
        invariant
            from <= i <= to <= chars.len(),
            s == chars@.subrange(from as int, to as int),
            forall|k: int| 0 <= k < i - from ==> belongs(alphabet, #[trigger] s[k]),
        decreases to - i,
    {
        if !belongs(alphabet, chars[i]) {
            assert(!belongs(alphabet, s[i - from]));
            return false;
        }
        i += 1;
    }
    true
}

/// Whether `chars[from..to]` is a title.
fn span_is_title(chars: &Vec<char>, from: usize, to: usize) -> (r: bool)
    requires
        from <= to <= chars.len(),
    ensures
        r == is_title(chars@.subrange(from as int, to as int)),
{
    let ghost s = chars@.subrange(from as int, to as int);
    if from == to {
        return false;
    }
    let mut i: usize = from;
    let mut after_token = false;
    while i < to
        invariant
            from <= i <= to <= chars.len(),
            s == chars@.subrange(from as int, to as int),
            title_rest(s, 0, false) == title_rest(s, i - from, after_token),
        decreases to - i,
    {
        let c = chars[i];
        assert(s[i - from] == c);
        if c == '-' {
            if !after_token {
                return false;
            }
            after_token = false;
            i += 1;
        } else if is_small_letter(c) || is_digit(c) {
            after_token = true;
            i += 1;
        } else if c == '%' {
            if to - i < 3 {
                return false;
            }
            assert(s[i - from + 1] == chars@[i + 1] && s[i - from + 2] == chars@[i + 2]);
            if !is_upper_hex(chars[i + 1]) || !is_upper_hex(chars[i + 2]) {
                return false;
            }
            after_token = true;
            i += 3;
        } else {
            return false;
        }
    }
    true
}

/// Where the id starts in the slug `chars[from..to]`, if the slug is one.
/// The id starts at `from` where the slug has no title.
fn id_start(chars: &Vec<char>, from: usize, to: usize) -> (r: Option<usize>)
    requires
        from <= to <= chars.len(),
    ensures
        match r {
            Some(k) => from <= k <= to && split_slug(chars@.subrange(from as int, to as int))
                == Some(
                (
                    if k == from {
                        None
                    } else {
                        Some(chars@.subrange(from as int, k - 1))
                    },
                    chars@.subrange(k as int, to as int),
                ),
            ),
            None => split_slug(chars@.subrange(from as int, to as int)) is None,
        },
{
    let ghost s = chars@.subrange(from as int, to as int);
    match last_dash(chars, from, to) {
        None => {
            if to - from >= 8 && span_made_of(chars, from, to, Alphabet::Id) {
                Some(from)
            } else {
                None
            }
        },
        Some(dash) => {
            proof {
                lemma_rfind(s, '-');
                assert(s.take(dash as int) =~= chars@.subrange(from as int, from + dash));
                assert(s.skip(dash + 1) =~= chars@.subrange(from + dash + 1, to as int));
            }
            let start = from + dash + 1;
            if span_is_title(chars, from, from + dash) && to - start >= 8 && span_made_of(
                chars,
                start,
                to,
                Alphabet::Id,
            ) {
                Some(start)
            } else {
                None
            }
        },
    }
}

/// Matches `path` against the grammar and gives its segments, or `None`
/// where it does not match.
///
/// The segments that come back are well formed, and `path` is written
/// from them; where nothing comes back, `path` is written from no
/// well-formed segments.
pub fn match_path(path: &str) -> (r: Option<PathFields>)
    ensures
        match r {
            Some(fields) => matched(path@) == Some(fields@),
            None => matched(path@) is None,
        },
        r matches Some(fields) ==> fields@.well_formed() && (path@ == fields@.path(false) || path@
            == fields@.path(true)),
        r is None ==> forall|parts: PathParts, trailing_slash: bool|
            parts.well_formed() ==> #[trigger] parts.path(trailing_slash) != path@,
{
    proof {
        if matched(path@) is None {
            assert forall|parts: PathParts, trailing_slash: bool|
                parts.well_formed() implies #[trigger] parts.path(trailing_slash) != path@ by {
                lemma_grammar_is_matched(parts, trailing_slash);
            }
        } else {
            lemma_matched_is_grammar(path@);
        }
    }
    let chars = chars_of(path);
    let n = chars.len();
    if n == 0 || chars[0] != '/' {
        return None;
    }
    let a = find_from(&chars, '/', 1);
    if a >= n {
        return None;
    }
    let b = find_from(&chars, '/', a + 1);
    if b >= n {
        return None;
    }
    let c = find_from(&chars, '/', b + 1);
    if a != 3 || !span_made_of(&chars, 1, a, Alphabet::Country) {
        return None;
    }
    if b - a < 4 || !span_made_of(&chars, a + 1, b, Alphabet::ServiceType) {
        return None;
    }
    let start = match id_start(&chars, b + 1, c) {
        None => {
            return None;
        },
        Some(start) => start,
    };
    let mut data: Option<String> = None;
    if c < n && c + 1 < n {
        let d = find_from(&chars, '/', c + 1);
        if d == c + 1 || !span_made_of(&chars, c + 1, d, Alphabet::Data) {
            return None;
        }
        if d < n && d + 1 < n {
            return None;
        }
        data = Some(text_of_range(&chars, c + 1, d));
    }
    let title = if start == b + 1 {
        None
    } else {
        Some(text_of_range(&chars, b + 1, start - 1))
    };
    Some(
        PathFields {
            country: text_of_range(&chars, 1, a),
            service_type: text_of_range(&chars, a + 1, b),
            title,
            id: text_of_range(&chars, start, c),
            data,
        },
    )
}

} // verus!
