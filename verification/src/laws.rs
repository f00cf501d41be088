//! What holds of parsing and writing together.
//!
//! The laws speak of [`parsed`], which takes the origin and the path of a
//! URL. How the `url` crate reads a string as origin and path is not known
//! here; where a law speaks of a string, it says what holds if that crate
//! reads the string as the origin and the path it was written from.

use crate::cjk_slug::lemmas::{
    is_alnum, lemma_lowercase_id, lemma_slug_with_id, lemma_slugify_shape,
};
use crate::cjk_slug::{is_slug, is_slug_char, lowercase, no_double_dash, slugify_spec};
use crate::error::Failure;
use crate::grammar::lemmas::{lemma_grammar_is_matched, lemma_title_append, title_end};
use crate::grammar::{
    belongs, is_country_code, is_title, made_of, matched, title_rest, Alphabet, PathParts,
};
use crate::percent::{
    encoded_bytes, escape, is_plain, lemma_bytes_of_non_ascii, lemma_percent_encoded_concat,
    lemma_percent_encoded_plain, lemma_percent_round_trip, percent_encoded,
};
use crate::permalink::{parsed, parsed_str, url_parts, PermalinkView};
use crate::registry::{
    country_from_code, country_from_origin, lemma_code_names_country,
    lemma_neutral_origin_names_none, lemma_origin_names_country, neutral_origin,
    WellKnownCountry,
};
use vstd::prelude::*;
use vstd::utf8::*;

verus! {

// ----------------------------------------------------------------------
// The country
// ----------------------------------------------------------------------
/// The country of a well-known origin wins: where the origin belongs to a
/// country, a permalink that parses has that country, whatever code its
/// path holds, and parsing never fails for an unknown country.
pub proof fn lemma_origin_wins(origin: Seq<char>, path: Seq<char>, country: WellKnownCountry)
    requires
        country_from_origin(origin) == Some(country),
    ensures
        parsed(origin, path) matches Ok(permalink) ==> permalink.country == country,
        !(parsed(origin, path) matches Err(Failure::UnknownCountry(_))),
{
}

/// An unknown country fails explicitly: where the origin belongs to no
/// country and the path matches the grammar with a code that names none,
/// parsing fails with `UnknownCountry` and that code.
pub proof fn lemma_unknown_country_fails(origin: Seq<char>, path: Seq<char>)
    requires
        country_from_origin(origin) is None,
        matched(path) is Some,
        country_from_code(matched(path)->0.country) is None,
    ensures
        parsed(origin, path) == Err::<PermalinkView, Failure>(
            Failure::UnknownCountry(matched(path)->0.country),
        ),
{
}

// ----------------------------------------------------------------------
// The short form
// ----------------------------------------------------------------------
/// The record that the short form stands for: `permalink` without title
/// and data.
pub open spec fn bare(permalink: PermalinkView) -> PermalinkView {
    PermalinkView {
        country: permalink.country,
        language: permalink.language,
        service_type: permalink.service_type,
        title: None,
        id: permalink.id,
        data: None,
    }
}

/// The code of a country is a country segment of the grammar.
proof fn lemma_code_is_segment(country: WellKnownCountry)
    ensures
        is_country_code(country.spec_code()),
{
    lemma_code_names_country(country);
    let code = country.spec_code();
    assert forall|i: int| 0 <= i < code.len() implies belongs(
        Alphabet::Country,
        #[trigger] code[i],
    ) by {
        assert('a' <= code[i] <= 'z');
    }
    assert(made_of(code, Alphabet::Country));
}

/// Parsing the short form gives the record back, without title and data.
///
/// The short form of a well-formed record is the country-neutral origin
/// and the short path; parsing these gives the record's country, language,
/// service type and id, and neither title nor data.
pub proof fn lemma_parse_of_normalized(permalink: PermalinkView)
    requires
        permalink.well_formed(),
    ensures
        permalink.normalized() == neutral_origin() + permalink.short_path(),
        parsed(neutral_origin(), permalink.short_path()) == Ok::<PermalinkView, Failure>(
            bare(permalink),
        ),
        url_parts(permalink.normalized()) == Some((neutral_origin(), permalink.short_path()))
            ==> parsed_str(permalink.normalized()) == Ok::<PermalinkView, Failure>(
            bare(permalink),
        ),
{
    let parts = PathParts {
        country: permalink.country.spec_code(),
        service_type: permalink.service_type,
        title: None,
        id: permalink.id,
        data: None,
    };
    lemma_code_is_segment(permalink.country);
    lemma_code_names_country(permalink.country);
    lemma_grammar_is_matched(parts, true);
    assert(parts.path(true) =~= permalink.short_path());
    lemma_neutral_origin_names_none();
}

// ----------------------------------------------------------------------
// The long form
// ----------------------------------------------------------------------
/// The escapes of bytes with the high bit set are tokens of a title.
proof fn lemma_escapes_are_tokens(bytes: Seq<u8>, after_token: bool)
    requires
        forall|i: int| 0 <= i < bytes.len() ==> #[trigger] bytes[i] >= 0x80,
    ensures
        title_rest(encoded_bytes(bytes), 0, after_token),
        bytes.len() > 0 ==> title_end(encoded_bytes(bytes), 0, after_token),
        bytes.len() > 0 ==> encoded_bytes(bytes).len() > 0,
    decreases bytes.len(),
{
    if bytes.len() > 0 {
        let init = bytes.drop_last();
        let b = bytes.last();
        assert(b == bytes[bytes.len() - 1] && b >= 0x80);
        assert forall|i: int| 0 <= i < init.len() implies #[trigger] init[i] >= 0x80 by {
            assert(init[i] == bytes[i]);
        }
        lemma_escapes_are_tokens(init, after_token);
        let unit = escape(b);
        lemma_title_append(encoded_bytes(init), unit, 0, after_token);
        let before = title_end(encoded_bytes(init), 0, after_token);
        assert(title_rest(unit, 3, true));
        assert(title_rest(unit, 0, before));
        assert(title_end(unit, 3, true));
        assert(title_end(unit, 0, before));
    }
}

/// The encoding of a slug is made of tokens and single dashes, with a
/// token first: it is a title, if the slug is not empty.
proof fn lemma_encoded_slug_is_title(slug: Seq<char>)
    requires
        forall|i: int| 0 <= i < slug.len() ==> is_slug_char(#[trigger] slug[i]),
        no_double_dash(slug),
        slug.len() > 0 ==> slug[0] != '-',
    ensures
        title_rest(percent_encoded(slug), 0, false),
        title_end(percent_encoded(slug), 0, false) == (slug.len() > 0 && slug.last() != '-'),
        slug.len() > 0 ==> percent_encoded(slug).len() > 0,
    decreases slug.len(),
{
    if slug.len() == 0 {
        assert(percent_encoded(slug) =~= Seq::<char>::empty());
    } else {
        let init = slug.drop_last();
        let c = slug.last();
        assert(c == slug[slug.len() - 1] && is_slug_char(c));
        assert forall|i: int| 0 <= i < init.len() implies is_slug_char(#[trigger] init[i]) by {
            assert(init[i] == slug[i]);
        }
        assert forall|i: int, j: int| 0 <= i && j == i + 1 && j < init.len() implies !(
        #[trigger] init[i] == '-' && #[trigger] init[j] == '-') by {
            assert(init[i] == slug[i] && init[j] == slug[j]);
        }
        if init.len() > 0 {
            assert(init[0] == slug[0]);
        }
        lemma_encoded_slug_is_title(init);
        let one = seq![c];
        assert(slug =~= init + one);
        lemma_percent_encoded_concat(init, one);
        let head = percent_encoded(init);
        let unit = percent_encoded(one);
        lemma_title_append(head, unit, 0, false);
        let before = title_end(head, 0, false);
        if c <= '\u{7f}' {
            assert(is_plain(one[0]));
            lemma_percent_encoded_plain(one);
            assert(unit == one);
            if c == '-' {
                assert(init.len() > 0);
                assert(!(slug[slug.len() - 2] == '-' && slug[slug.len() - 1] == '-'));
                assert(init.last() == slug[slug.len() - 2]);
                assert(before);
            }
            assert(title_rest(unit, 1, c != '-'));
            assert(title_rest(unit, 0, before));
            assert(title_end(unit, 1, c != '-') == (c != '-'));
            assert(title_end(unit, 0, before) == (c != '-'));
        } else {
            let bytes = encode_scalar(c as u32);
            lemma_bytes_of_non_ascii(c);
            assert(one.drop_first() =~= Seq::<char>::empty());
            assert(encode_utf8(Seq::<char>::empty()) =~= Seq::<u8>::empty());
            assert(encode_utf8(one) =~= bytes);
            lemma_escapes_are_tokens(bytes, before);
        }
    }
}

/// The record that the long form for a title stands for: `permalink` with
/// the slug of the title for its title, or without title where that slug
/// is empty, with its id in lowercase, and without data.
pub open spec fn retitled(permalink: PermalinkView, title: Seq<char>) -> PermalinkView {
    PermalinkView {
        country: permalink.country,
        language: permalink.language,
        service_type: permalink.service_type,
        title: if slugify_spec(title).len() == 0 {
            None
        } else {
            Some(slugify_spec(title))
        },
        id: lowercase(permalink.id),
        data: None,
    }
}

/// Whether `id` holds no capital letter.
pub open spec fn has_no_capital(id: Seq<char>) -> bool {
    forall|i: int| 0 <= i < id.len() ==> !('A' <= #[trigger] id[i] <= 'Z')
}

/// Parsing the long form gives the record back, with the slug of the
/// title.
///
/// The long form of a well-formed record for a title is the country's own
/// origin and the long path; parsing these gives the record's country,
/// language and service type, the slug of the title for its title, the
/// record's id in lowercase, and no data.
///
/// The id comes back as it was where it has no capital letter. A capital
/// does not come back: the slug of the long form, of which the id is the
/// end, is lowercase.
pub proof fn lemma_parse_of_canonicalized(permalink: PermalinkView, title: Seq<char>)
    requires
        permalink.well_formed(),
    ensures
        permalink.canonicalized(title) == permalink.country.spec_origin() + permalink.long_path(
            title,
        ),
        parsed(permalink.country.spec_origin(), permalink.long_path(title)) == Ok::<
            PermalinkView,
            Failure,
        >(retitled(permalink, title)),
        has_no_capital(permalink.id) ==> retitled(permalink, title).id == permalink.id,
        url_parts(permalink.canonicalized(title)) == Some(
            (permalink.country.spec_origin(), permalink.long_path(title)),
        ) ==> parsed_str(permalink.canonicalized(title)) == Ok::<PermalinkView, Failure>(
            retitled(permalink, title),
        ),
{
    let id = lowercase(permalink.id);
    let dash = seq!['-'];
    let slug = slugify_spec(title);
    assert forall|i: int| 0 <= i < permalink.id.len() implies is_alnum(
        #[trigger] permalink.id[i],
    ) by {
        assert(belongs(Alphabet::Id, permalink.id[i]));
    }
    lemma_lowercase_id(permalink.id);
    assert forall|i: int| 0 <= i < id.len() implies belongs(Alphabet::Id, #[trigger] id[i])
        && is_plain(id[i]) by {
        assert(('a' <= id[i] <= 'z') || ('0' <= id[i] <= '9'));
    }
    assert(made_of(id, Alphabet::Id));
    lemma_slug_with_id(title, permalink.id);
    lemma_slugify_shape(title);
    assert(is_slug(slug));
    lemma_percent_encoded_plain(id);
    lemma_code_is_segment(permalink.country);
    lemma_origin_names_country(permalink.country);
    if slug.len() == 0 {
        let parts = PathParts {
            country: permalink.country.spec_code(),
            service_type: permalink.service_type,
            title: None,
            id,
            data: None,
        };
        lemma_grammar_is_matched(parts, true);
        assert(parts.path(true) =~= permalink.long_path(title));
    } else {
        let encoded = percent_encoded(slug);
        assert(is_plain(dash[0]));
        lemma_percent_encoded_plain(dash);
        lemma_percent_encoded_concat(slug, dash);
        lemma_percent_encoded_concat(slug + dash, id);
        assert(percent_encoded(slug + dash + id) == encoded + dash + id);
        lemma_encoded_slug_is_title(slug);
        assert(is_title(encoded));
        lemma_percent_round_trip(slug);
        let parts = PathParts {
            country: permalink.country.spec_code(),
            service_type: permalink.service_type,
            title: Some(encoded),
            id,
            data: None,
        };
        lemma_grammar_is_matched(parts, true);
        assert(parts.path(true) =~= permalink.long_path(title));
    }
}

} // verus!
