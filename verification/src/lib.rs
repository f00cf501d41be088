//! Parsing, validation and canonicalisation of permalink URLs, and
//! Unicode-aware slugs for their titles.
//!
//! A permalink URL is parsed to a [`Permalink`] record, and a record is
//! written back as one of two canonical URLs: the short one
//! ([`normalize`]) and the long one with the slug of a title
//! ([`canonicalize`]).
//!
//! - [`cjk_slug`] makes slugs;
//! - [`registry`] knows countries, languages and origins;
//! - [`grammar`] matches the path of a permalink;
//! - [`percent`] percent-encodes slugs and percent-decodes titles;
//! - [`permalink`] parses and writes permalinks;
//! - [`laws`] relates parsing and writing.

pub mod cjk_slug;
pub mod error;
pub mod grammar;
pub mod laws;
pub mod percent;
pub mod permalink;
pub mod registry;
pub mod text;

pub use crate::cjk_slug::slugify;
pub use crate::error::PermalinkError;
pub use crate::permalink::{Permalink, UrlParts};
pub use crate::registry::{
    normalize_origin, well_known_country_from_origin, well_known_language_from_country,
    well_known_origin_from_country, WellKnownCountry, WellKnownLanguage,
};

use crate::permalink::{outcome, parsed_str};
use vstd::prelude::*;

verus! {

/// Parses a URL string to a permalink.
pub fn parse(url_like: String) -> (r: Result<Permalink, PermalinkError>)
    ensures
        outcome(r) == parsed_str(url_like@),
        r matches Ok(permalink) ==> permalink@.well_formed(),
{
    Permalink::parse_str(url_like.as_str())
}

/// The short canonical URL of a permalink.
pub fn normalize(permalink: Permalink) -> (r: String)
    ensures
        r@ == permalink@.normalized(),
{
    permalink.normalize()
}

/// The long canonical URL of a permalink for a title.
pub fn canonicalize(permalink: Permalink, title: String) -> (r: String)
    ensures
        r@ == permalink@.canonicalized(title@),
{
    permalink.canonicalize(title.as_str())
}

} // verus!
