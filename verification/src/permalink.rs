//! Permalinks: the record that a permalink URL parses to, and the two
//! canonical URLs that are written from a record.
//!
//! Reading a URL string as a URL is the `url` crate's work. What this
//! module reads of a URL is its origin and its path ([`UrlParts`]); how the
//! `url` crate gets them from a string is only named here ([`url_parts`]).

use crate::cjk_slug::{slugify, slugify_spec};
use crate::error::{Failure, PermalinkError};
use crate::grammar::{is_data, is_id, is_service_type, match_path, matched};
use crate::percent::{decoded_text, percent_decode, percent_encode, percent_encoded};
use crate::registry::{
    country_from_code,
    country_from_origin,
    neutral_origin,
    spec_language_from_country,
    well_known_country_from_origin,
    well_known_language_from_country,
    WellKnownCountry,
    WellKnownLanguage,
};
use vstd::prelude::*;

verus! {

/// What a permalink is read from: the origin of a URL in its ASCII
/// serialisation (scheme, host, and the port where it is not the scheme's
/// default), and the URL's percent-encoded path.
#[derive(Debug, Clone, PartialEq, Eq)]
pub struct UrlParts {
    pub origin: String,
    pub path: String,
}

/// The origin and the path that the `url` crate reads from `input`, in
/// this order; `None` where it does not accept `input` as an absolute URL.
pub uninterp spec fn url_parts(input: Seq<char>) -> Option<(Seq<char>, Seq<char>)>;

/// Calls `Url::parse` on `input` and, on the URL it returns,
/// `Url::origin` with `Origin::ascii_serialization`, and `Url::path`.
///
/// Trusted: all of these are functions of `input` alone, so that their
/// results can bear a name. Nothing else is claimed of them.
#[verifier::external_body]
fn split_url(input: &str) -> (r: Result<UrlParts, url::ParseError>)
    ensures
        match r {
            Ok(parts) => url_parts(input@) == Some((parts.origin@, parts.path@)),
            Err(_) => url_parts(input@) is None,
        },
{
    let url = url::Url::parse(input)?;
    Ok(UrlParts { origin: url.origin().ascii_serialization(), path: url.path().to_string() })
}

/// A parsed permalink.
#[derive(Debug, Clone, PartialEq, Eq)]
pub struct Permalink {
    /// The country that owns the resource.
    pub country: WellKnownCountry,
    /// The default language of `country`; never set on its own.
    pub language: WellKnownLanguage,
    /// The category of the resource, such as `app`.
    pub service_type: String,
    /// The decoded title, where the path had one before the id.
    pub title: Option<String>,
    /// What identifies the resource within its category.
    pub id: String,
    /// The trailing segment of the path, as it stood there.
    pub data: Option<String>,
}

/// A [`Permalink`] as contracts speak of it.
pub struct PermalinkView {
    pub country: WellKnownCountry,
    pub language: WellKnownLanguage,
    pub service_type: Seq<char>,
    pub title: Option<Seq<char>>,
    pub id: Seq<char>,
    pub data: Option<Seq<char>>,
}

impl View for Permalink {
    type V = PermalinkView;

    open spec fn view(&self) -> PermalinkView {
        PermalinkView {
            country: self.country,
            language: self.language,
            service_type: self.service_type@,
            title: match self.title {
                Some(title) => Some(title@),
                None => None,
            },
            id: self.id@,
            data: match self.data {
                Some(data) => Some(data@),
                None => None,
            },
        }
    }
}

impl PermalinkView {
    /// What holds of every record that parsing gives: the language is the
    /// country's, and the service type, the id and the data are segments of
    /// the grammar.
    pub open spec fn well_formed(self) -> bool {
        &&& self.language == spec_language_from_country(self.country)
        &&& is_service_type(self.service_type)
        &&& is_id(self.id)
        &&& (self.data matches Some(data) ==> is_data(data))
    }

    /// The path of the short form: country, service type and id.
    pub open spec fn short_path(self) -> Seq<char> {
        seq!['/'] + self.country.spec_code() + seq!['/'] + self.service_type + seq!['/'] + self.id
            + seq!['/']
    }

    /// The short canonical URL: the short path on the country-neutral
    /// origin. Title and data are left out.
    pub open spec fn normalized(self) -> Seq<char> {
        neutral_origin() + self.short_path()
    }

    /// The slug of the long form for `title`: the slug of the title, a
    /// dash and the id.
    pub open spec fn slug(self, title: Seq<char>) -> Seq<char> {
        slugify_spec(title + seq!['-'] + self.id)
    }

    /// The path of the long form: country, service type and the
    /// percent-encoded slug.
    pub open spec fn long_path(self, title: Seq<char>) -> Seq<char> {
        seq!['/'] + self.country.spec_code() + seq!['/'] + self.service_type + seq!['/']
            + percent_encoded(self.slug(title)) + seq!['/']
    }

    /// The long canonical URL: the long path on the country's own origin.
    pub open spec fn canonicalized(self, title: Seq<char>) -> Seq<char> {
        self.country.spec_origin() + self.long_path(title)
    }
}

/// What parsing gives for a URL with the given origin and path.
///
/// A path that does not match the grammar is no permalink. The country is
/// that of the origin where the origin belongs to one, whatever code the
/// path holds; else that of the path's code, and an unknown code is an
/// error that carries the code. A title whose percent-decoded bytes are not
/// well-formed UTF-8 is no permalink either.
pub open spec fn parsed(origin: Seq<char>, path: Seq<char>) -> Result<PermalinkView, Failure> {
    match matched(path) {
        None => Err(Failure::InvalidPermalink),
        Some(parts) => {
            let country = match country_from_origin(origin) {
                Some(country) => Some(country),
                None => country_from_code(parts.country),
            };
            let title = match parts.title {
                Some(raw) => decoded_text(raw),
                None => None,
            };
            if country is None {
                Err(Failure::UnknownCountry(parts.country))
            } else if parts.title is Some && title is None {
                Err(Failure::InvalidPermalink)
            } else {
                Ok(
                    PermalinkView {
                        country: country->0,
                        language: spec_language_from_country(country->0),
                        service_type: parts.service_type,
                        title,
                        id: parts.id,
                        data: parts.data,
                    },
                )
            }
        },
    }
}

/// What parsing gives for a string: what [`parsed`] gives for the origin
/// and the path that the `url` crate reads from it, and `InvalidUrl` where
/// that crate rejects the string.
pub open spec fn parsed_str(input: Seq<char>) -> Result<PermalinkView, Failure> {
    match url_parts(input) {
        Some((origin, path)) => parsed(origin, path),
        None => Err(Failure::InvalidUrl),
    }
}

/// The result of a parse as contracts speak of it.
pub open spec fn outcome(r: Result<Permalink, PermalinkError>) -> Result<PermalinkView, Failure> {
    match r {
        Ok(permalink) => Ok(permalink@),
        Err(error) => Err(error@),
    }
}

impl Permalink {
    /// Parses a URL string.
    ///
    /// Fails with `InvalidUrl` where the string is no absolute URL, and
    /// else as [`Permalink::parse_url`] does.
    pub fn parse_str(url_like: &str) -> (r: Result<Permalink, PermalinkError>)
        ensures
            outcome(r) == parsed_str(url_like@),
            r matches Ok(permalink) ==> permalink@.well_formed(),
    {
        match split_url(url_like) {
            Ok(parts) => Permalink::parse_url(parts),
            Err(error) => Err(PermalinkError::InvalidUrl(error)),
        }
    }

    /// Parses the origin and the path of a URL.
    ///
    /// Fails with `InvalidPermalink` where the path does not match the
    /// grammar or its title does not decode to UTF-8, and with
    /// `UnknownCountry` where neither the origin nor the path's code names
    /// a supported country.
    pub fn parse_url(url: UrlParts) -> (r: Result<Permalink, PermalinkError>)
        ensures
            outcome(r) == parsed(url.origin@, url.path@),
            r matches Ok(permalink) ==> permalink@.well_formed(),
    {
        let fields = match match_path(url.path.as_str()) {
            None => {
                return Err(PermalinkError::InvalidPermalink);
            },
            Some(fields) => fields,
        };
        let country = match well_known_country_from_origin(url.origin) {
            Some(country) => country,
            None => match WellKnownCountry::from_str(fields.country.as_str()) {
                Ok(country) => country,
                Err(error) => {
                    return Err(error);
                },
            },
        };
        let title = match fields.title {
            None => None,
            Some(raw) => match percent_decode(raw.as_str()) {
                None => {
                    return Err(PermalinkError::InvalidPermalink);
                },
                Some(title) => Some(title),
            },
        };
        Ok(
            Permalink {
                country,
                language: well_known_language_from_country(country),
                service_type: fields.service_type,
                title,
                id: fields.id,
                data: fields.data,
            },
        )
    }

    /// The code of the record's language.
    pub fn default_language(&self) -> (r: String)
        ensures
            r@ == self.language.spec_code(),
    {
        String::from_str(self.language.code())
    }

    /// The short canonical URL of the record:
    /// `https://www.karrotmarket.com/{country}/{service_type}/{id}/`.
    pub fn normalize(&self) -> (r: String)
        ensures
            r@ == self@.normalized(),
    {
        let mut out = String::from_str("https://www.karrotmarket.com");
        out.push('/');
        out.append(self.country.code());
        out.push('/');
        out.append(self.service_type.as_str());
        out.push('/');
        out.append(self.id.as_str());
        out.push('/');
        assert(out@ =~= self@.normalized());
        out
    }

    /// The long canonical URL of the record for a title:
    /// `{origin}/{country}/{service_type}/{slug}/`, on the country's own
    /// origin, with the percent-encoded slug of `title`, a dash and the id.
    pub fn canonicalize(&self, title: &str) -> (r: String)
        ensures
            r@ == self@.canonicalized(title@),
    {
        let mut named = String::from_str(title);
        named.push('-');
        named.append(self.id.as_str());
        assert(named@ =~= title@ + seq!['-'] + self.id@);
        let slug = slugify(named.as_str());
        let encoded = percent_encode(slug.as_str());
        let mut out = String::from_str(self.country.origin());
        out.push('/');
        out.append(self.country.code());
        out.push('/');
        out.append(self.service_type.as_str());
        out.push('/');
        out.append(encoded.as_str());
        out.push('/');
        assert(out@ =~= self@.canonicalized(title@));
        out
    }
}

} // verus!
