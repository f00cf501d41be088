//! The registry of countries, languages and well-known origins.
//!
//! Every table is a `match`: a country has one two-letter code, one default
//! language and one public origin, and these never change at run time.
//! Looking up an unknown code or origin finds nothing; no country is ever
//! guessed.

use crate::error::PermalinkError;
use crate::text::{chars_of, same_text};
use vstd::prelude::*;

verus! {

/// A country that the platform serves.
#[derive(Debug, Clone, Copy, PartialEq, Eq, Structural)]
pub enum WellKnownCountry {
    CA,
    JP,
    KR,
    UK,
    US,
}

/// A language that the platform speaks.
#[derive(Debug, Clone, Copy, PartialEq, Eq, Structural)]
pub enum WellKnownLanguage {
    EN,
    JA,
    KO,
}

/// The country-neutral origin, on which short links live. It belongs to no
/// country.
pub open spec fn neutral_origin() -> Seq<char> {
    "https://www.karrotmarket.com"@
}

/// An ASCII capital as its small letter; any other character as itself.
pub open spec fn spec_ascii_lower(c: char) -> char {
    if 'A' <= c <= 'Z' {
        ((c as u32) + 32) as char
    } else {
        c
    }
}

#[verifier::when_used_as_spec(spec_ascii_lower)]
pub fn ascii_lower(c: char) -> (r: char)
    ensures
        r == spec_ascii_lower(c),
{
    if 'A' <= c && c <= 'Z' {
        let b: u8 = c as u8;
        (b + 32) as char
    } else {
        c
    }
}

/// `s` with its ASCII capitals as small letters.
pub open spec fn ascii_lowercase(s: Seq<char>) -> Seq<char> {
    Seq::new(s.len(), |i: int| ascii_lower(s[i]))
}

/// The country with the two-letter code `code`, whatever the case of its
/// letters.
pub open spec fn country_from_code(code: Seq<char>) -> Option<WellKnownCountry> {
    let small = ascii_lowercase(code);
    if small == "ca"@ {
        Some(WellKnownCountry::CA)
    } else if small == "jp"@ {
        Some(WellKnownCountry::JP)
    } else if small == "kr"@ {
        Some(WellKnownCountry::KR)
    } else if small == "uk"@ {
        Some(WellKnownCountry::UK)
    } else if small == "us"@ {
        Some(WellKnownCountry::US)
    } else {
        None
    }
}

/// `origin` with the two bare-domain aliases replaced by the origins they
/// stand for.
pub open spec fn spec_normalize_origin(origin: Seq<char>) -> Seq<char> {
    if origin == "https://daangn.com"@ {
        "https://www.daangn.com"@
    } else if origin == "https://karrotmarket.com"@ {
        "https://www.karrotmarket.com"@
    } else {
        origin
    }
}

/// The country that owns `origin`, if it is a well-known origin of one
/// country. The country-neutral origin and every unknown origin own none.
pub open spec fn country_from_origin(origin: Seq<char>) -> Option<WellKnownCountry> {
    let canonical = spec_normalize_origin(origin);
    if canonical == "https://www.daangn.com"@ {
        Some(WellKnownCountry::KR)
    } else if canonical == "https://ca.karrotmarket.com"@ {
        Some(WellKnownCountry::CA)
    } else if canonical == "https://jp.karrotmarket.com"@ {
        Some(WellKnownCountry::JP)
    } else if canonical == "https://uk.karrotmarket.com"@ {
        Some(WellKnownCountry::UK)
    } else if canonical == "https://us.karrotmarket.com"@ {
        Some(WellKnownCountry::US)
    } else if canonical == "https://kr.karrotmarket.com"@ {
        Some(WellKnownCountry::KR)
    } else {
        None
    }
}

/// The default language of a country.
pub open spec fn spec_language_from_country(country: WellKnownCountry) -> WellKnownLanguage {
    match country {
        WellKnownCountry::CA => WellKnownLanguage::EN,
        WellKnownCountry::JP => WellKnownLanguage::JA,
        WellKnownCountry::KR => WellKnownLanguage::KO,
        WellKnownCountry::UK => WellKnownLanguage::EN,
        WellKnownCountry::US => WellKnownLanguage::EN,
    }
}

impl From<WellKnownCountry> for WellKnownLanguage {
    /// The default language of a country.
    fn from(country: WellKnownCountry) -> (language: WellKnownLanguage) {
        well_known_language_from_country(country)
    }
}

impl vstd::std_specs::convert::FromSpecImpl<WellKnownCountry> for WellKnownLanguage {
    open spec fn obeys_from_spec() -> bool {
        true
    }

    open spec fn from_spec(country: WellKnownCountry) -> WellKnownLanguage {
        spec_language_from_country(country)
    }
}

impl WellKnownLanguage {
    /// The two-letter code of the language.
    pub open spec fn spec_code(self) -> Seq<char> {
        match self {
            WellKnownLanguage::EN => "en"@,
            WellKnownLanguage::JA => "ja"@,
            WellKnownLanguage::KO => "ko"@,
        }
    }

    /// The two-letter code of the language, in small letters.
    pub fn code(&self) -> (r: &'static str)
        ensures
            r@ == self.spec_code(),
    {
        match self {
            WellKnownLanguage::EN => "en",
            WellKnownLanguage::JA => "ja",
            WellKnownLanguage::KO => "ko",
        }
    }
}

impl WellKnownCountry {
    /// The two-letter code of the country, in small letters.
    pub open spec fn spec_code(self) -> Seq<char> {
        match self {
            WellKnownCountry::CA => "ca"@,
            WellKnownCountry::JP => "jp"@,
            WellKnownCountry::KR => "kr"@,
            WellKnownCountry::UK => "uk"@,
            WellKnownCountry::US => "us"@,
        }
    }

    /// The public origin of the country's site. Korea has a domain of its
    /// own; every other country has a subdomain of the shared domain.
    pub open spec fn spec_origin(self) -> Seq<char> {
        match self {
            WellKnownCountry::CA => "https://ca.karrotmarket.com"@,
            WellKnownCountry::JP => "https://jp.karrotmarket.com"@,
            WellKnownCountry::KR => "https://www.daangn.com"@,
            WellKnownCountry::UK => "https://uk.karrotmarket.com"@,
            WellKnownCountry::US => "https://us.karrotmarket.com"@,
        }
    }

    /// The two-letter code of the country, in small letters.
    pub fn code(&self) -> (r: &'static str)
        ensures
            r@ == self.spec_code(),
    {
        match self {
            WellKnownCountry::CA => "ca",
            WellKnownCountry::JP => "jp",
            WellKnownCountry::KR => "kr",
            WellKnownCountry::UK => "uk",
            WellKnownCountry::US => "us",
        }
    }

    /// The public origin of the country's site.
    pub fn origin(&self) -> (r: &'static str)
        ensures
            r@ == self.spec_origin(),
    {
        match self {
            WellKnownCountry::CA => "https://ca.karrotmarket.com",
            WellKnownCountry::JP => "https://jp.karrotmarket.com",
            WellKnownCountry::KR => "https://www.daangn.com",
            WellKnownCountry::UK => "https://uk.karrotmarket.com",
            WellKnownCountry::US => "https://us.karrotmarket.com",
        }
    }

    /// The code of the country's default language.
    pub fn default_language(&self) -> (r: String)
        ensures
            r@ == spec_language_from_country(*self).spec_code(),
    {
        String::from_str(well_known_language_from_country(*self).code())
    }

    /// The country with the two-letter code `value`, whatever the case of
    /// its letters; `UnknownCountry`, with `value` as it stands, for any
    /// other string.
    pub fn from_str(value: &str) -> (r: Result<WellKnownCountry, PermalinkError>)
        ensures
            match r {
                Ok(country) => country_from_code(value@) == Some(country),
                Err(PermalinkError::UnknownCountry(code)) => country_from_code(value@) is None
                    && code@ == value@,
                Err(_) => false,
            },
    {
        let chars = chars_of(value);
        proof {
            reveal_strlit("ca");
            reveal_strlit("jp");
            reveal_strlit("kr");
            reveal_strlit("uk");
            reveal_strlit("us");
        }
        let ghost small = ascii_lowercase(value@);
        assert(small.len() == chars@.len());
        if chars.len() == 2 {
            let a = ascii_lower(chars[0]);
            let b = ascii_lower(chars[1]);
            assert(small =~= seq![a, b]);
            if a == 'c' && b == 'a' {
                assert(small =~= "ca"@);
                return Ok(WellKnownCountry::CA);
            } else if a == 'j' && b == 'p' {
                assert(small =~= "jp"@);
                return Ok(WellKnownCountry::JP);
            } else if a == 'k' && b == 'r' {
                assert(small =~= "kr"@);
                return Ok(WellKnownCountry::KR);
            } else if a == 'u' && b == 'k' {
                assert(small =~= "uk"@);
                return Ok(WellKnownCountry::UK);
            } else if a == 'u' && b == 's' {
                assert(small =~= "us"@);
                return Ok(WellKnownCountry::US);
            }
            assert(small[0] == a && small[1] == b);
        }
        Err(PermalinkError::UnknownCountry(String::from_str(value)))
    }
}

/// Replaces the two bare-domain aliases by the origins they stand for and
/// leaves every other origin as it is.
pub fn normalize_origin(origin: String) -> (r: String)
    ensures
        r@ == spec_normalize_origin(origin@),
{
    if same_text(origin.as_str(), "https://daangn.com") {
        String::from_str("https://www.daangn.com")
    } else if same_text(origin.as_str(), "https://karrotmarket.com") {
        String::from_str("https://www.karrotmarket.com")
    } else {
        origin
    }
}

/// The country that owns `origin`, or `None` for the country-neutral origin
/// and for every origin that is not well known.
pub fn well_known_country_from_origin(origin: String) -> (r: Option<WellKnownCountry>)
    ensures
        r == country_from_origin(origin@),
{
    let canonical = normalize_origin(origin);
    let text = canonical.as_str();
    if same_text(text, "https://www.daangn.com") {
        Some(WellKnownCountry::KR)
    } else if same_text(text, "https://ca.karrotmarket.com") {
        Some(WellKnownCountry::CA)
    } else if same_text(text, "https://jp.karrotmarket.com") {
        Some(WellKnownCountry::JP)
    } else if same_text(text, "https://uk.karrotmarket.com") {
        Some(WellKnownCountry::UK)
    } else if same_text(text, "https://us.karrotmarket.com") {
        Some(WellKnownCountry::US)
    } else if same_text(text, "https://kr.karrotmarket.com") {
        Some(WellKnownCountry::KR)
    } else {
        None
    }
}

/// The public origin of a country's site.
pub fn well_known_origin_from_country(country: WellKnownCountry) -> (r: String)
    ensures
        r@ == country.spec_origin(),
{
    String::from_str(country.origin())
}

/// The default language of a country.
#[verifier::when_used_as_spec(spec_language_from_country)]
pub fn well_known_language_from_country(country: WellKnownCountry) -> (r: WellKnownLanguage)
    ensures
        r == spec_language_from_country(country),
{
    match country {
        WellKnownCountry::CA => WellKnownLanguage::EN,
        WellKnownCountry::JP => WellKnownLanguage::JA,
        WellKnownCountry::KR => WellKnownLanguage::KO,
        WellKnownCountry::UK => WellKnownLanguage::EN,
        WellKnownCountry::US => WellKnownLanguage::EN,
    }
}

// ----------------------------------------------------------------------
// Facts about the tables
// ----------------------------------------------------------------------
/// The code of a country is two small letters, and the country is found
/// again under its code.
pub proof fn lemma_code_names_country(country: WellKnownCountry)
    ensures
        country.spec_code().len() == 2,
        forall|i: int| 0 <= i < 2 ==> 'a' <= #[trigger] country.spec_code()[i] <= 'z',
        country_from_code(country.spec_code()) == Some(country),
{
    reveal_strlit("ca");
    reveal_strlit("jp");
    reveal_strlit("kr");
    reveal_strlit("uk");
    reveal_strlit("us");
    let code = country.spec_code();
    let small = ascii_lowercase(code);
    assert(small =~= code);
    assert(small[0] == code[0] && small[1] == code[1]);
}

/// The origin of a country's site belongs to that country.
pub proof fn lemma_origin_names_country(country: WellKnownCountry)
    ensures
        country_from_origin(country.spec_origin()) == Some(country),
{
    reveal_strlit("https://daangn.com");
    reveal_strlit("https://karrotmarket.com");
    reveal_strlit("https://www.daangn.com");
    reveal_strlit("https://ca.karrotmarket.com");
    reveal_strlit("https://jp.karrotmarket.com");
    reveal_strlit("https://uk.karrotmarket.com");
    reveal_strlit("https://us.karrotmarket.com");
    let origin = country.spec_origin();
    // No origin of a country is as long as an alias, and the origins of
    // the shared domain differ in the two letters behind the scheme.
    assert("https://daangn.com"@.len() == 18);
    assert("https://karrotmarket.com"@.len() == 24);
    assert("https://www.daangn.com"@.len() == 22);
    assert("https://ca.karrotmarket.com"@.len() == 27 && "https://ca.karrotmarket.com"@[8] == 'c');
    assert("https://jp.karrotmarket.com"@.len() == 27 && "https://jp.karrotmarket.com"@[8] == 'j');
    assert("https://uk.karrotmarket.com"@.len() == 27 && "https://uk.karrotmarket.com"@[9] == 'k');
    assert("https://us.karrotmarket.com"@.len() == 27 && "https://us.karrotmarket.com"@[8] == 'u'
        && "https://us.karrotmarket.com"@[9] == 's');
    assert("https://uk.karrotmarket.com"@[8] == 'u');
    assert(spec_normalize_origin(origin) == origin);
}

/// The country-neutral origin belongs to no country.
pub proof fn lemma_neutral_origin_names_none()
    ensures
        country_from_origin(neutral_origin()) is None,
{
    reveal_strlit("https://daangn.com");
    reveal_strlit("https://karrotmarket.com");
    reveal_strlit("https://www.daangn.com");
    reveal_strlit("https://www.karrotmarket.com");
    reveal_strlit("https://ca.karrotmarket.com");
    reveal_strlit("https://jp.karrotmarket.com");
    reveal_strlit("https://uk.karrotmarket.com");
    reveal_strlit("https://us.karrotmarket.com");
    reveal_strlit("https://kr.karrotmarket.com");
    assert(neutral_origin().len() == 28);
    assert("https://daangn.com"@.len() == 18);
    assert("https://karrotmarket.com"@.len() == 24);
    assert("https://www.daangn.com"@.len() == 22);
    assert("https://ca.karrotmarket.com"@.len() == 27);
    assert(spec_normalize_origin(neutral_origin()) == neutral_origin());
}

} // verus!
