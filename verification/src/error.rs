//! The ways in which parsing a permalink fails.

use vstd::prelude::*;

verus! {

/// The error of the `url` crate's parser. Nothing is read from it here; it
/// is carried to the caller.
#[verifier::external_type_specification]
#[verifier::external_body]
pub struct ExUrlParseError(url::ParseError);

/// Why a string is no permalink.
#[derive(Debug, PartialEq, Eq)]
pub enum PermalinkError {
    /// The string is not a well-formed URL; carries the URL parser's
    /// diagnostic.
    InvalidUrl(url::ParseError),
    /// The URL's path does not match the permalink grammar.
    InvalidPermalink,
    /// The path's two-letter code is no supported country; carries the code
    /// as it stood in the path.
    UnknownCountry(String),
}

/// A [`PermalinkError`] as contracts speak of it.
pub enum Failure {
    InvalidUrl,
    InvalidPermalink,
    UnknownCountry(Seq<char>),
}

impl View for PermalinkError {
    type V = Failure;

    open spec fn view(&self) -> Failure {
        match self {
            PermalinkError::InvalidUrl(_) => Failure::InvalidUrl,
            PermalinkError::InvalidPermalink => Failure::InvalidPermalink,
            PermalinkError::UnknownCountry(code) => Failure::UnknownCountry(code@),
        }
    }
}

impl Failure {
    /// The message that goes with a failure.
    pub open spec fn message(self) -> Seq<char> {
        match self {
            Failure::InvalidUrl => "invalid url"@,
            Failure::InvalidPermalink => "invalid permalink"@,
            Failure::UnknownCountry(code) => "unknown country code `"@ + code + "`"@,
        }
    }
}

impl PermalinkError {
    /// A short description of the error, for people.
    pub fn message(&self) -> (text: String)
        ensures
            text@ == self@.message(),
    {
        match self {
            PermalinkError::InvalidUrl(_) => String::from_str("invalid url"),
            PermalinkError::InvalidPermalink => String::from_str("invalid permalink"),
            PermalinkError::UnknownCountry(code) => {
                let mut text = String::from_str("unknown country code `");
                text.append(code.as_str());
                text.append("`");
                text
            },
        }
    }
}

} // verus!
