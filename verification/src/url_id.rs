//! Trusted view of the parts of the `url` crate that identity extraction
//! uses: parsing an absolute URL from a string, and reading the parsed
//! URL's path component.

use vstd::prelude::*;

verus! {

#[verifier::external_type_specification]
#[verifier::external_body]
pub struct ExUrl(url::Url);

#[verifier::external_type_specification]
#[verifier::external_body]
pub struct ExParseError(url::ParseError);

/// The URL that a string parses to under standard URL syntax, or nothing
/// when the string is not an absolute URL. The result is a function of
/// the string alone.
pub uninterp spec fn spec_parse_url(s: Seq<char>) -> Option<url::Url>;

/// The path component of a parsed URL, as its percent-encoded text. The
/// result is a function of the URL alone.
pub uninterp spec fn spec_url_path(u: url::Url) -> Seq<char>;

/// Relies on `url::Url::parse`: it parses an absolute URL from a string
/// and reports a `ParseError` when it cannot.
#[verifier::external_body]
pub(crate) fn parse_url(s: &str) -> (r: Result<url::Url, url::ParseError>)
    ensures
        match r {
            Ok(u) => spec_parse_url(s@) == Some(u),
            Err(_) => spec_parse_url(s@) is None,
        },
{
    url::Url::parse(s)
}

/// Relies on `url::Url::path`: it returns the URL's path component as a
/// percent-encoded string.
#[verifier::external_body]
pub(crate) fn url_path<'a>(u: &'a url::Url) -> (r: &'a str)
    ensures
        r@ == spec_url_path(*u),
{
    u.path()
}

} // verus!
