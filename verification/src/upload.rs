//! The upload client's decision side: checking that what the image host
//! returned — and what the cache stored earlier — is a well-formed URL.
//!
//! The network call itself is the caller's: it hands the parsed response
//! body in, and this module extracts and validates the hosted URL.

use vstd::prelude::*;

use crate::resolver::CacheError;

verus! {

/// The body of the image host's response, reduced to the one field the
/// resolution uses.
pub struct ImgBBResponse {
    pub data: ImageData,
}

/// The `data` object of the image host's response.
pub struct ImageData {
    pub url: String,
}

/// What URL parsing makes of a string: `None` where the string is not an
/// absolute URL, and otherwise the URL's serialization. The outcome depends
/// on the characters of the string alone.
pub uninterp spec fn url_parse_result(s: Seq<char>) -> Option<Seq<char>>;

/// Relies on `url::Url::parse` and `url::Url::as_str`: parsing either fails
/// or yields a URL whose serialization `as_str` returns; both depend only on
/// the input string.
#[verifier::external_body]
fn parse_url_exec(s: &String) -> (r: Option<String>)
    ensures
        r is Some <==> url_parse_result(s@) is Some,
        r matches Some(u) ==> url_parse_result(s@) == Some(u@),
{
    match url::Url::parse(s.as_str()) {
        Ok(u) => Some(String::from(u.as_str())),
        Err(_) => None,
    }
}

/// Checks a URL string, returning its serialization, or the URL error that
/// aborts the resolution. A string is accepted exactly when it parses as an
/// absolute URL.
pub fn validate_url(s: &String) -> (r: Result<String, CacheError>)
    ensures
        r is Ok <==> url_parse_result(s@) is Some,
        r matches Ok(u) ==> url_parse_result(s@) == Some(u@),
        r matches Err(e) ==> e == CacheError::InvalidUrl,
{
    match parse_url_exec(s) {
        Some(u) => Ok(u),
        None => Err(CacheError::InvalidUrl),
    }
}

/// The hosted URL carried in a response body, validated. This is the only
/// reading the resolution does of a response: a body whose `data.url` is not
/// an absolute URL aborts the resolution with a URL error.
pub fn response_url(r: &ImgBBResponse) -> (u: Result<String, CacheError>)
    ensures
        u is Ok <==> url_parse_result(r.data.url@) is Some,
        u matches Ok(s) ==> url_parse_result(r.data.url@) == Some(s@),
        u matches Err(e) ==> e == CacheError::InvalidUrl,
{
    validate_url(&r.data.url)
}

} // verus!
