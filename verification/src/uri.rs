//! Trusted boundary to the URI and URL parsers.
//!
//! Both parses are deterministic functions of their text alone, so their
//! results carry names the contracts downstream speak of.

use vstd::prelude::*;

verus! {

/// What the HTTP URI parser makes of a text: `None` when it does not
/// parse, else the normalized text form.
pub uninterp spec fn uri_normalized(s: Seq<char>) -> Option<Seq<char>>;

/// Relies on axum::http::Uri::try_from (and its Display form): `Some`
/// exactly when the text parses as a URI, and then its normalized text.
#[verifier::external_body]
pub(crate) fn parse_uri_normalized(s: &str) -> (r: Option<String>)
    ensures
        r is Some <==> uri_normalized(s@) is Some,
        r matches Some(t) ==> Some(t@) == uri_normalized(s@),
{
    axum::http::Uri::try_from(s).ok().map(|u| u.to_string())
}

/// What the URL parser makes of a text: `None` when it does not parse,
/// else the normalized text form.
pub uninterp spec fn url_normalized(s: Seq<char>) -> Option<Seq<char>>;

/// Relies on reqwest::Url::parse (and Url::as_str): `Some` exactly when
/// the text parses as an absolute URL, and then its normalized text.
#[verifier::external_body]
pub(crate) fn parse_url_normalized(s: &str) -> (r: Option<String>)
    ensures
        r is Some <==> url_normalized(s@) is Some,
        r matches Some(t) ==> Some(t@) == url_normalized(s@),
{
    reqwest::Url::parse(s).ok().map(|u| u.as_str().to_string())
}

} // verus!
