//! URL handling for redirect URLs and portal endpoints.
//!
//! Parsing and re-serialization are done by the `url` crate; this module hands
//! its results to the rest of the crate as plain values.

use vstd::prelude::*;

verus! {

/// Declares `url::ParseError`, the error of URL parsing.
#[verifier::external_type_specification]
#[verifier::external_body]
pub struct ExParseError(url::ParseError);

/// The parts of a parsed URL that the crate reads.
pub struct UrlParts {
    /// The URL's serialization after parsing.
    pub serialization: String,
    /// The path, possibly empty.
    pub path: String,
    /// The decoded `key=value` pairs of the query, in order.
    pub query_pairs: Vec<(String, String)>,
    /// The host, if any.
    pub host: Option<String>,
    /// The explicit port, or the default port of the scheme.
    pub port: Option<u16>,
}

/// The texts of a sequence of string pairs.
pub open spec fn pair_views(v: Seq<(String, String)>) -> Seq<(Seq<char>, Seq<char>)> {
    v.map_values(|p: (String, String)| (p.0@, p.1@))
}

/// The text of an optional string.
pub open spec fn opt_view(o: Option<String>) -> Option<Seq<char>> {
    match o {
        Some(s) => Some(s@),
        None => None,
    }
}

/// The texts of parsed URL parts: serialization, path, query pairs, host, port.
pub open spec fn parts_model(p: UrlParts) -> (
    Seq<char>,
    Seq<char>,
    Seq<(Seq<char>, Seq<char>)>,
    Option<Seq<char>>,
    Option<u16>,
) {
    (p.serialization@, p.path@, pair_views(p.query_pairs@), opt_view(p.host), p.port)
}

/// What `url::Url::parse` reads from a text: serialization, path, query pairs,
/// host and port (explicit or scheme default); `None` when it rejects the text.
pub uninterp spec fn parsed_url(raw: Seq<char>) -> Option<
    (Seq<char>, Seq<char>, Seq<(Seq<char>, Seq<char>)>, Option<Seq<char>>, Option<u16>),
>;

/// The serialization of the URL parsed from `raw` after its path is set to `path`.
pub uninterp spec fn url_with_path_text(raw: Seq<char>, path: Seq<char>) -> Seq<char>;

/// The serialization of the URL parsed from `raw` after the pairs are appended
/// to its query in order.
pub uninterp spec fn url_with_pairs_text(raw: Seq<char>, pairs: Seq<(Seq<char>, Seq<char>)>) -> Seq<
    char,
>;

/// Parses a URL.
///
/// Calls `url::Url::parse` and reads `as_str`, `path`, `query_pairs`,
/// `host_str` and `port_or_known_default` of the result.
#[verifier::external_body]
pub(crate) fn parse_url(raw: &str) -> (r: Result<UrlParts, url::ParseError>)
    ensures
        r is Ok <==> parsed_url(raw@) is Some,
        r matches Ok(p) ==> parsed_url(raw@) == Some(parts_model(p)),
{
    match url::Url::parse(raw) {
        Ok(u) => Ok(UrlParts {
            serialization: u.as_str().to_string(),
            path: u.path().to_string(),
            query_pairs: u.query_pairs().map(|(k, v)| (k.into_owned(), v.into_owned())).collect(),
            host: u.host_str().map(|h| h.to_string()),
            port: u.port_or_known_default(),
        }),
        Err(e) => Err(e),
    }
}

/// Parses a URL, sets its path and serializes it again.
///
/// Calls `url::Url::parse`, then `set_path` on the result.
#[verifier::external_body]
pub(crate) fn url_with_path(raw: &str, path: &str) -> (r: Result<String, url::ParseError>)
    ensures
        r is Ok <==> parsed_url(raw@) is Some,
        r matches Ok(s) ==> s@ == url_with_path_text(raw@, path@),
{
    match url::Url::parse(raw) {
        Ok(mut u) => {
            u.set_path(path);
            Ok(u.to_string())
        },
        Err(e) => Err(e),
    }
}

/// Parses a URL, appends query pairs and serializes it again.
///
/// Calls `url::Url::parse`, then `query_pairs_mut().extend_pairs` on the result.
#[verifier::external_body]
pub(crate) fn url_with_pairs(raw: &str, pairs: &[(String, String)]) -> (r: Result<
    String,
    url::ParseError,
>)
    ensures
        r is Ok <==> parsed_url(raw@) is Some,
        r matches Ok(s) ==> s@ == url_with_pairs_text(raw@, pair_views(pairs@)),
{
    match url::Url::parse(raw) {
        Ok(mut u) => {
            u.query_pairs_mut().extend_pairs(pairs.iter().map(|(k, v)| (k.as_str(), v.as_str())));
            Ok(u.to_string())
        },
        Err(e) => Err(e),
    }
}

} // verus!
