//! URLs as plain values, with the `url` crate doing the parsing.
use vstd::prelude::*;

verus! {

/// Why a URL could not be parsed.
#[derive(Debug, Clone, Copy, PartialEq, Eq, Structural)]
pub enum UrlParseError {
    /// The input is relative and no base URL was given.
    RelativeUrlWithoutBase,
    /// Any other parse failure.
    Invalid,
}

/// A parsed URL: its serialization, its scheme and its query string.
#[derive(Debug, Clone, PartialEq, Eq)]
pub struct ParsedUrl {
    pub href: String,
    pub scheme: String,
    pub query: Option<String>,
}

/// The plain parts of a parsed URL.
pub type UrlParts = (Seq<char>, Seq<char>, Option<Seq<char>>);

pub open spec fn opt_view(o: Option<String>) -> Option<Seq<char>> {
    match o {
        Some(s) => Some(s@),
        None => None,
    }
}

impl ParsedUrl {
    pub open spec fn parts(&self) -> UrlParts {
        (self.href@, self.scheme@, opt_view(self.query))
    }

    /// The serialized URL (`Url::as_str`).
    pub fn as_str(&self) -> (r: &str)
        ensures
            r@ == self.href@,
    {
        self.href.as_str()
    }
}

/// What `url::Url::parse` gives for an input: the URL's parts, or the kind of error.
pub uninterp spec fn url_parse_outcome(input: Seq<char>) -> Result<UrlParts, UrlParseError>;

/// What `url::Url::join` gives for a base URL (given by its serialization) and an input.
pub uninterp spec fn url_join_outcome(base: Seq<char>, input: Seq<char>) -> Result<
    UrlParts,
    UrlParseError,
>;

/// What std's `SocketAddr` parser accepts, as the address's canonical display form.
pub uninterp spec fn socket_addr_outcome(input: Seq<char>) -> Option<Seq<char>>;

/// Calls `url::Url::parse` and hands back the URL's serialization, scheme and query.
/// Trusted: the result is `url_parse_outcome(input)`, with the parse error's kind.
#[verifier::external_body]
pub(crate) fn url_parse(input: &str) -> (r: Result<ParsedUrl, UrlParseError>)
    ensures
        match r {
            Ok(u) => url_parse_outcome(input@) == Ok::<UrlParts, UrlParseError>(u.parts()),
            Err(e) => url_parse_outcome(input@) == Err::<UrlParts, UrlParseError>(e),
        },
{
    match url::Url::parse(input) {
        Ok(u) => Ok(ParsedUrl {
            href: u.as_str().to_string(),
            scheme: u.scheme().to_string(),
            query: u.query().map(|q| q.to_string()),
        }),
        Err(url::ParseError::RelativeUrlWithoutBase) => Err(UrlParseError::RelativeUrlWithoutBase),
        Err(_) => Err(UrlParseError::Invalid),
    }
}

/// Calls `url::Url::join` on the URL that `base` serializes (parsed with `url::Url::parse`).
/// Trusted: the result is `url_join_outcome(base, input)`.
#[verifier::external_body]
pub(crate) fn url_join(base: &str, input: &str) -> (r: Result<ParsedUrl, UrlParseError>)
    ensures
        match r {
            Ok(u) => url_join_outcome(base@, input@) == Ok::<UrlParts, UrlParseError>(u.parts()),
            Err(e) => url_join_outcome(base@, input@) == Err::<UrlParts, UrlParseError>(e),
        },
{
    match url::Url::parse(base).and_then(|b| b.join(input)) {
        Ok(u) => Ok(ParsedUrl {
            href: u.as_str().to_string(),
            scheme: u.scheme().to_string(),
            query: u.query().map(|q| q.to_string()),
        }),
        Err(url::ParseError::RelativeUrlWithoutBase) => Err(UrlParseError::RelativeUrlWithoutBase),
        Err(_) => Err(UrlParseError::Invalid),
    }
}

/// Parses a socket address with std's `SocketAddr` parser and renders it back with its
/// `Display`. Trusted: the result is `socket_addr_outcome(input)`.
#[verifier::external_body]
pub(crate) fn parse_socket_addr(input: &str) -> (r: Option<String>)
    ensures
        match r {
            Some(s) => socket_addr_outcome(input@) == Some(s@),
            None => socket_addr_outcome(input@) is None,
        },
{
    input.parse::<core::net::SocketAddr>().ok().map(|a| a.to_string())
}

} // verus!
