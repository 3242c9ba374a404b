//! Interpreting what the user typed into the address bar.
use vstd::prelude::*;

use crate::text::{chars_of, has_char, has_char_in, trim, trim_string};
use crate::weburl::{parse_socket_addr, socket_addr_outcome, url_parse, url_parse_outcome, ParsedUrl, UrlParts};

verus! {

#[derive(Debug, Clone, PartialEq, Eq)]
pub enum ParsedInput {
    Url(ParsedUrl),
    DirectIp(ParsedUrl),
}

#[derive(Debug, Clone, Copy, PartialEq, Eq, Structural)]
pub enum ParseInputError {
    /// The input is empty (or only whitespace).
    Empty,
    /// The input could not be parsed as a URL.
    InvalidUrl,
}

/// The message of each input error.
pub open spec fn input_error_text(e: ParseInputError) -> Seq<char> {
    match e {
        ParseInputError::Empty => "input is empty"@,
        ParseInputError::InvalidUrl => "input could not be parsed as a URL"@,
    }
}

impl ParseInputError {
    /// The error's message.
    pub fn message(&self) -> (r: &'static str)
        ensures
            r@ == input_error_text(*self),
    {
        match self {
            ParseInputError::Empty => "input is empty",
            ParseInputError::InvalidUrl => "input could not be parsed as a URL",
        }
    }
}

/// What address-bar input means: `Ok((direct_ip, url_parts))` or the error.
///
/// A full URL with a scheme is taken as it is; a bare `ip:port` becomes an
/// `http://` URL; anything with a dot or a slash is taken as a host name over
/// `https://`; everything else is invalid.
pub open spec fn input_outcome(raw: Seq<char>) -> Result<(bool, UrlParts), ParseInputError> {
    let t = trim(raw);
    if t.len() == 0 {
        Err(ParseInputError::Empty)
    } else if url_parse_outcome(t) is Ok && url_parse_outcome(t)->Ok_0.1.len() > 0 {
        Ok((false, url_parse_outcome(t)->Ok_0))
    } else if has_char(t, ':') && socket_addr_outcome(t) is Some {
        match url_parse_outcome(seq!['h', 't', 't', 'p', ':', '/', '/'] + socket_addr_outcome(
            t,
        )->0) {
            Ok(p) => Ok((true, p)),
            Err(_) => Err(ParseInputError::InvalidUrl),
        }
    } else if has_char(t, '.') || has_char(t, '/') {
        match url_parse_outcome(seq!['h', 't', 't', 'p', 's', ':', '/', '/'] + t) {
            Ok(p) => Ok((false, p)),
            Err(_) => Err(ParseInputError::InvalidUrl),
        }
    } else {
        Err(ParseInputError::InvalidUrl)
    }
}

pub open spec fn parsed_input_view(p: ParsedInput) -> (bool, UrlParts) {
    match p {
        ParsedInput::Url(u) => (false, u.parts()),
        ParsedInput::DirectIp(u) => (true, u.parts()),
    }
}

/// Interprets address-bar input as a URL, a direct `ip:port`, or a host name.
pub fn parse_input(raw: &str) -> (r: Result<ParsedInput, ParseInputError>)
    ensures
        match r {
            Ok(p) => input_outcome(raw@) == Ok::<(bool, UrlParts), ParseInputError>(
                parsed_input_view(p),
            ),
            Err(e) => input_outcome(raw@) == Err::<(bool, UrlParts), ParseInputError>(e),
        },
{
    let trimmed = trim_string(raw);
    let tchars = chars_of(trimmed.as_str());
    if tchars.len() == 0 {
        return Err(ParseInputError::Empty);
    }
    match url_parse(trimmed.as_str()) {
        Ok(url) => {
            if url.scheme.as_str().unicode_len() > 0 {
                return Ok(ParsedInput::Url(url));
            }
        },
        Err(_) => {},
    }
    if has_char_in(tchars.as_slice(), ':') {
        if let Some(addr) = parse_socket_addr(trimmed.as_str()) {
            let mut target = String::from_str("http://");
            proof {
                reveal_strlit("http://");
            }
            target.append(addr.as_str());
            assert(target@ =~= seq!['h', 't', 't', 'p', ':', '/', '/'] + addr@);
            return match url_parse(target.as_str()) {
                Ok(url) => Ok(ParsedInput::DirectIp(url)),
                Err(_) => Err(ParseInputError::InvalidUrl),
            };
        }
    }
    if has_char_in(tchars.as_slice(), '.') || has_char_in(tchars.as_slice(), '/') {
        let mut target = String::from_str("https://");
        proof {
            reveal_strlit("https://");
        }
        target.append(trimmed.as_str());
        assert(target@ =~= seq!['h', 't', 't', 'p', 's', ':', '/', '/'] + trimmed@);
        return match url_parse(target.as_str()) {
            Ok(url) => Ok(ParsedInput::Url(url)),
            Err(_) => Err(ParseInputError::InvalidUrl),
        };
    }
    Err(ParseInputError::InvalidUrl)
}

/// Input whose trimmed text parses as a URL with a scheme (any scheme: `about:`, `data:`,
/// `mailto:` as well as `http:`) is taken as that URL, as it is, and is no direct address.
pub proof fn lemma_urls_taken_as_they_are(raw: Seq<char>)
    requires
        trim(raw).len() > 0,
        url_parse_outcome(trim(raw)) is Ok,
        url_parse_outcome(trim(raw))->Ok_0.1.len() > 0,
    ensures
        input_outcome(raw) == Ok::<(bool, UrlParts), ParseInputError>(
            (false, url_parse_outcome(trim(raw))->Ok_0),
        ),
{
}

} // verus!
