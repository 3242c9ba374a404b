//! Where external scripts are fetched from.
use vstd::prelude::*;

use crate::text::{starts_with, str_starts_with};
use crate::weburl::{url_join, url_join_outcome, url_parse, url_parse_outcome};

verus! {

/// The address of a script given by `src` on a page at `base`: an `http`, `https` or
/// `file` URL stays as it is; anything else is joined to the base URL.
pub open spec fn resolved_script_url(script_url: Seq<char>, base_url: Seq<char>) -> Result<
    Seq<char>,
    Seq<char>,
> {
    if starts_with(script_url, "http://"@) || starts_with(script_url, "https://"@) || starts_with(
        script_url,
        "file://"@,
    ) {
        Ok(script_url)
    } else if url_parse_outcome(base_url) is Err {
        Err("invalid base URL: "@ + base_url)
    } else {
        match url_join_outcome(base_url, script_url) {
            Ok(parts) => Ok(parts.0),
            Err(_) => Err("failed to resolve URL: "@ + script_url + " relative to "@ + base_url),
        }
    }
}

/// Resolves a script address against the page's URL.
pub fn resolve_url(script_url: &str, base_url: &str) -> (r: Result<String, String>)
    ensures
        match resolved_script_url(script_url@, base_url@) {
            Ok(u) => r matches Ok(s) && s@ == u,
            Err(m) => r matches Err(e) && e@ == m,
        },
{
    if str_starts_with(script_url, "http://") || str_starts_with(script_url, "https://")
        || str_starts_with(script_url, "file://") {
        return Ok(String::from_str(script_url));
    }
    match url_parse(base_url) {
        Err(_) => {
            let mut m = String::from_str("invalid base URL: ");
            m.append(base_url);
            return Err(m);
        },
        Ok(_) => {},
    }
    match url_join(base_url, script_url) {
        Ok(u) => Ok(u.href),
        Err(_) => {
            let mut m = String::from_str("failed to resolve URL: ");
            m.append(script_url);
            m.append(" relative to ");
            m.append(base_url);
            Err(m)
        },
    }
}

} // verus!
