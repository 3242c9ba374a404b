//! Messages of the browser window's event loop, and the page shown when a navigation
//! fails.
use vstd::prelude::*;

use crate::chrome::{url_bar_page, wrap_with_url_bar};
use crate::navigation::FetchedDocument;

verus! {

/// A finished navigation, or why it failed.
#[derive(Debug, Clone)]
pub enum NavigationMessage {
    Completed { document: Box<FetchedDocument>, retain_scroll: bool },
    Failed { message: String },
}

/// An event for the browser window.
#[derive(Debug, Clone)]
pub enum ReadmeEvent {
    Refresh,
    Navigation(Box<NavigationMessage>),
}

/// HTML text escaping: `&`, `<` and `>` become entities, all else stays.
pub open spec fn escaped_text(s: Seq<char>) -> Seq<char>
    decreases s.len(),
{
    if s.len() == 0 {
        s
    } else {
        let prev = escaped_text(s.drop_last());
        let c = s.last();
        if c == '&' {
            prev + "&amp;"@
        } else if c == '<' {
            prev + "&lt;"@
        } else if c == '>' {
            prev + "&gt;"@
        } else {
            prev.push(c)
        }
    }
}

/// Escapes text for HTML with `html_escape::encode_text`. Trusted: the result replaces
/// each `&`, `<` and `>` by `&amp;`, `&lt;` and `&gt;` and keeps every other character.
#[verifier::external_body]
pub(crate) fn encode_text(s: &str) -> (r: String)
    ensures
        r@ == escaped_text(s@),
{
    html_escape::encode_text(s).into_owned()
}

/// The HTML of the page that reports a failed navigation.
pub open spec fn error_page(message: Seq<char>) -> Seq<char> {
    "<section class=\"error\"><h2>Navigation failed</h2><p>"@ + escaped_text(message)
        + "</p></section>"@
}

/// The document shown when a navigation fails: the escaped message under `about:error`,
/// with the address bar keeping what it showed.
pub fn error_document(message: &str, current_input: &str) -> (r: FetchedDocument)
    ensures
        r.base_url@ == "about:error"@,
        r.contents@ == error_page(message@),
        r.file_path is None,
        r.display_url@ == current_input@,
        r.scripts@.len() == 0,
{
    let escaped = encode_text(message);
    let mut html = String::from_str("<section class=\"error\"><h2>Navigation failed</h2><p>");
    html.append(escaped.as_str());
    html.append("</p></section>");
    FetchedDocument {
        base_url: String::from_str("about:error"),
        contents: html,
        file_path: None,
        display_url: String::from_str(current_input),
        scripts: Vec::new(),
    }
}

/// The empty page the automation host shows for a target it could not load: an empty
/// content area in the browser chrome, at the target's address.
pub fn fallback_document(target: &str) -> (r: FetchedDocument)
    ensures
        r.base_url@ == target@,
        r.contents@ == url_bar_page("<main id=\"content\"></main>"@, target@, Seq::<char>::empty()),
        r.file_path is None,
        r.display_url@ == target@,
        r.scripts@.len() == 0,
{
    let wrapped = wrap_with_url_bar("<main id=\"content\"></main>", target, None);
    FetchedDocument {
        base_url: String::from_str(target),
        contents: wrapped,
        file_path: None,
        display_url: String::from_str(target),
        scripts: Vec::new(),
    }
}

} // verus!
