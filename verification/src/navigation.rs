//! Turning address-bar input into a fetch, and a fetched page into a document with its
//! scripts.
use vstd::prelude::*;

use crate::input::{input_error_text, input_outcome, parse_input, parsed_input_view, ParseInputError, ParsedInput};
use crate::js::processor::{collect_scripts, descriptors_view, html_script_elements, scripts_of};
use crate::js::script::{ScriptDescriptor, ScriptExecution, ScriptKind, ScriptSource};
use crate::text::{decode_utf8, trim, trim_string, utf8_outcome};
use crate::weburl::{
    url_join, url_join_outcome, url_parse, url_parse_outcome, ParsedUrl, UrlParseError, UrlParts,
};

verus! {

/// What to fetch: an address.
#[derive(Debug, Clone, PartialEq, Eq)]
pub enum FetchSource {
    Url(ParsedUrl),
}

/// A fetch and the text the address bar shows for it.
#[derive(Debug, Clone, PartialEq, Eq)]
pub struct FetchRequest {
    pub source: FetchSource,
    pub display_url: String,
}

/// What a navigation does.
#[derive(Debug, Clone, PartialEq, Eq)]
pub enum NavigationPlan {
    Fetch(FetchRequest),
}

/// A fetched page: the URL it came from, its HTML, its file (for `file:` URLs), the text
/// of the address bar, and its scripts.
#[derive(Debug, Clone, PartialEq, Eq)]
pub struct FetchedDocument {
    pub base_url: String,
    pub contents: String,
    pub file_path: Option<String>,
    pub display_url: String,
    pub scripts: Vec<ScriptDescriptor>,
}

/// Why a navigation could not start.
#[derive(Debug, Clone, Copy, PartialEq, Eq, Structural)]
pub enum NavigationError {
    Parse(ParseInputError),
    Unsupported,
}

/// The message of a navigation error.
pub open spec fn navigation_error_text(e: NavigationError) -> Seq<char> {
    match e {
        NavigationError::Parse(p) => "failed to parse input: "@ + input_error_text(p),
        NavigationError::Unsupported => "unsupported input"@,
    }
}

impl NavigationError {
    /// The error's message.
    pub fn message(&self) -> (r: String)
        ensures
            r@ == navigation_error_text(*self),
    {
        match self {
            NavigationError::Parse(p) => {
                let mut m = String::from_str("failed to parse input: ");
                m.append(p.message());
                m
            },
            NavigationError::Unsupported => String::from_str("unsupported input"),
        }
    }
}

/// Why a fetch failed, with the underlying message.
#[derive(Debug, Clone, PartialEq, Eq)]
pub enum FetchError {
    Network(String),
    Utf8(String),
    File(String),
}

/// The message of a fetch error.
pub open spec fn fetch_error_text(e: FetchError) -> Seq<char> {
    match e {
        FetchError::Network(m) => "network error: "@ + m@,
        FetchError::Utf8(m) => "utf-8 error: "@ + m@,
        FetchError::File(m) => "file error: "@ + m@,
    }
}

impl FetchError {
    /// The error's message.
    pub fn message(&self) -> (r: String)
        ensures
            r@ == fetch_error_text(*self),
    {
        let (prefix, detail) = match self {
            FetchError::Network(m) => ("network error: ", m),
            FetchError::Utf8(m) => ("utf-8 error: ", m),
            FetchError::File(m) => ("file error: ", m),
        };
        let mut r = String::from_str(prefix);
        r.append(detail.as_str());
        r
    }
}

/// The plan for address-bar input: fetch the URL it names, showing the trimmed input
/// (`about:blank` when that is empty).
pub open spec fn plan_of(raw: Seq<char>) -> Result<(UrlParts, Seq<char>), NavigationError> {
    match input_outcome(raw) {
        Err(e) => Err(NavigationError::Parse(e)),
        Ok((_, parts)) => Ok(
            (
                parts,
                if trim(raw).len() == 0 {
                    "about:blank"@
                } else {
                    trim(raw)
                },
            ),
        ),
    }
}

/// Plans the navigation that address-bar input asks for.
pub fn prepare_navigation(raw_input: &str) -> (r: Result<NavigationPlan, NavigationError>)
    ensures
        match plan_of(raw_input@) {
            Ok((parts, shown)) => r matches Ok(NavigationPlan::Fetch(req)) && (req.source matches FetchSource::Url(u) && u.parts() == parts) && req.display_url@ == shown,
            Err(e) => r == Err::<NavigationPlan, NavigationError>(e),
        },
{
    let trimmed = trim_string(raw_input);
    let parsed = match parse_input(raw_input) {
        Ok(p) => p,
        Err(e) => {
            return Err(NavigationError::Parse(e));
        },
    };
    let url = match parsed {
        ParsedInput::Url(u) => u,
        ParsedInput::DirectIp(u) => u,
    };
    let display_url = if trimmed.as_str().unicode_len() == 0 {
        String::from_str("about:blank")
    } else {
        trimmed
    };
    Ok(NavigationPlan::Fetch(FetchRequest { source: FetchSource::Url(url), display_url }))
}

/// The document's scripts after collecting them: the scripts of its HTML, or (when the
/// HTML cannot be searched) the scripts it had.
pub fn collect_document_scripts(document: &mut FetchedDocument)
    ensures
        final(document).base_url == old(document).base_url,
        final(document).contents == old(document).contents,
        final(document).file_path == old(document).file_path,
        final(document).display_url == old(document).display_url,
        match html_script_elements(old(document).contents@) {
            Some(es) => descriptors_view(final(document).scripts@) == scripts_of(es),
            None => final(document).scripts == old(document).scripts,
        },
{
    match collect_scripts(document.contents.as_str()) {
        Ok(scripts) => {
            document.scripts = scripts;
        },
        Err(_) => {},
    }
}

/// The document a fetch over the network gives: the response's bytes as UTF-8 text,
/// with its scripts collected.
pub fn document_from_response(response_url: String, bytes: Vec<u8>, display_url: &str) -> (r:
    Result<FetchedDocument, FetchError>)
    ensures
        match utf8_outcome(bytes@) {
            Ok(text) => r matches Ok(d) && d.base_url@ == response_url@ && d.contents@ == text
                && d.file_path is None && d.display_url@ == display_url@ && match html_script_elements(text) {
                    Some(es) => descriptors_view(d.scripts@) == scripts_of(es),
                    None => d.scripts@.len() == 0,
                },
            Err(m) => r matches Err(FetchError::Utf8(e)) && e@ == m,
        },
{
    let contents = match decode_utf8(bytes) {
        Ok(text) => text,
        Err(m) => {
            return Err(FetchError::Utf8(m));
        },
    };
    let mut document = FetchedDocument {
        base_url: response_url,
        contents,
        file_path: None,
        display_url: String::from_str(display_url),
        scripts: Vec::new(),
    };
    collect_document_scripts(&mut document);
    Ok(document)
}

/// The document a `file:` URL gives: the file's text, with its scripts collected.
pub fn document_from_file(base_url: &str, contents: String, file_path: String, display_url: &str) -> (r:
    FetchedDocument)
    ensures
        r.base_url@ == base_url@,
        r.contents@ == contents@,
        r.file_path matches Some(p) && p@ == file_path@,
        r.display_url@ == display_url@,
        match html_script_elements(contents@) {
            Some(es) => descriptors_view(r.scripts@) == scripts_of(es),
            None => r.scripts@.len() == 0,
        },
{
    let mut document = FetchedDocument {
        base_url: String::from_str(base_url),
        contents,
        file_path: Some(file_path),
        display_url: String::from_str(display_url),
        scripts: Vec::new(),
    };
    collect_document_scripts(&mut document);
    document
}

/// How a blocking script's `src` is resolved: as an absolute URL, or (when it is relative
/// and there is a base) joined to the base; any other parse error stands.
pub open spec fn script_url_of(src: Seq<char>, base: Option<Seq<char>>) -> Result<
    UrlParts,
    UrlParseError,
> {
    match url_parse_outcome(src) {
        Ok(p) => Ok(p),
        Err(UrlParseError::RelativeUrlWithoutBase) => match base {
            Some(b) => url_join_outcome(b, src),
            None => Err(UrlParseError::RelativeUrlWithoutBase),
        },
        Err(e) => Err(e),
    }
}

/// Resolves a script's `src` against the page's base URL (given by its serialization).
pub fn resolve_script_url(src: &str, base: Option<&str>) -> (r: Result<ParsedUrl, UrlParseError>)
    ensures
        match script_url_of(
            src@,
            match base {
                Some(b) => Some(b@),
                None => None,
            },
        ) {
            Ok(p) => r matches Ok(u) && u.parts() == p,
            Err(e) => r == Err::<ParsedUrl, UrlParseError>(e),
        },
{
    match url_parse(src) {
        Ok(u) => Ok(u),
        Err(UrlParseError::RelativeUrlWithoutBase) => match base {
            Some(b) => url_join(b, src),
            None => Err(UrlParseError::RelativeUrlWithoutBase),
        },
        Err(e) => Err(e),
    }
}

/// A blocking script whose text is to be fetched: its position in the document's script
/// list and its resolved address.
#[derive(Debug, Clone, PartialEq, Eq)]
pub struct HydrationTarget {
    pub position: usize,
    pub url: ParsedUrl,
}

/// The base against which scripts are resolved: the document's URL when it parses.
pub open spec fn hydration_base(base_url: Seq<char>) -> Option<Seq<char>> {
    if url_parse_outcome(base_url) is Ok {
        Some(base_url)
    } else {
        None
    }
}

/// The script at `d` is fetched before the page runs: it is classic, blocking and
/// external.
pub open spec fn needs_fetch(d: ScriptDescriptor) -> bool {
    &&& d.execution == ScriptExecution::Blocking
    &&& d.kind == ScriptKind::Classic
    &&& d.source is External
}

/// The scripts to fetch, with their addresses: every classic, blocking, external script
/// whose `src` resolves, in document order.
pub open spec fn targets_of(scripts: Seq<ScriptDescriptor>, base: Option<Seq<char>>) -> Seq<
    (nat, UrlParts),
>
    decreases scripts.len(),
{
    if scripts.len() == 0 {
        Seq::empty()
    } else {
        let prev = targets_of(scripts.drop_last(), base);
        let d = scripts.last();
        if needs_fetch(d) {
            match d.source {
                ScriptSource::External { src } => match script_url_of(src@, base) {
                    Ok(p) => prev.push(((scripts.len() - 1) as nat, p)),
                    Err(_) => prev,
                },
                _ => prev,
            }
        } else {
            prev
        }
    }
}

pub open spec fn targets_view(v: Seq<HydrationTarget>) -> Seq<(nat, UrlParts)> {
    v.map_values(|t: HydrationTarget| (t.position as nat, t.url.parts()))
}

/// The blocking scripts of a document whose text has to be fetched.
pub fn hydration_targets(document: &FetchedDocument) -> (r: Vec<HydrationTarget>)
    ensures
        targets_view(r@) == targets_of(
            document.scripts@,
            hydration_base(document.base_url@),
        ),
{
    let mut out: Vec<HydrationTarget> = Vec::new();
    let scripts = &document.scripts;
    let ghost base = hydration_base(document.base_url@);
    let base: Option<&str> = match url_parse(document.base_url.as_str()) {
        Ok(_) => Some(document.base_url.as_str()),
        Err(_) => None,
    };
    let mut i: usize = 0;
    proof {
        assert(scripts@.take(0) =~= Seq::<ScriptDescriptor>::empty());
        assert(targets_view(out@) =~= Seq::<(nat, UrlParts)>::empty());
    }
    while i < scripts.len()
        invariant
            i <= scripts@.len(),
            (match base {
                Some(b) => Some(b@),
                None => None::<Seq<char>>,
            }) == hydration_base(document.base_url@),
            *scripts == document.scripts,
            targets_view(out@) == targets_of(scripts@.take(i as int), hydration_base(document.base_url@)),
        decreases scripts@.len() - i,
    {
        let d = &scripts[i];
        proof {
            let t = scripts@.take(i + 1);
            assert(t.drop_last() =~= scripts@.take(i as int));
            assert(t.last() == *d);
        }
        let ghost old_out = targets_view(out@);
        if d.execution == ScriptExecution::Blocking && d.kind == ScriptKind::Classic {
            match &d.source {
                ScriptSource::External { src } => {
                    match resolve_script_url(src.as_str(), base) {
                        Ok(url) => {
                            out.push(HydrationTarget { position: i, url });
                            proof {
                                assert(targets_view(out@) =~= old_out.push(
                                    (i as nat, out@[out@.len() - 1].url.parts()),
                                ));
                            }
                        },
                        Err(_) => {},
                    }
                },
                ScriptSource::Inline { .. } => {},
            }
        }
        i = i + 1;
    }
    proof {
        assert(scripts@.take(scripts@.len() as int) =~= scripts@);
    }
    out
}

/// Puts the fetched text of the script at `position` in place of its address.
pub fn inline_fetched_script(document: &mut FetchedDocument, position: usize, code: String)
    requires
        position < old(document).scripts@.len(),
    ensures
        final(document).base_url == old(document).base_url,
        final(document).contents == old(document).contents,
        final(document).file_path == old(document).file_path,
        final(document).display_url == old(document).display_url,
        final(document).scripts@.len() == old(document).scripts@.len(),
        forall|k: int|
            0 <= k < old(document).scripts@.len() && k != position ==> final(document).scripts@[k]
                == old(document).scripts@[k],
        final(document).scripts@[position as int].index == old(document).scripts@[position as int].index,
        final(document).scripts@[position as int].kind == old(document).scripts@[position as int].kind,
        final(document).scripts@[position as int].execution == old(document).scripts@[position as int].execution,
        final(document).scripts@[position as int].source matches ScriptSource::Inline { code: c } && c@ == code@,
{
    let old_d = &document.scripts[position];
    let d = ScriptDescriptor {
        index: old_d.index,
        kind: old_d.kind,
        execution: old_d.execution,
        source: ScriptSource::Inline { code },
    };
    document.scripts.set(position, d);
}

} // verus!
