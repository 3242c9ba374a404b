//! Browser automation: what a driver asks of a page, what it gets back, and how the
//! automation host is configured and addressed.
use vstd::prelude::*;

use crate::text::{
    chars_of, str_ends_with, str_starts_with, string_from_chars, string_from_range, trim,
    trim_chars, trim_string,
};
use crate::weburl::{url_join, url_join_outcome, url_parse, url_parse_outcome, ParsedUrl, UrlParseError};

verus! {

/// The single session id the automation host serves.
pub const SESSION_ID: &'static str = "frontier";

/// The line with which the host reports its address once it listens.
pub const READY_BANNER_PREFIX: &'static str = "AUTOMATION_HOST_READY ";

/// How an element is found: by CSS selector, or by ARIA role and optional accessible name.
#[derive(Debug, Clone, PartialEq, Eq)]
pub enum ElementSelector {
    Css { selector: String },
    Role { role: String, name: Option<String> },
}

impl ElementSelector {
    /// A CSS selector.
    pub fn css(selector: &str) -> (r: ElementSelector)
        ensures
            r matches ElementSelector::Css { selector: s } && s@ == selector@,
    {
        ElementSelector::Css { selector: String::from_str(selector) }
    }

    /// A role, with an optional accessible name.
    pub fn role(role: &str, name: Option<String>) -> (r: ElementSelector)
        ensures
            r matches ElementSelector::Role { role: ro, name: n } && ro@ == role@ && n == name,
    {
        ElementSelector::Role { role: String::from_str(role), name }
    }
}

/// A mouse button.
#[derive(Debug, Clone, Copy, PartialEq, Eq, Structural)]
pub enum PointerButton {
    Primary,
    Secondary,
    Auxiliary,
}

/// One keyboard step: typed text, or a key with modifiers.
#[derive(Debug, Clone, PartialEq, Eq)]
pub enum KeyboardAction {
    Text { value: String },
    Shortcut { key: String, modifiers: Vec<String> },
}

/// What a command leaves behind besides its answer.
#[derive(Debug, Clone, PartialEq, Eq)]
pub struct AutomationArtifacts {
    pub dom_html: Option<String>,
}

impl Default for AutomationArtifacts {
    fn default() -> (r: AutomationArtifacts)
        ensures
            r.dom_html is None,
    {
        AutomationArtifacts { dom_html: None }
    }
}

/// The answer to a command.
#[derive(Debug, Clone, PartialEq, Eq)]
pub enum AutomationResponse {
    /// No value (the command only acts).
    Nothing,
    Text(String),
    Bool(bool),
}

/// An answer with its artifacts.
#[derive(Debug, Clone, PartialEq, Eq)]
pub struct AutomationReply {
    pub response: AutomationResponse,
    pub artifacts: Option<AutomationArtifacts>,
}

/// Signal that wakes the browser's event loop to run queued commands.
#[derive(Debug)]
pub struct AutomationEvent;

/// How long a wait helper keeps trying and how often it looks, in milliseconds.
#[derive(Debug, Clone, Copy, PartialEq, Eq, Structural)]
pub struct WaitOptions {
    pub timeout_ms: u64,
    pub poll_interval_ms: u64,
}

impl WaitOptions {
    pub fn new(timeout_ms: u64, poll_interval_ms: u64) -> (r: WaitOptions)
        ensures
            r.timeout_ms == timeout_ms,
            r.poll_interval_ms == poll_interval_ms,
    {
        WaitOptions { timeout_ms, poll_interval_ms }
    }

    /// Five seconds, looking every 200 milliseconds.
    pub fn default_text_wait() -> (r: WaitOptions)
        ensures
            r.timeout_ms == 5000,
            r.poll_interval_ms == 200,
    {
        WaitOptions::new(5000, 200)
    }
}

/// `rel` taken relative to the directory `base`, as `Path::join` does on Unix: an
/// absolute `rel` replaces `base`, and a separator is put in between where needed.
pub open spec fn join_path(base: Seq<char>, rel: Seq<char>) -> Seq<char> {
    if rel.len() > 0 && rel[0] == '/' {
        rel
    } else if base.len() == 0 {
        rel
    } else if base.last() == '/' {
        base + rel
    } else {
        base + seq!['/'] + rel
    }
}

/// Joins two paths as `join_path` says.
pub fn join_path_str(base: &str, rel: &str) -> (r: String)
    ensures
        r@ == join_path(base@, rel@),
{
    let bc = chars_of(base);
    let rc = chars_of(rel);
    if rc.len() > 0 && rc[0] == '/' {
        return String::from_str(rel);
    }
    if bc.len() == 0 {
        return String::from_str(rel);
    }
    let mut out = String::from_str(base);
    if bc[bc.len() - 1] != '/' {
        out.append("/");
        proof {
            reveal_strlit("/");
        }
    }
    out.append(rel);
    out
}

/// Where headless sessions look for the files they open.
#[derive(Debug, Clone)]
pub struct HeadlessSessionBuilder {
    base_dir: String,
}

impl HeadlessSessionBuilder {
    pub closed spec fn base_dir_view(&self) -> Seq<char> {
        self.base_dir@
    }

    /// A builder that opens files under `base_dir` (the crate's directory by default).
    pub fn new(base_dir: &str) -> (r: HeadlessSessionBuilder)
        ensures
            r.base_dir_view() == base_dir@,
    {
        HeadlessSessionBuilder { base_dir: String::from_str(base_dir) }
    }

    /// The same builder with another base directory.
    pub fn with_base_dir(self, base: String) -> (r: HeadlessSessionBuilder)
        ensures
            r.base_dir_view() == base@,
    {
        HeadlessSessionBuilder { base_dir: base }
    }

    /// The path of the file that `open_file(path)` opens.
    pub fn file_path(&self, path: &str) -> (r: String)
        ensures
            r@ == join_path(self.base_dir_view(), path@),
    {
        join_path_str(self.base_dir.as_str(), path)
    }
}

/// The element id an automation selector names: the text after a leading `#`. Headless
/// sessions find elements by id only.
pub fn id_selector_target(selector: &str) -> (r: Result<String, String>)
    ensures
        selector@.len() > 0 && selector@[0] == '#' ==> (r matches Ok(id) && id@ == selector@.skip(
            1,
        )),
        !(selector@.len() > 0 && selector@[0] == '#') ==> (r matches Err(m) && m@
            == "only id selectors are supported (got "@ + selector@ + ")"@),
{
    let cs = chars_of(selector);
    if cs.len() > 0 && cs[0] == '#' {
        let id = string_from_range(cs.as_slice(), 1, cs.len());
        proof {
            assert(cs@.subrange(1, cs@.len() as int) =~= selector@.skip(1));
        }
        Ok(id)
    } else {
        let mut m = String::from_str("only id selectors are supported (got ");
        m.append(selector);
        m.append(")");
        Err(m)
    }
}

/// The message for an element id that the page does not hold.
pub fn element_not_found(id: &str) -> (r: String)
    ensures
        r@ == "element id not found: "@ + id@,
{
    let mut m = String::from_str("element id not found: ");
    m.append(id);
    m
}

/// How many 10 ms rounds a pump of `duration_ms` milliseconds runs: at least one.
pub fn pump_rounds(duration_ms: u64) -> (r: u64)
    ensures
        r == (if duration_ms / 10 == 0 {
            1
        } else {
            duration_ms / 10
        }),
{
    let rounds = duration_ms / 10;
    if rounds == 0 {
        1
    } else {
        rounds
    }
}

/// Launch settings of the automation host; each left unset takes its default.
#[derive(Debug, Clone)]
pub struct AutomationHostConfig {
    bind_address: Option<String>,
    initial_target: Option<String>,
    asset_root: Option<String>,
    artifact_root: Option<String>,
}

/// The four settings as (bind address, initial target, asset root, artifact root).
pub type HostConfigView = (
    Option<Seq<char>>,
    Option<Seq<char>>,
    Option<Seq<char>>,
    Option<Seq<char>>,
);

pub open spec fn opt_str(o: Option<String>) -> Option<Seq<char>> {
    match o {
        Some(s) => Some(s@),
        None => None,
    }
}

impl Default for AutomationHostConfig {
    fn default() -> (r: AutomationHostConfig)
        ensures
            r.view() == (
                None::<Seq<char>>,
                None::<Seq<char>>,
                None::<Seq<char>>,
                None::<Seq<char>>,
            ),
    {
        AutomationHostConfig {
            bind_address: None,
            initial_target: None,
            asset_root: None,
            artifact_root: None,
        }
    }
}

/// The asset directory of a checkout: `assets` under its root.
pub open spec fn default_asset_root_of(manifest_dir: Seq<char>) -> Seq<char> {
    join_path(manifest_dir, "assets"@)
}

/// The artifact directory of a checkout: `target/automation-artifacts` under its root.
pub open spec fn default_artifact_root_of(manifest_dir: Seq<char>) -> Seq<char> {
    join_path(join_path(manifest_dir, "target"@), "automation-artifacts"@)
}

/// Where a debug build puts the host binary.
pub open spec fn fallback_host_path_of(manifest_dir: Seq<char>, windows: bool) -> Seq<char> {
    join_path(
        join_path(join_path(manifest_dir, "target"@), "debug"@),
        if windows {
            "automation_host.exe"@
        } else {
            "automation_host"@
        },
    )
}

/// The settings the host is started with: (bind address, initial target, asset root,
/// artifact root), with the defaults filled in.
pub open spec fn launch_settings_of(c: HostConfigView, manifest_dir: Seq<char>) -> (
    Seq<char>,
    Seq<char>,
    Seq<char>,
    Seq<char>,
) {
    (
        match c.0 {
            Some(b) => b,
            None => "127.0.0.1:0"@,
        },
        match c.1 {
            Some(t) => t,
            None => "about:blank"@,
        },
        match c.2 {
            Some(a) => a,
            None => default_asset_root_of(manifest_dir),
        },
        match c.3 {
            Some(a) => a,
            None => default_artifact_root_of(manifest_dir),
        },
    )
}

/// The asset directory under the checkout `manifest_dir`.
pub fn default_asset_root(manifest_dir: &str) -> (r: String)
    ensures
        r@ == default_asset_root_of(manifest_dir@),
{
    join_path_str(manifest_dir, "assets")
}

/// The artifact directory under the checkout `manifest_dir`.
pub fn default_artifact_root(manifest_dir: &str) -> (r: String)
    ensures
        r@ == default_artifact_root_of(manifest_dir@),
{
    let t = join_path_str(manifest_dir, "target");
    join_path_str(t.as_str(), "automation-artifacts")
}

/// Where to look for the host binary when the build did not say.
pub fn fallback_automation_host_path(manifest_dir: &str, windows: bool) -> (r: String)
    ensures
        r@ == fallback_host_path_of(manifest_dir@, windows),
{
    let t = join_path_str(manifest_dir, "target");
    let d = join_path_str(t.as_str(), "debug");
    if windows {
        join_path_str(d.as_str(), "automation_host.exe")
    } else {
        join_path_str(d.as_str(), "automation_host")
    }
}

fn or_default(o: &Option<String>, d: String) -> (r: String)
    ensures
        r@ == (match opt_str(*o) {
            Some(s) => s,
            None => d@,
        }),
{
    match o {
        Some(s) => s.clone(),
        None => d,
    }
}

impl AutomationHostConfig {
    pub closed spec fn view(&self) -> HostConfigView {
        (
            opt_str(self.bind_address),
            opt_str(self.initial_target),
            opt_str(self.asset_root),
            opt_str(self.artifact_root),
        )
    }

    /// The page the host opens first.
    pub fn with_initial_target(self, target: String) -> (r: AutomationHostConfig)
        ensures
            r.view() == (self.view().0, Some(target@), self.view().2, self.view().3),
    {
        let mut c = self;
        c.initial_target = Some(target);
        c
    }

    /// The directory that relative asset names are taken from.
    pub fn with_asset_root(self, path: String) -> (r: AutomationHostConfig)
        ensures
            r.view() == (self.view().0, self.view().1, Some(path@), self.view().3),
    {
        let mut c = self;
        c.asset_root = Some(path);
        c
    }

    /// The directory the host writes artifacts into.
    pub fn with_artifact_root(self, path: String) -> (r: AutomationHostConfig)
        ensures
            r.view() == (self.view().0, self.view().1, self.view().2, Some(path@)),
    {
        let mut c = self;
        c.artifact_root = Some(path);
        c
    }

    /// The settings to start the host with, defaults filled in from the checkout
    /// `manifest_dir`: (bind address, initial target, asset root, artifact root).
    pub fn launch_settings(&self, manifest_dir: &str) -> (r: (String, String, String, String))
        ensures
            (r.0@, r.1@, r.2@, r.3@) == launch_settings_of(self.view(), manifest_dir@),
    {
        let bind = or_default(&self.bind_address, String::from_str("127.0.0.1:0"));
        let initial = or_default(&self.initial_target, String::from_str("about:blank"));
        let assets = or_default(&self.asset_root, default_asset_root(manifest_dir));
        let artifacts = or_default(&self.artifact_root, default_artifact_root(manifest_dir));
        (bind, initial, assets, artifacts)
    }
}

/// The address in a line of the host's output, if the line (trimmed) is the ready banner.
pub open spec fn ready_address(line: Seq<char>) -> Option<Seq<char>> {
    let t = trim(line);
    let p = READY_BANNER_PREFIX@;
    if p.len() <= t.len() && t.take(p.len() as int) == p {
        Some(t.skip(p.len() as int))
    } else {
        None
    }
}

/// Reads the host's ready banner.
pub fn parse_ready_banner(line: &str) -> (r: Option<String>)
    ensures
        match ready_address(line@) {
            Some(a) => r matches Some(s) && s@ == a,
            None => r is None,
        },
{
    let trimmed = trim_string(line);
    if str_starts_with(trimmed.as_str(), READY_BANNER_PREFIX) {
        let tc = chars_of(trimmed.as_str());
        let pc = chars_of(READY_BANNER_PREFIX);
        let rest = string_from_range(tc.as_slice(), pc.len(), tc.len());
        proof {
            assert(tc@.subrange(pc@.len() as int, tc@.len() as int) =~= tc@.skip(
                pc@.len() as int,
            ));
        }
        Some(rest)
    } else {
        None
    }
}

/// What the automation host's start-up output asks for next.
#[derive(Debug, Clone, PartialEq, Eq)]
pub enum BannerStep {
    /// The output ended before the banner: the host failed to start.
    Exited,
    /// The banner: the host listens at this address.
    Ready(String),
    /// Another line, passed on (trimmed) to the user.
    Forward(String),
    /// A blank line.
    Skip,
}

/// The message when the host's output ends before its banner.
pub const HOST_EXITED: &'static str = "automation host exited before reporting readiness";

/// Reads one line of the host's start-up output (`None` at the end of the output).
pub fn banner_step(line: Option<&str>) -> (r: BannerStep)
    ensures
        match line {
            None => r == BannerStep::Exited,
            Some(l) => match ready_address(l@) {
                Some(a) => r matches BannerStep::Ready(x) && x@ == a,
                None => if trim(l@).len() > 0 {
                    r matches BannerStep::Forward(x) && x@ == trim(l@)
                } else {
                    r == BannerStep::Skip
                },
            },
        },
{
    match line {
        None => BannerStep::Exited,
        Some(l) => match parse_ready_banner(l) {
            Some(a) => BannerStep::Ready(a),
            None => {
                let t = trim_chars(l);
                if t.len() > 0 {
                    BannerStep::Forward(string_from_chars(t.as_slice()))
                } else {
                    BannerStep::Skip
                }
            },
        },
    }
}

/// The base URL of the automation host listening at `addr`: `http://` and the address,
/// parsed as a URL.
pub fn automation_base_url(addr: &str) -> (r: Result<ParsedUrl, UrlParseError>)
    ensures
        match url_parse_outcome("http://"@ + addr@) {
            Ok(p) => r matches Ok(u) && u.parts() == p,
            Err(e) => r == Err::<ParsedUrl, UrlParseError>(e),
        },
{
    let mut text = String::from_str("http://");
    text.append(addr);
    url_parse(text.as_str())
}

/// The URL of a request path on the host (the path joined to the base URL).
pub fn automation_request_url(base: &ParsedUrl, path: &str) -> (r: Result<ParsedUrl, UrlParseError>)
    ensures
        match url_join_outcome(base.href@, path@) {
            Ok(p) => r matches Ok(u) && u.parts() == p,
            Err(e) => r == Err::<ParsedUrl, UrlParseError>(e),
        },
{
    url_join(base.href.as_str(), path)
}

/// `s` without its leading slashes (`str::trim_start_matches('/')`).
pub open spec fn strip_leading_slashes(s: Seq<char>) -> Seq<char>
    decreases s.len(),
{
    if s.len() > 0 && s[0] == '/' {
        strip_leading_slashes(s.skip(1))
    } else {
        s
    }
}

/// The host path of a session endpoint: `/session/<id>/<path without leading slashes>`.
pub open spec fn session_path_of(session_id: Seq<char>, path: Seq<char>) -> Seq<char> {
    "/session/"@ + session_id + seq!['/'] + strip_leading_slashes(path)
}

/// Builds the host path of a session endpoint.
pub fn session_path(session_id: &str, path: &str) -> (r: String)
    ensures
        r@ == session_path_of(session_id@, path@),
{
    let pc = chars_of(path);
    let mut i: usize = 0;
    assert(pc@.skip(0) =~= pc@);
    while i < pc.len() && pc[i] == '/'
        invariant
            i <= pc@.len(),
            strip_leading_slashes(pc@.skip(i as int)) == strip_leading_slashes(path@),
            pc@ == path@,
        decreases pc@.len() - i,
    {
        proof {
            assert(pc@.skip(i as int).skip(1) =~= pc@.skip(i + 1));
        }
        i = i + 1;
    }
    let rest = string_from_range(pc.as_slice(), i, pc.len());
    let mut out = String::from_str("/session/");
    out.append(session_id);
    out.append("/");
    out.append(rest.as_str());
    proof {
        reveal_strlit("/");
        assert(pc@.subrange(i as int, pc@.len() as int) =~= pc@.skip(i as int));
        assert(pc@.skip(i as int) == strip_leading_slashes(path@));
    }
    out
}

/// The query pairs that name an element: its kind, then its selector, or its role and
/// (when given) its name.
pub open spec fn selector_pairs(s: ElementSelector) -> Seq<(Seq<char>, Seq<char>)> {
    match s {
        ElementSelector::Css { selector } => seq![("kind"@, "css"@), ("selector"@, selector@)],
        ElementSelector::Role { role, name } => match name {
            Some(n) => seq![("kind"@, "role"@), ("role"@, role@), ("name"@, n@)],
            None => seq![("kind"@, "role"@), ("role"@, role@)],
        },
    }
}

pub open spec fn pairs_view(v: Seq<(String, String)>) -> Seq<(Seq<char>, Seq<char>)> {
    v.map_values(|p: (String, String)| (p.0@, p.1@))
}

/// The query pairs of a selector.
pub fn selector_query_pairs(selector: &ElementSelector) -> (r: Vec<(String, String)>)
    ensures
        pairs_view(r@) == selector_pairs(*selector),
{
    let mut params: Vec<(String, String)> = Vec::new();
    match selector {
        ElementSelector::Css { selector } => {
            params.push((String::from_str("kind"), String::from_str("css")));
            params.push((String::from_str("selector"), selector.clone()));
        },
        ElementSelector::Role { role, name } => {
            params.push((String::from_str("kind"), String::from_str("role")));
            params.push((String::from_str("role"), role.clone()));
            match name {
                Some(n) => {
                    params.push((String::from_str("name"), n.clone()));
                },
                None => {},
            }
        },
    }
    assert(pairs_view(params@) =~= selector_pairs(*selector));
    params
}

/// The `application/x-www-form-urlencoded` text of a list of key/value pairs.
pub uninterp spec fn form_encoded(pairs: Seq<(Seq<char>, Seq<char>)>) -> Seq<char>;

/// Serializes pairs with `serde_urlencoded::to_string`. Trusted: the text is
/// `form_encoded(pairs)`; pairs of strings always serialize.
#[verifier::external_body]
fn urlencode_pairs(pairs: &[(String, String)]) -> (r: String)
    ensures
        r@ == form_encoded(pairs_view(pairs@)),
{
    serde_urlencoded::to_string(pairs).unwrap_or_default()
}

/// The query string that names an element to the host.
pub fn encode_selector_query(selector: &ElementSelector) -> (r: String)
    ensures
        r@ == form_encoded(selector_pairs(*selector)),
{
    let params = selector_query_pairs(selector);
    urlencode_pairs(params.as_slice())
}

} // verus!
