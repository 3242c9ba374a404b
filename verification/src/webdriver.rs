//! The WebDriver endpoint's rules: what a new session opens, which element ids a session
//! knows, and the messages of refused requests.
use vstd::prelude::*;

use crate::automation::{join_path, join_path_str};
use crate::text::str_equal;

use std::collections::HashMap;

verus! {

broadcast use vstd::std_specs::hash::group_hash_axioms;

/// Where the WebDriver endpoint finds the files that sessions open.
#[derive(Debug, Clone)]
pub struct WebDriverConfig {
    pub asset_root: String,
}

impl WebDriverConfig {
    /// The default configuration: the `assets` directory of the checkout `manifest_dir`.
    pub fn new(manifest_dir: &str) -> (r: WebDriverConfig)
        ensures
            r.asset_root@ == join_path(manifest_dir@, "assets"@),
    {
        WebDriverConfig { asset_root: join_path_str(manifest_dir, "assets") }
    }
}

/// What a session opens: a URL, or a file under the asset root.
#[derive(Debug, Clone, PartialEq, Eq)]
pub enum SessionTarget {
    Url(String),
    File(String),
}

/// The body of a new-session request.
#[derive(Debug, Clone, PartialEq, Eq)]
pub struct NewSessionPayload {
    pub url: Option<String>,
    pub file: Option<String>,
}

/// The target of a new session: the URL when one is given, else the file.
pub fn session_target_from_payload(payload: &NewSessionPayload) -> (r: Result<SessionTarget, String>)
    ensures
        match payload.url {
            Some(u) => r matches Ok(SessionTarget::Url(x)) && x@ == u@,
            None => match payload.file {
                Some(f) => r matches Ok(SessionTarget::File(x)) && x@ == f@,
                None => r matches Err(m) && m@ == "missing 'url' or 'file' in request"@,
            },
        },
{
    match &payload.url {
        Some(u) => Ok(SessionTarget::Url(u.clone())),
        None => match &payload.file {
            Some(f) => Ok(SessionTarget::File(f.clone())),
            None => Err(String::from_str("missing 'url' or 'file' in request")),
        },
    }
}

/// The only element locator the endpoint supports.
pub const CSS_LOCATOR: &'static str = "css selector";

/// The refusal of a find-element request with another locator, if it has one.
pub fn check_locator(using: &str) -> (r: Result<(), String>)
    ensures
        using@ == CSS_LOCATOR@ <==> r is Ok,
        r matches Err(m) ==> m@ == "unsupported locator"@,
{
    if str_equal(using, CSS_LOCATOR) {
        Ok(())
    } else {
        Err(String::from_str("unsupported locator"))
    }
}

/// The message for a path whose session id is not a UUID.
pub fn invalid_session_message(id: &str) -> (r: String)
    ensures
        r@ == "invalid session id: "@ + id@,
{
    let mut m = String::from_str("invalid session id: ");
    m.append(id);
    m
}

/// The message when a session could not be opened, given the underlying error.
pub fn open_target_failure(target: &SessionTarget, err: &str) -> (r: String)
    ensures
        r@ == (match target {
            SessionTarget::Url(_) => "failed to navigate: "@ + err@,
            SessionTarget::File(p) => "failed to open file "@ + p@ + ": "@ + err@,
        }),
{
    match target {
        SessionTarget::Url(_) => {
            let mut m = String::from_str("failed to navigate: ");
            m.append(err);
            m
        },
        SessionTarget::File(p) => {
            let mut m = String::from_str("failed to open file ");
            m.append(p.as_str());
            m.append(": ");
            m.append(err);
            m
        },
    }
}

/// The element ids a session has handed out, each with the selector it stands for.
#[derive(Debug, Clone)]
pub struct ElementRegistry {
    entries: Vec<(String, String)>,
}

pub open spec fn pairs_of(v: Seq<(String, String)>) -> Seq<(Seq<char>, Seq<char>)> {
    v.map_values(|p: (String, String)| (p.0@, p.1@))
}

/// Ids appear once.
pub open spec fn ids_unique(s: Seq<(Seq<char>, Seq<char>)>) -> bool {
    forall|i: int, j: int| 0 <= i < j < s.len() ==> s[i].0 != s[j].0
}

/// The selector of an id in a list of pairs, if the id is there.
pub open spec fn selector_of(s: Seq<(Seq<char>, Seq<char>)>, id: Seq<char>) -> Option<Seq<char>> {
    if exists|i: int| 0 <= i < s.len() && s[i].0 == id {
        Some(s[choose|i: int| 0 <= i < s.len() && s[i].0 == id].1)
    } else {
        None
    }
}

/// The registry as a map from element id to selector.
pub open spec fn registry_map(s: Seq<(Seq<char>, Seq<char>)>) -> Map<Seq<char>, Seq<char>> {
    Map::new(|k: Seq<char>| selector_of(s, k) is Some, |k: Seq<char>| selector_of(s, k)->0)
}

proof fn lemma_selector_at(s: Seq<(Seq<char>, Seq<char>)>, i: int)
    requires
        ids_unique(s),
        0 <= i < s.len(),
    ensures
        selector_of(s, s[i].0) == Some(s[i].1),
{
    let c = choose|k: int| 0 <= k < s.len() && s[k].0 == s[i].0;
    assert(c == i) by {
        if c != i {
            if c < i {
                assert(s[c].0 != s[i].0);
            } else {
                assert(s[i].0 != s[c].0);
            }
        }
    }
}

impl ElementRegistry {
    pub closed spec fn wf(&self) -> bool {
        ids_unique(pairs_of(self.entries@))
    }

    pub closed spec fn view(&self) -> Map<Seq<char>, Seq<char>> {
        registry_map(pairs_of(self.entries@))
    }

    /// No elements.
    pub fn new() -> (r: ElementRegistry)
        ensures
            r.wf(),
            r.view() == Map::<Seq<char>, Seq<char>>::empty(),
    {
        let r = ElementRegistry { entries: Vec::new() };
        assert(r.view() =~= Map::<Seq<char>, Seq<char>>::empty());
        r
    }

    fn position(&self, id: &str) -> (r: Option<usize>)
        ensures
            match r {
                Some(i) => i < self.entries@.len() && self.entries@[i as int].0@ == id@,
                None => forall|i: int|
                    0 <= i < self.entries@.len() ==> (#[trigger] self.entries@[i]).0@ != id@,
            },
    {
        let mut i: usize = 0;
        while i < self.entries.len()
            invariant
                i <= self.entries@.len(),
                forall|k: int| 0 <= k < i ==> (#[trigger] self.entries@[k]).0@ != id@,
            decreases self.entries@.len() - i,
        {
            if str_equal(self.entries[i].0.as_str(), id) {
                return Some(i);
            }
            i = i + 1;
        }
        None
    }

    /// Records the selector an element id stands for (replacing an earlier one).
    pub fn insert(&mut self, id: String, selector: String)
        requires
            old(self).wf(),
        ensures
            final(self).wf(),
            final(self).view() == old(self).view().insert(id@, selector@),
    {
        let ghost s = pairs_of(self.entries@);
        let ghost m = self.view();
        match self.position(id.as_str()) {
            Some(i) => {
                let ghost key = id@;
                let ghost sel = selector@;
                self.entries.set(i, (id, selector));
                proof {
                    let t = pairs_of(self.entries@);
                    assert(t =~= s.update(i as int, (key, sel)));
                    assert forall|a: int, b: int| 0 <= a < b < t.len() implies t[a].0 != t[b].0 by {
                        assert(t[a].0 == s[a].0 && t[b].0 == s[b].0);
                    }
                    assert forall|k: Seq<char>| #![auto] selector_of(t, k) == (if k == key {
                        Some(sel)
                    } else {
                        selector_of(s, k)
                    }) by {
                        if k == key {
                            lemma_selector_at(t, i as int);
                        } else if exists|j: int| 0 <= j < s.len() && s[j].0 == k {
                            let j = choose|j: int| 0 <= j < s.len() && s[j].0 == k;
                            lemma_selector_at(s, j);
                            lemma_selector_at(t, j);
                        } else {
                            assert(!exists|j: int| 0 <= j < t.len() && t[j].0 == k);
                        }
                    }
                    assert(self.view() =~= m.insert(key, sel));
                }
            },
            None => {
                let ghost key = id@;
                let ghost sel = selector@;
                self.entries.push((id, selector));
                proof {
                    let t = pairs_of(self.entries@);
                    assert(t =~= s.push((key, sel)));
                    assert(!exists|j: int| 0 <= j < s.len() && s[j].0 == key);
                    assert forall|k: Seq<char>| #![auto] selector_of(t, k) == (if k == key {
                        Some(sel)
                    } else {
                        selector_of(s, k)
                    }) by {
                        if k == key {
                            lemma_selector_at(t, s.len() as int);
                        } else if exists|j: int| 0 <= j < s.len() && s[j].0 == k {
                            let j = choose|j: int| 0 <= j < s.len() && s[j].0 == k;
                            lemma_selector_at(s, j);
                            lemma_selector_at(t, j);
                        } else {
                            assert(!exists|j: int| 0 <= j < t.len() && t[j].0 == k);
                        }
                    }
                    assert(self.view() =~= m.insert(key, sel));
                }
            },
        }
    }

    /// The selector of an element id; an unknown id is refused.
    pub fn selector(&self, id: &str) -> (r: Result<String, String>)
        requires
            self.wf(),
        ensures
            match r {
                Ok(s) => self.view().contains_key(id@) && self.view()[id@] == s@,
                Err(m) => !self.view().contains_key(id@) && m@ == "unknown element"@,
            },
    {
        let ghost s = pairs_of(self.entries@);
        match self.position(id) {
            Some(i) => {
                proof {
                    assert(s[i as int].0 == id@);
                    lemma_selector_at(s, i as int);
                }
                Ok(self.entries[i].1.clone())
            },
            None => {
                proof {
                    assert forall|j: int| 0 <= j < s.len() implies s[j].0 != id@ by {
                        assert(s[j].0 == self.entries@[j].0@);
                    }
                }
                Err(String::from_str("unknown element"))
            },
        }
    }

    /// Forgets every element (after a navigation).
    pub fn clear(&mut self)
        ensures
            final(self).wf(),
            final(self).view() == Map::<Seq<char>, Seq<char>>::empty(),
    {
        self.entries = Vec::new();
        assert(self.view() =~= Map::<Seq<char>, Seq<char>>::empty());
    }
}

/// The message for a command on a session that is not open.
pub const UNKNOWN_SESSION: &'static str = "unknown session";

/// The message for an element id the session did not hand out.
pub const UNKNOWN_ELEMENT: &'static str = "unknown element";

/// The open WebDriver sessions, by id (a UUID as its 128-bit number), each with the elements
/// it handed out.
pub struct SessionTable {
    sessions: HashMap<u128, ElementRegistry>,
}

/// A request to the WebDriver endpoint, once its path and body are read.
#[derive(Debug)]
pub enum WebDriverCommand {
    CreateSession(SessionTarget),
    Navigate { session_id: u128, target: SessionTarget },
    FindElement { session_id: u128, selector: String },
    ClickElement { session_id: u128, element: String },
    ElementText { session_id: u128, element: String },
    GetUrl { session_id: u128 },
    GetSource { session_id: u128 },
    DeleteSession { session_id: u128 },
    Pump { session_id: u128, milliseconds: u64 },
}

/// The work on a headless session that a request needs, with the selector an element id
/// stands for already looked up.
#[derive(Debug)]
pub enum SessionWork {
    /// Open a new session on a target; its id is then registered with `opened`.
    Open(SessionTarget),
    /// Navigate a session; its elements are then forgotten with `navigated`.
    Navigate { session_id: u128, target: SessionTarget },
    /// Check that a selector finds an element; the new element id is then registered with
    /// `found`.
    EnsureSelector { session_id: u128, selector: String },
    Click { session_id: u128, selector: String },
    InnerText { session_id: u128, selector: String },
    CurrentUrl { session_id: u128 },
    Source { session_id: u128 },
    Pump { session_id: u128, milliseconds: u64 },
    /// Nothing is left to do (the session was closed).
    Nothing,
}

impl SessionTable {
    pub closed spec fn wf(&self) -> bool {
        forall|k: u128| #[trigger] self.sessions@.contains_key(k) ==> self.sessions@[k].wf()
    }

    /// For each open session, the element ids it handed out and their selectors.
    pub closed spec fn view(&self) -> Map<u128, Map<Seq<char>, Seq<char>>> {
        Map::new(|k: u128| self.sessions@.contains_key(k), |k: u128| self.sessions@[k].view())
    }

    /// No sessions.
    pub fn new() -> (r: SessionTable)
        ensures
            r.wf(),
            r.view() == Map::<u128, Map<Seq<char>, Seq<char>>>::empty(),
    {
        let r = SessionTable { sessions: HashMap::new() };
        assert(r.view() =~= Map::<u128, Map<Seq<char>, Seq<char>>>::empty());
        r
    }

    /// Whether a session is open.
    pub fn contains(&self, id: u128) -> (r: bool)
        requires
            self.wf(),
        ensures
            r == self.view().contains_key(id),
    {
        self.sessions.contains_key(&id)
    }

    fn replace(&mut self, id: u128, reg: ElementRegistry)
        requires
            old(self).wf(),
            reg.wf(),
        ensures
            final(self).wf(),
            final(self).view() == old(self).view().insert(id, reg.view()),
    {
        let ghost m = self.view();
        let ghost rv = reg.view();
        self.sessions.insert(id, reg);
        assert(self.view() =~= m.insert(id, rv));
    }

    /// Registers a session that was just opened, with no elements (an earlier session with
    /// the same id is replaced).
    pub fn opened(&mut self, id: u128)
        requires
            old(self).wf(),
        ensures
            final(self).wf(),
            final(self).view() == old(self).view().insert(
                id,
                Map::<Seq<char>, Seq<char>>::empty(),
            ),
    {
        self.replace(id, ElementRegistry::new());
    }

    /// Forgets the elements of a session that navigated; other sessions are unchanged.
    pub fn navigated(&mut self, id: u128)
        requires
            old(self).wf(),
        ensures
            final(self).wf(),
            final(self).view() == (if old(self).view().contains_key(id) {
                old(self).view().insert(id, Map::<Seq<char>, Seq<char>>::empty())
            } else {
                old(self).view()
            }),
    {
        if self.contains(id) {
            self.replace(id, ElementRegistry::new());
        }
    }

    /// Registers an element id that a session handed out for a selector.
    pub fn found(&mut self, id: u128, element: String, selector: String) -> (r: Result<(), String>)
        requires
            old(self).wf(),
        ensures
            final(self).wf(),
            old(self).view().contains_key(id) ==> r is Ok && final(self).view() == old(
                self,
            ).view().insert(id, old(self).view()[id].insert(element@, selector@)),
            !old(self).view().contains_key(id) ==> final(self).view() == old(self).view() && (r matches Err(
                e,
            ) && e@ == UNKNOWN_SESSION@),
    {
        let ghost m = self.view();
        match self.sessions.remove(&id) {
            Some(reg) => {
                let mut reg = reg;
                reg.insert(element, selector);
                let ghost rv = reg.view();
                self.sessions.insert(id, reg);
                assert(self.view() =~= m.insert(id, rv));
                Ok(())
            },
            None => {
                assert(self.view() =~= m);
                Err(String::from_str(UNKNOWN_SESSION))
            },
        }
    }

    /// Closes a session; closing one that is not open changes nothing.
    pub fn remove(&mut self, id: u128)
        requires
            old(self).wf(),
        ensures
            final(self).wf(),
            final(self).view() == old(self).view().remove(id),
    {
        let ghost m = self.view();
        self.sessions.remove(&id);
        assert(self.view() =~= m.remove(id));
    }

    /// The selector an element id of a session stands for.
    pub fn element_selector(&self, id: u128, element: &str) -> (r: Result<String, String>)
        requires
            self.wf(),
        ensures
            !self.view().contains_key(id) ==> (r matches Err(e) && e@ == UNKNOWN_SESSION@),
            self.view().contains_key(id) && !self.view()[id].contains_key(element@) ==> (r matches Err(
                e,
            ) && e@ == UNKNOWN_ELEMENT@),
            self.view().contains_key(id) && self.view()[id].contains_key(element@) ==> (r matches Ok(
                s,
            ) && s@ == self.view()[id][element@]),
    {
        match self.sessions.get(&id) {
            Some(reg) => reg.selector(element),
            None => Err(String::from_str(UNKNOWN_SESSION)),
        }
    }

    fn require(&self, id: u128) -> (r: Result<(), String>)
        requires
            self.wf(),
        ensures
            self.view().contains_key(id) <==> r is Ok,
            r matches Err(e) ==> e@ == UNKNOWN_SESSION@,
    {
        if self.contains(id) {
            Ok(())
        } else {
            Err(String::from_str(UNKNOWN_SESSION))
        }
    }

    /// Takes a request: refuses one on a session that is not open, or on an element id the
    /// session did not hand out, closes a session, and otherwise says what work the request
    /// needs.
    pub fn begin(&mut self, command: WebDriverCommand) -> (r: Result<SessionWork, String>)
        requires
            old(self).wf(),
        ensures
            final(self).wf(),
            match command {
                WebDriverCommand::DeleteSession { session_id } => final(self).view() == old(
                    self,
                ).view().remove(session_id) && r matches Ok(SessionWork::Nothing),
                _ => final(self).view() == old(self).view(),
            },
            match command {
                WebDriverCommand::CreateSession(t) => r matches Ok(SessionWork::Open(u)) && u == t,
                WebDriverCommand::Navigate { session_id, target } => if old(
                    self,
                ).view().contains_key(session_id) {
                    r matches Ok(SessionWork::Navigate { session_id: s, target: t }) && s
                        == session_id && t == target
                } else {
                    r matches Err(e) && e@ == UNKNOWN_SESSION@
                },
                WebDriverCommand::FindElement { session_id, selector } => if old(
                    self,
                ).view().contains_key(session_id) {
                    r matches Ok(SessionWork::EnsureSelector { session_id: s, selector: t }) && s
                        == session_id && t@ == selector@
                } else {
                    r matches Err(e) && e@ == UNKNOWN_SESSION@
                },
                WebDriverCommand::ClickElement { session_id, element } => if !old(
                    self,
                ).view().contains_key(session_id) {
                    r matches Err(e) && e@ == UNKNOWN_SESSION@
                } else if !old(self).view()[session_id].contains_key(element@) {
                    r matches Err(e) && e@ == UNKNOWN_ELEMENT@
                } else {
                    r matches Ok(SessionWork::Click { session_id: s, selector: t }) && s
                        == session_id && t@ == old(self).view()[session_id][element@]
                },
                WebDriverCommand::ElementText { session_id, element } => if !old(
                    self,
                ).view().contains_key(session_id) {
                    r matches Err(e) && e@ == UNKNOWN_SESSION@
                } else if !old(self).view()[session_id].contains_key(element@) {
                    r matches Err(e) && e@ == UNKNOWN_ELEMENT@
                } else {
                    r matches Ok(SessionWork::InnerText { session_id: s, selector: t }) && s
                        == session_id && t@ == old(self).view()[session_id][element@]
                },
                WebDriverCommand::GetUrl { session_id } => if old(self).view().contains_key(
                    session_id,
                ) {
                    r matches Ok(SessionWork::CurrentUrl { session_id: s }) && s == session_id
                } else {
                    r matches Err(e) && e@ == UNKNOWN_SESSION@
                },
                WebDriverCommand::GetSource { session_id } => if old(self).view().contains_key(
                    session_id,
                ) {
                    r matches Ok(SessionWork::Source { session_id: s }) && s == session_id
                } else {
                    r matches Err(e) && e@ == UNKNOWN_SESSION@
                },
                WebDriverCommand::Pump { session_id, milliseconds } => if old(
                    self,
                ).view().contains_key(session_id) {
                    r matches Ok(SessionWork::Pump { session_id: s, milliseconds: ms }) && s
                        == session_id && ms == milliseconds
                } else {
                    r matches Err(e) && e@ == UNKNOWN_SESSION@
                },
                WebDriverCommand::DeleteSession { .. } => true,
            },
    {
        match command {
            WebDriverCommand::CreateSession(t) => Ok(SessionWork::Open(t)),
            WebDriverCommand::Navigate { session_id, target } => {
                self.require(session_id)?;
                Ok(SessionWork::Navigate { session_id, target })
            },
            WebDriverCommand::FindElement { session_id, selector } => {
                self.require(session_id)?;
                Ok(SessionWork::EnsureSelector { session_id, selector })
            },
            WebDriverCommand::ClickElement { session_id, element } => {
                let selector = self.element_selector(session_id, element.as_str())?;
                Ok(SessionWork::Click { session_id, selector })
            },
            WebDriverCommand::ElementText { session_id, element } => {
                let selector = self.element_selector(session_id, element.as_str())?;
                Ok(SessionWork::InnerText { session_id, selector })
            },
            WebDriverCommand::GetUrl { session_id } => {
                self.require(session_id)?;
                Ok(SessionWork::CurrentUrl { session_id })
            },
            WebDriverCommand::GetSource { session_id } => {
                self.require(session_id)?;
                Ok(SessionWork::Source { session_id })
            },
            WebDriverCommand::DeleteSession { session_id } => {
                self.remove(session_id);
                Ok(SessionWork::Nothing)
            },
            WebDriverCommand::Pump { session_id, milliseconds } => {
                self.require(session_id)?;
                Ok(SessionWork::Pump { session_id, milliseconds })
            },
        }
    }
}

/// A session's elements: an element found in an open session stands for its selector
/// afterwards; after the session navigates it is unknown; after the session closes, the
/// session is unknown; other sessions keep their elements throughout.
pub proof fn lemma_session_elements(
    m: Map<u128, Map<Seq<char>, Seq<char>>>,
    id: u128,
    element: Seq<char>,
    selector: Seq<char>,
    other: u128,
)
    requires
        m.contains_key(id),
        other != id,
    ensures
        ({
            let found = m.insert(id, m[id].insert(element, selector));
            &&& found[id].contains_key(element)
            &&& found[id][element] == selector
            &&& !found.insert(id, Map::<Seq<char>, Seq<char>>::empty())[id].contains_key(element)
            &&& !found.remove(id).contains_key(id)
            &&& found.contains_key(other) == m.contains_key(other)
            &&& m.contains_key(other) ==> found[other] == m[other]
        }),
{
}

/// An id registered for a selector is looked up as that selector, and other ids keep
/// theirs.
pub proof fn lemma_registered_element(m: Map<Seq<char>, Seq<char>>, id: Seq<char>, sel: Seq<char>, other: Seq<char>)
    requires
        other != id,
    ensures
        m.insert(id, sel).contains_key(id),
        m.insert(id, sel)[id] == sel,
        m.insert(id, sel).contains_key(other) == m.contains_key(other),
        m.contains_key(other) ==> m.insert(id, sel)[other] == m[other],
{
}

} // verus!
