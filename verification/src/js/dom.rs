//! DOM bookkeeping: the patches scripts make, node handles, and event listeners.
use vstd::prelude::*;

use crate::js::bridge::{err_view, opt_text_view, text_view, DomTree};
use crate::text::{
    ascii_lowercase, chars_of, decimal, decimal_string, digit_value, digits_value, is_digit,
    string_from_chars, to_ascii_lowercase, trim, trim_chars,
};

verus! {

/// One change that a script made to the document, with nodes named by their handles.
#[derive(Debug, Clone, PartialEq, Eq)]
pub enum DomPatch {
    TextContent { handle: String, value: String },
    InnerHtml { handle: String, value: String },
    Attribute { handle: String, name: String, value: String },
    RemoveAttribute { handle: String, name: String },
    AppendChild { parent: String, child: String },
    InsertBefore { parent: String, child: String, reference: Option<String> },
    RemoveChild { parent: String, child: String },
    ReplaceChild { parent: String, new_node: String, old_node: String },
    CreateElement { handle: String, name: String, namespace: Option<String> },
    CreateText { handle: String, value: String },
    CreateComment { handle: String, value: String },
    CloneNode { source: String, handle: String, deep: bool },
}

/// The patches that change an existing node through the document bridge before they are
/// recorded; the others only record what was already done.
pub open spec fn patch_goes_through_bridge(p: DomPatch) -> bool {
    ||| p is TextContent
    ||| p is InnerHtml
    ||| p is Attribute
    ||| p is RemoveAttribute
}

/// Whether applying the patch changes the document through the bridge.
pub fn applies_through_bridge(patch: &DomPatch) -> (r: bool)
    ensures
        r == patch_goes_through_bridge(*patch),
{
    match patch {
        DomPatch::TextContent { .. } => true,
        DomPatch::InnerHtml { .. } => true,
        DomPatch::Attribute { .. } => true,
        DomPatch::RemoveAttribute { .. } => true,
        _ => false,
    }
}

/// Why `str::parse::<usize>` refused a text.
#[derive(Debug, Clone, Copy, PartialEq, Eq, Structural)]
pub enum IntErrorKind {
    /// The text is empty.
    Empty,
    /// A character is not a digit (a lone `+` included).
    InvalidDigit,
    /// The number is larger than `usize::MAX`.
    PosOverflow,
}

/// Scans the digits of `b` from position `i`: the first non-digit is an invalid digit,
/// and the first prefix whose value exceeds `max` is an overflow.
pub open spec fn scan_digits(b: Seq<char>, i: int, max: nat) -> Result<nat, IntErrorKind>
    decreases b.len() - i,
{
    if i >= b.len() {
        Ok(digits_value(b))
    } else if !is_digit(b[i]) {
        Err(IntErrorKind::InvalidDigit)
    } else if digits_value(b.take(i + 1)) > max {
        Err(IntErrorKind::PosOverflow)
    } else {
        scan_digits(b, i + 1, max)
    }
}

/// `str::parse` for an unsigned integer whose largest value is `max`.
pub open spec fn parse_uint(s: Seq<char>, max: nat) -> Result<nat, IntErrorKind> {
    if s.len() == 0 {
        Err(IntErrorKind::Empty)
    } else if s[0] == '+' && s.len() == 1 {
        Err(IntErrorKind::InvalidDigit)
    } else if s[0] == '+' {
        scan_digits(s.drop_first(), 0, max)
    } else {
        scan_digits(s, 0, max)
    }
}

/// The message of `ParseIntError` for each kind.
pub open spec fn int_error_text(k: IntErrorKind) -> Seq<char> {
    match k {
        IntErrorKind::Empty => "cannot parse integer from empty string"@,
        IntErrorKind::InvalidDigit => "invalid digit found in string"@,
        IntErrorKind::PosOverflow => "number too large to fit in target type"@,
    }
}

/// What `parse_handle` answers for a text: the node id, or the error message.
pub open spec fn handle_outcome(handle: Seq<char>) -> Result<nat, Seq<char>> {
    match parse_uint(handle, usize::MAX as nat) {
        Ok(n) => Ok(n),
        Err(k) => Err("invalid handle '"@ + handle + "': "@ + int_error_text(k)),
    }
}

proof fn lemma_take_step(b: Seq<char>, i: int)
    requires
        0 <= i < b.len(),
    ensures
        b.take(i + 1).drop_last() == b.take(i),
        b.take(i + 1).last() == b[i],
{
    assert(b.take(i + 1).drop_last() =~= b.take(i));
}

fn scan_usize(b: &[char], start: usize) -> (r: Result<usize, IntErrorKind>)
    requires
        start <= b@.len(),
    ensures
        match scan_digits(b@.skip(start as int), 0, usize::MAX as nat) {
            Ok(n) => r matches Ok(v) && v as nat == n,
            Err(k) => r == Err::<usize, IntErrorKind>(k),
        },
{
    let ghost body = b@.skip(start as int);
    let mut v: usize = 0;
    let mut i: usize = start;
    proof {
        assert(body.take(0) =~= Seq::<char>::empty());
    }
    while i < b.len()
        invariant
            start <= i <= b@.len(),
            body == b@.skip(start as int),
            v as nat == digits_value(body.take(i - start)),
            scan_digits(body, i - start, usize::MAX as nat) == scan_digits(
                body,
                0,
                usize::MAX as nat,
            ),
        decreases b@.len() - i,
    {
        let c = b[i];
        let ghost k: int = i - start;
        proof {
            assert(body[k] == c);
            lemma_take_step(body, k);
        }
        if !('0' <= c && c <= '9') {
            return Err(IntErrorKind::InvalidDigit);
        }
        let d: usize = (c as u32 - 48) as usize;
        assert(d as nat == digit_value(c));
        assert(digits_value(body.take(k + 1)) == v * 10 + d);
        if v > (usize::MAX - d) / 10 {
            assert(v * 10 + d > usize::MAX) by (nonlinear_arith)
                requires
                    v > (usize::MAX - d) / 10,
                    d <= 9,
            ;
            return Err(IntErrorKind::PosOverflow);
        }
        assert(v * 10 + d <= usize::MAX) by (nonlinear_arith)
            requires
                v <= (usize::MAX - d) / 10,
                d <= 9,
        ;
        v = v * 10 + d;
        i = i + 1;
    }
    assert(body.take(i - start) =~= body);
    Ok(v)
}

fn parse_usize_text(s: &[char]) -> (r: Result<usize, IntErrorKind>)
    ensures
        match parse_uint(s@, usize::MAX as nat) {
            Ok(n) => r matches Ok(v) && v as nat == n,
            Err(k) => r == Err::<usize, IntErrorKind>(k),
        },
{
    if s.len() == 0 {
        return Err(IntErrorKind::Empty);
    }
    if s[0] == '+' {
        if s.len() == 1 {
            return Err(IntErrorKind::InvalidDigit);
        }
        assert(s@.drop_first() =~= s@.skip(1));
        return scan_usize(s, 1);
    }
    assert(s@ =~= s@.skip(0));
    scan_usize(s, 0)
}

/// Reads a node handle: a `usize` in decimal, as `str::parse` reads it.
pub fn parse_handle(handle: &str) -> (r: Result<usize, String>)
    ensures
        match handle_outcome(handle@) {
            Ok(n) => r matches Ok(v) && v as nat == n,
            Err(m) => r matches Err(e) && e@ == m,
        },
{
    let cs = chars_of(handle);
    match parse_usize_text(cs.as_slice()) {
        Ok(v) => Ok(v),
        Err(k) => {
            let mut m = String::from_str("invalid handle '");
            m.append(handle);
            m.append("': ");
            let reason = match k {
                IntErrorKind::Empty => "cannot parse integer from empty string",
                IntErrorKind::InvalidDigit => "invalid digit found in string",
                IntErrorKind::PosOverflow => "number too large to fit in target type",
            };
            assert(reason@ == int_error_text(k));
            m.append(reason);
            assert(m@ == "invalid handle '"@ + handle@ + "': "@ + int_error_text(k));
            Err(m)
        },
    }
}

/// The handle of a node: its id in decimal.
pub fn format_handle(handle: usize) -> (r: String)
    ensures
        r@ == decimal(handle as nat),
{
    decimal_string(handle as u64)
}

/// The handle of a node that may be missing.
pub fn optional_handle(handle: Option<usize>) -> (r: Option<String>)
    ensures
        match handle {
            Some(h) => r matches Some(s) && s@ == decimal(h as nat),
            None => r is None,
        },
{
    match handle {
        Some(h) => Some(format_handle(h)),
        None => None,
    }
}

proof fn lemma_scan_decimal(b: Seq<char>, i: int, max: nat)
    requires
        0 <= i <= b.len(),
        crate::text::all_digits(b),
        digits_value(b) <= max,
    ensures
        scan_digits(b, i, max) == Ok::<nat, IntErrorKind>(digits_value(b)),
    decreases b.len() - i,
{
    if i < b.len() {
        crate::text::lemma_digits_value_prefix(b, i + 1);
        lemma_scan_decimal(b, i + 1, max);
    }
}

/// Reading a handle that `format_handle` wrote gives back the node id.
pub proof fn lemma_handle_roundtrip(id: usize)
    ensures
        handle_outcome(decimal(id as nat)) == Ok::<nat, Seq<char>>(id as nat),
{
    crate::text::lemma_decimal_digits(id as nat);
    lemma_scan_decimal(decimal(id as nat), 0, usize::MAX as nat);
}

/// The key under which listeners of an event type are counted: trimmed, without a
/// leading `on`, in ASCII lower case.
pub open spec fn event_key(name: Seq<char>) -> Seq<char> {
    let t = trim(name);
    let w = if t.len() >= 2 && t[0] == 'o' && t[1] == 'n' {
        t.skip(2)
    } else {
        t
    };
    ascii_lowercase(w)
}

/// Normalizes an event type name.
pub fn normalize_event_name(name: &str) -> (r: String)
    ensures
        r@ == event_key(name@),
{
    let t = trim_chars(name);
    let mut w: Vec<char> = Vec::new();
    let start: usize = if t.len() >= 2 && t[0] == 'o' && t[1] == 'n' {
        2
    } else {
        0
    };
    let mut i: usize = start;
    while i < t.len()
        invariant
            start <= i <= t@.len(),
            w@ == t@.subrange(start as int, i as int),
        decreases t@.len() - i,
    {
        w.push(t[i]);
        proof {
            assert(t@.subrange(start as int, i + 1) =~= t@.subrange(start as int, i as int).push(
                t@[i as int],
            ));
        }
        i = i + 1;
    }
    proof {
        assert(t@.subrange(start as int, t@.len() as int) =~= t@.skip(start as int));
        assert(t@.skip(0) =~= t@);
    }
    let ws = string_from_chars(w.as_slice());
    let lowered = to_ascii_lowercase(ws.as_str());
    string_from_chars(lowered.as_slice())
}

/// The listener count of `key` in a list of (key, count) pairs; 0 when absent.
pub open spec fn count_in(s: Seq<(Seq<char>, nat)>, key: Seq<char>) -> nat {
    if exists|i: int| 0 <= i < s.len() && s[i].0 == key {
        s[choose|i: int| 0 <= i < s.len() && s[i].0 == key].1
    } else {
        0
    }
}

/// Keys appear once and every count is at least one.
pub open spec fn counts_wf(s: Seq<(Seq<char>, nat)>) -> bool {
    &&& forall|i: int, j: int| 0 <= i < j < s.len() ==> s[i].0 != s[j].0
    &&& forall|i: int| 0 <= i < s.len() ==> (#[trigger] s[i]).1 >= 1
}

/// The listener counts as a map from event key to count (keys with a count only).
pub open spec fn counts_map(s: Seq<(Seq<char>, nat)>) -> Map<Seq<char>, nat> {
    Map::new(|k: Seq<char>| count_in(s, k) > 0, |k: Seq<char>| count_in(s, k))
}

/// The counts after one more listener for `key`.
pub open spec fn listened(m: Map<Seq<char>, nat>, key: Seq<char>) -> Map<Seq<char>, nat> {
    m.insert(
        key,
        if m.dom().contains(key) {
            m[key] + 1
        } else {
            1
        },
    )
}

/// The counts after one listener for `key` is removed: the count drops by one, and the
/// key goes away when it was the last listener; an unknown key changes nothing.
pub open spec fn unlistened(m: Map<Seq<char>, nat>, key: Seq<char>) -> Map<Seq<char>, nat> {
    if m.dom().contains(key) {
        if m[key] > 1 {
            m.insert(key, (m[key] - 1) as nat)
        } else {
            m.remove(key)
        }
    } else {
        m
    }
}

/// Every count in the map is at least one.
pub open spec fn counts_positive(m: Map<Seq<char>, nat>) -> bool {
    forall|k: Seq<char>| m.dom().contains(k) ==> #[trigger] m[k] >= 1
}

/// Adding a listener and removing one for the same event type restores the counts.
pub proof fn lemma_listen_unlisten(m: Map<Seq<char>, nat>, key: Seq<char>)
    requires
        counts_positive(m),
    ensures
        unlistened(listened(m, key), key) == m,
        counts_positive(listened(m, key)),
        counts_positive(unlistened(m, key)),
{
    if m.dom().contains(key) {
        assert(unlistened(listened(m, key), key) =~= m);
    } else {
        assert(unlistened(listened(m, key), key) =~= m);
    }
}

/// An event type has listeners exactly after a listen that no unlisten undid.
pub proof fn lemma_listen_then_listening(m: Map<Seq<char>, nat>, key: Seq<char>, other: Seq<char>)
    requires
        counts_positive(m),
        other != key,
    ensures
        listened(m, key).dom().contains(key),
        listened(m, key).dom().contains(other) == m.dom().contains(other),
        unlistened(m, key).dom().contains(other) == m.dom().contains(other),
{
}

/// The counts after a run of calls, each `(true, name)` a `listen(name)` and
/// `(false, name)` an `unlisten(name)`, in order.
pub open spec fn counts_after(m: Map<Seq<char>, nat>, calls: Seq<(bool, Seq<char>)>) -> Map<
    Seq<char>,
    nat,
>
    decreases calls.len(),
{
    if calls.len() == 0 {
        m
    } else {
        let prev = counts_after(m, calls.drop_last());
        if calls.last().0 {
            listened(prev, event_key(calls.last().1))
        } else {
            unlistened(prev, event_key(calls.last().1))
        }
    }
}

/// The listeners of an event key after a run of calls: each listen for the key adds one,
/// each unlisten for it takes one away while any is left.
pub open spec fn net_listeners(calls: Seq<(bool, Seq<char>)>, key: Seq<char>) -> nat
    decreases calls.len(),
{
    if calls.len() == 0 {
        0
    } else {
        let c = net_listeners(calls.drop_last(), key);
        if event_key(calls.last().1) != key {
            c
        } else if calls.last().0 {
            c + 1
        } else if c > 0 {
            (c - 1) as nat
        } else {
            0
        }
    }
}

/// After any run of listen and unlisten calls on a fresh state, an event key has
/// listeners exactly when more listens than (effective) unlistens were made for it, and
/// its count is that difference; an unlisten for a key without listeners changes nothing.
pub proof fn lemma_listener_counts(calls: Seq<(bool, Seq<char>)>, key: Seq<char>)
    ensures
        counts_after(Map::empty(), calls).dom().contains(key) == (net_listeners(calls, key) > 0),
        net_listeners(calls, key) > 0 ==> counts_after(Map::empty(), calls)[key]
            == net_listeners(calls, key),
    decreases calls.len(),
{
    if calls.len() > 0 {
        lemma_listener_counts(calls.drop_last(), key);
    }
}

/// What scripts did to the page: the patches since the last drain and the listener
/// counts per event type, beside the document's first HTML.
pub struct DomState {
    initial_html: String,
    mutations: Vec<DomPatch>,
    listeners: Vec<(String, usize)>,
    document: Option<DomTree>,
}

/// The message of a read made before a document was attached.
pub const NOT_ATTACHED: &'static str = "DOM bridge not attached";

/// Where a read through a handle starts: the node id, once the handle parses and a document
/// is attached (the handle is read first).
pub open spec fn lookup_outcome(doc: Option<DomTree>, handle: Seq<char>) -> Result<nat, Seq<char>> {
    match handle_outcome(handle) {
        Err(m) => Err(m),
        Ok(id) => match doc {
            None => Err(NOT_ATTACHED@),
            Some(_) => Ok(id),
        },
    }
}

/// What a read through a handle gives: the lookup's error, or the read on the document.
pub open spec fn read_outcome<T>(
    doc: Option<DomTree>,
    handle: Seq<char>,
    read: spec_fn(DomTree, nat) -> Result<T, Seq<char>>,
) -> Result<T, Seq<char>> {
    match lookup_outcome(doc, handle) {
        Err(m) => Err(m),
        Ok(id) => read(doc.unwrap(), id),
    }
}

/// An optional node id as a handle.
pub open spec fn handle_text(o: Option<usize>) -> Option<Seq<char>> {
    match o {
        Some(h) => Some(decimal(h as nat)),
        None => None,
    }
}

/// A read of an optional node, with the node given by its handle.
pub open spec fn as_handle(r: Result<Option<usize>, Seq<char>>) -> Result<
    Option<Seq<char>>,
    Seq<char>,
> {
    match r {
        Ok(o) => Ok(handle_text(o)),
        Err(m) => Err(m),
    }
}

pub open spec fn listeners_view(v: Seq<(String, usize)>) -> Seq<(Seq<char>, nat)> {
    v.map_values(|p: (String, usize)| (p.0@, p.1 as nat))
}

proof fn lemma_count_at(s: Seq<(Seq<char>, nat)>, i: int)
    requires
        counts_wf(s),
        0 <= i < s.len(),
    ensures
        count_in(s, s[i].0) == s[i].1,
{
    let c = choose|k: int| 0 <= k < s.len() && s[k].0 == s[i].0;
    assert(c == i) by {
        if c != i {
            if c < i {
                assert(s[c].0 != s[i].0);
            } else {
                assert(s[i].0 != s[c].0);
            }
        }
    }
}

impl DomState {
    pub closed spec fn wf(&self) -> bool {
        counts_wf(listeners_view(self.listeners@))
    }

    /// The listener counts.
    pub closed spec fn listener_counts(&self) -> Map<Seq<char>, nat> {
        counts_map(listeners_view(self.listeners@))
    }

    /// The patches recorded since the last drain.
    pub closed spec fn recorded(&self) -> Seq<DomPatch> {
        self.mutations@
    }

    pub closed spec fn initial_html_view(&self) -> Seq<char> {
        self.initial_html@
    }

    /// The document scripts read, once one is attached.
    pub closed spec fn document(&self) -> Option<DomTree> {
        self.document
    }

    /// State for a document that starts as `html`.
    pub fn new(html: &str) -> (r: DomState)
        ensures
            r.wf(),
            r.initial_html_view() == html@,
            r.recorded() == Seq::<DomPatch>::empty(),
            r.listener_counts() == Map::<Seq<char>, nat>::empty(),
            r.document() is None,
    {
        let r = DomState {
            initial_html: String::from_str(html),
            mutations: Vec::new(),
            listeners: Vec::new(),
            document: None,
        };
        assert(r.listener_counts() =~= Map::<Seq<char>, nat>::empty());
        r
    }

    /// The HTML the document started as.
    pub fn initial_html(&self) -> (r: &str)
        ensures
            r@ == self.initial_html_view(),
    {
        self.initial_html.as_str()
    }

    /// Every event type that is counted has at least one listener.
    pub proof fn lemma_counts_positive(&self)
        requires
            self.wf(),
        ensures
            counts_positive(self.listener_counts()),
    {
        let s = listeners_view(self.listeners@);
        assert forall|k: Seq<char>| self.listener_counts().dom().contains(k) implies #[trigger] self.listener_counts()[k] >= 1 by {
            let i = choose|i: int| 0 <= i < s.len() && s[i].0 == k;
            assert(s[i] == listeners_view(self.listeners@)[i]);
        }
    }

    fn position(&self, key: &str) -> (r: Option<usize>)
        ensures
            match r {
                Some(i) => i < self.listeners@.len() && self.listeners@[i as int].0@ == key@,
                None => forall|i: int|
                    0 <= i < self.listeners@.len() ==> (#[trigger] self.listeners@[i]).0@ != key@,
            },
    {
        let mut i: usize = 0;
        while i < self.listeners.len()
            invariant
                i <= self.listeners@.len(),
                forall|k: int| 0 <= k < i ==> (#[trigger] self.listeners@[k]).0@ != key@,
            decreases self.listeners@.len() - i,
        {
            if crate::text::str_equal(self.listeners[i].0.as_str(), key) {
                return Some(i);
            }
            i = i + 1;
        }
        None
    }

    /// Counts one more listener for an event type.
    pub fn listen(&mut self, event_type: &str)
        requires
            old(self).wf(),
            old(self).listener_counts().dom().contains(event_key(event_type@)) ==> old(
                self,
            ).listener_counts()[event_key(event_type@)] < usize::MAX,
        ensures
            final(self).wf(),
            final(self).listener_counts() == listened(
                old(self).listener_counts(),
                event_key(event_type@),
            ),
            final(self).recorded() == old(self).recorded(),
            final(self).initial_html_view() == old(self).initial_html_view(),
            final(self).document() == old(self).document(),
    {
        let key = normalize_event_name(event_type);
        let ghost s = listeners_view(self.listeners@);
        let ghost m = self.listener_counts();
        match self.position(key.as_str()) {
            Some(i) => {
                proof {
                    assert(s[i as int].0 == key@);
                    lemma_count_at(s, i as int);
                }
                let c = self.listeners[i].1;
                let name = self.listeners[i].0.clone();
                self.listeners.set(i, (name, c + 1));
                proof {
                    let t = listeners_view(self.listeners@);
                    assert(t =~= s.update(i as int, (key@, (c + 1) as nat)));
                    assert forall|a: int, b: int| 0 <= a < b < t.len() implies t[a].0 != t[b].0 by {
                        assert(t[a].0 == s[a].0 && t[b].0 == s[b].0);
                    }
                    assert(counts_wf(t));
                    assert forall|k: Seq<char>| #![auto] count_in(t, k) == (if k == key@ {
                        (c + 1) as nat
                    } else {
                        count_in(s, k)
                    }) by {
                        if k == key@ {
                            lemma_count_at(t, i as int);
                        } else if exists|j: int| 0 <= j < s.len() && s[j].0 == k {
                            let j = choose|j: int| 0 <= j < s.len() && s[j].0 == k;
                            lemma_count_at(s, j);
                            lemma_count_at(t, j);
                        } else {
                            assert(!exists|j: int| 0 <= j < t.len() && t[j].0 == k);
                        }
                    }
                    assert(self.listener_counts() =~= listened(m, key@));
                }
            },
            None => {
                self.listeners.push((key, 1));
                proof {
                    let t = listeners_view(self.listeners@);
                    assert(t =~= s.push((key@, 1nat)));
                    assert(counts_wf(t));
                    assert(!exists|j: int| 0 <= j < s.len() && s[j].0 == key@);
                    assert forall|k: Seq<char>| #![auto] count_in(t, k) == (if k == key@ {
                        1nat
                    } else {
                        count_in(s, k)
                    }) by {
                        if k == key@ {
                            lemma_count_at(t, s.len() as int);
                        } else if exists|j: int| 0 <= j < s.len() && s[j].0 == k {
                            let j = choose|j: int| 0 <= j < s.len() && s[j].0 == k;
                            lemma_count_at(s, j);
                            lemma_count_at(t, j);
                        } else {
                            assert(!exists|j: int| 0 <= j < t.len() && t[j].0 == k);
                        }
                    }
                    assert(self.listener_counts() =~= listened(m, key@));
                }
            },
        }
    }

    /// Counts one listener less for an event type.
    pub fn unlisten(&mut self, event_type: &str)
        requires
            old(self).wf(),
        ensures
            final(self).wf(),
            final(self).listener_counts() == unlistened(
                old(self).listener_counts(),
                event_key(event_type@),
            ),
            final(self).recorded() == old(self).recorded(),
            final(self).initial_html_view() == old(self).initial_html_view(),
            final(self).document() == old(self).document(),
    {
        let key = normalize_event_name(event_type);
        let ghost s = listeners_view(self.listeners@);
        let ghost m = self.listener_counts();
        match self.position(key.as_str()) {
            Some(i) => {
                proof {
                    assert(s[i as int].0 == key@);
                    lemma_count_at(s, i as int);
                }
                let c = self.listeners[i].1;
                if c > 1 {
                    let name = self.listeners[i].0.clone();
                    self.listeners.set(i, (name, c - 1));
                    proof {
                        let t = listeners_view(self.listeners@);
                        assert(t =~= s.update(i as int, (key@, (c - 1) as nat)));
                        assert forall|a: int, b: int| 0 <= a < b < t.len() implies t[a].0
                            != t[b].0 by {
                            assert(t[a].0 == s[a].0 && t[b].0 == s[b].0);
                        }
                        assert(counts_wf(t));
                        assert forall|k: Seq<char>| #![auto] count_in(t, k) == (if k == key@ {
                            (c - 1) as nat
                        } else {
                            count_in(s, k)
                        }) by {
                            if k == key@ {
                                lemma_count_at(t, i as int);
                            } else if exists|j: int| 0 <= j < s.len() && s[j].0 == k {
                                let j = choose|j: int| 0 <= j < s.len() && s[j].0 == k;
                                lemma_count_at(s, j);
                                lemma_count_at(t, j);
                            } else {
                                assert(!exists|j: int| 0 <= j < t.len() && t[j].0 == k);
                            }
                        }
                        assert(self.listener_counts() =~= unlistened(m, key@));
                    }
                } else {
                    self.listeners.remove(i);
                    proof {
                        let t = listeners_view(self.listeners@);
                        assert(t =~= s.remove(i as int));
                        assert forall|a: int, b: int| 0 <= a < b < t.len() implies t[a].0
                            != t[b].0 by {
                            let a2 = if a < i {
                                a
                            } else {
                                a + 1
                            };
                            let b2 = if b < i {
                                b
                            } else {
                                b + 1
                            };
                            assert(t[a] == s[a2] && t[b] == s[b2]);
                        }
                        assert forall|a: int| 0 <= a < t.len() implies (#[trigger] t[a]).1 >= 1 by {
                            let a2 = if a < i {
                                a
                            } else {
                                a + 1
                            };
                            assert(t[a] == s[a2]);
                        }
                        assert(counts_wf(t));
                        assert forall|k: Seq<char>| #![auto] count_in(t, k) == (if k == key@ {
                            0nat
                        } else {
                            count_in(s, k)
                        }) by {
                            if k == key@ {
                                assert forall|j: int| 0 <= j < t.len() implies t[j].0 != k by {
                                    let j2 = if j < i {
                                        j
                                    } else {
                                        j + 1
                                    };
                                    assert(t[j] == s[j2]);
                                    assert(j2 != i);
                                }
                            } else if exists|j: int| 0 <= j < s.len() && s[j].0 == k {
                                let j = choose|j: int| 0 <= j < s.len() && s[j].0 == k;
                                lemma_count_at(s, j);
                                assert(j != i);
                                let j3 = if j < i {
                                    j
                                } else {
                                    j - 1
                                };
                                assert(t[j3] == s[j]);
                                lemma_count_at(t, j3);
                            } else {
                                assert forall|j: int| 0 <= j < t.len() implies t[j].0 != k by {
                                    let j2 = if j < i {
                                        j
                                    } else {
                                        j + 1
                                    };
                                    assert(t[j] == s[j2]);
                                }
                            }
                        }
                        assert(self.listener_counts() =~= unlistened(m, key@));
                    }
                }
            },
            None => {
                proof {
                    assert(!exists|j: int| 0 <= j < s.len() && s[j].0 == key@);
                    assert(self.listener_counts() =~= unlistened(m, key@));
                }
            },
        }
    }

    /// Whether an event type has listeners.
    pub fn is_listening(&self, event_type: &str) -> (r: bool)
        requires
            self.wf(),
        ensures
            r == self.listener_counts().dom().contains(event_key(event_type@)),
    {
        let key = normalize_event_name(event_type);
        let ghost s = listeners_view(self.listeners@);
        match self.position(key.as_str()) {
            Some(i) => {
                proof {
                    assert(s[i as int].0 == key@);
                    lemma_count_at(s, i as int);
                }
                true
            },
            None => {
                proof {
                    assert(!exists|j: int| 0 <= j < s.len() && s[j].0 == key@);
                }
                false
            },
        }
    }

    /// Records a patch that was applied.
    pub fn record_mutation(&mut self, patch: DomPatch)
        ensures
            final(self).recorded() == old(self).recorded().push(patch),
            final(self).listener_counts() == old(self).listener_counts(),
            final(self).wf() == old(self).wf(),
            final(self).initial_html_view() == old(self).initial_html_view(),
            final(self).document() == old(self).document(),
    {
        self.mutations.push(patch);
    }

    /// Hands out the recorded patches, oldest first, and forgets them.
    pub fn drain_mutations(&mut self) -> (r: Vec<DomPatch>)
        ensures
            r@ == old(self).recorded(),
            final(self).recorded() == Seq::<DomPatch>::empty(),
            final(self).listener_counts() == old(self).listener_counts(),
            final(self).wf() == old(self).wf(),
            final(self).initial_html_view() == old(self).initial_html_view(),
            final(self).document() == old(self).document(),
    {
        let mut drained: Vec<DomPatch> = Vec::new();
        std::mem::swap(&mut drained, &mut self.mutations);
        drained
    }

    /// The handle of a node id.
    pub fn handle_to_string(&self, handle: usize) -> (r: String)
        ensures
            r@ == decimal(handle as nat),
    {
        format_handle(handle)
    }

    /// Attaches the document that scripts read; a document attached before stays.
    pub fn attach_document(&mut self, document: DomTree)
        ensures
            final(self).document() == (match old(self).document() {
                Some(d) => Some(d),
                None => Some(document),
            }),
            final(self).recorded() == old(self).recorded(),
            final(self).listener_counts() == old(self).listener_counts(),
            final(self).wf() == old(self).wf(),
            final(self).initial_html_view() == old(self).initial_html_view(),
    {
        if self.document.is_none() {
            self.document = Some(document);
        }
    }

    fn attached(&self) -> (r: Result<&DomTree, String>)
        ensures
            match self.document() {
                Some(t) => r matches Ok(u) && *u == t,
                None => r matches Err(e) && e@ == NOT_ATTACHED@,
            },
    {
        match &self.document {
            Some(t) => Ok(t),
            None => Err(String::from_str(NOT_ATTACHED)),
        }
    }

    fn lookup(&self, handle: &str) -> (r: Result<(&DomTree, usize), String>)
        ensures
            match lookup_outcome(self.document(), handle@) {
                Ok(id) => r matches Ok((t, i)) && Some(*t) == self.document() && i as nat == id,
                Err(m) => r matches Err(e) && e@ == m,
            },
    {
        let id = parse_handle(handle)?;
        let t = self.attached()?;
        Ok((t, id))
    }

    /// The handle of a node's parent.
    pub fn parent_handle(&self, handle: &str) -> (r: Result<Option<String>, String>)
        ensures
            opt_text_view(r) == as_handle(
                read_outcome(self.document(), handle@, |t: DomTree, id: nat| t.parent_outcome(id)),
            ),
    {
        let (t, id) = self.lookup(handle)?;
        let parent = t.parent_node(id)?;
        Ok(optional_handle(parent))
    }

    /// The handle of a node's first child.
    pub fn first_child_handle(&self, handle: &str) -> (r: Result<Option<String>, String>)
        ensures
            opt_text_view(r) == as_handle(
                read_outcome(
                    self.document(),
                    handle@,
                    |t: DomTree, id: nat| t.first_child_outcome(id),
                ),
            ),
    {
        let (t, id) = self.lookup(handle)?;
        let child = t.first_child(id)?;
        Ok(optional_handle(child))
    }

    /// The handle of the sibling after a node.
    pub fn next_sibling_handle(&self, handle: &str) -> (r: Result<Option<String>, String>)
        ensures
            opt_text_view(r) == as_handle(
                read_outcome(
                    self.document(),
                    handle@,
                    |t: DomTree, id: nat| t.sibling_outcome(id as usize, true),
                ),
            ),
    {
        let (t, id) = self.lookup(handle)?;
        let sibling = t.next_sibling(id)?;
        Ok(optional_handle(sibling))
    }

    /// The handle of the sibling before a node.
    pub fn previous_sibling_handle(&self, handle: &str) -> (r: Result<Option<String>, String>)
        ensures
            opt_text_view(r) == as_handle(
                read_outcome(
                    self.document(),
                    handle@,
                    |t: DomTree, id: nat| t.sibling_outcome(id as usize, false),
                ),
            ),
    {
        let (t, id) = self.lookup(handle)?;
        let sibling = t.previous_sibling(id)?;
        Ok(optional_handle(sibling))
    }

    /// The handles of a node's children, in order.
    pub fn child_handles(&self, handle: &str) -> (r: Result<Vec<String>, String>)
        ensures
            match read_outcome(
                self.document(),
                handle@,
                |t: DomTree, id: nat| t.children_outcome(id),
            ) {
                Ok(c) => r matches Ok(v) && v@.len() == c.len() && forall|i: int|
                    0 <= i < c.len() ==> (#[trigger] v@[i])@ == decimal(c[i] as nat),
                Err(m) => r matches Err(e) && e@ == m,
            },
    {
        let (t, id) = self.lookup(handle)?;
        let children = t.child_nodes(id)?;
        let mut out: Vec<String> = Vec::new();
        let mut i: usize = 0;
        while i < children.len()
            invariant
                i <= children@.len(),
                out@.len() == i,
                forall|k: int| 0 <= k < i ==> (#[trigger] out@[k])@ == decimal(children@[k] as nat),
            decreases children@.len() - i,
        {
            out.push(format_handle(children[i]));
            i = i + 1;
        }
        Ok(out)
    }

    /// The node name of a node.
    pub fn node_name(&self, handle: &str) -> (r: Result<String, String>)
        ensures
            text_view(r) == read_outcome(
                self.document(),
                handle@,
                |t: DomTree, id: nat| t.name_outcome(id),
            ),
    {
        let (t, id) = self.lookup(handle)?;
        t.node_name(id)
    }

    /// The DOM node type of a node.
    pub fn node_type(&self, handle: &str) -> (r: Result<u16, String>)
        ensures
            err_view(r) == read_outcome(
                self.document(),
                handle@,
                |t: DomTree, id: nat| t.type_outcome(id),
            ),
    {
        let (t, id) = self.lookup(handle)?;
        t.node_type(id)
    }

    /// The node value of a node.
    pub fn node_value(&self, handle: &str) -> (r: Result<Option<String>, String>)
        ensures
            opt_text_view(r) == read_outcome(
                self.document(),
                handle@,
                |t: DomTree, id: nat| t.value_outcome(id),
            ),
    {
        let (t, id) = self.lookup(handle)?;
        t.node_value(id)
    }

    /// The value of a node's attribute.
    pub fn get_attribute(&self, handle: &str, name: &str) -> (r: Result<Option<String>, String>)
        ensures
            opt_text_view(r) == read_outcome(
                self.document(),
                handle@,
                |t: DomTree, id: nat| t.attribute_outcome(id, name@),
            ),
    {
        let (t, id) = self.lookup(handle)?;
        t.get_attribute(id, name)
    }

    /// The namespace URI of a node.
    pub fn namespace_uri(&self, handle: &str) -> (r: Result<Option<String>, String>)
        ensures
            opt_text_view(r) == read_outcome(
                self.document(),
                handle@,
                |t: DomTree, id: nat| t.namespace_outcome(id),
            ),
    {
        let (t, id) = self.lookup(handle)?;
        t.namespace_uri(id)
    }

    /// The handle of the document node.
    pub fn document_handle(&self) -> (r: Result<String, String>)
        ensures
            match self.document() {
                Some(t) => r matches Ok(s) && s@ == decimal(t.root as nat),
                None => r matches Err(e) && e@ == NOT_ATTACHED@,
            },
    {
        let t = self.attached()?;
        Ok(format_handle(t.document_handle()))
    }
}

} // verus!
