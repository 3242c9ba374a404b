//! The address bar's back and forward history.
use vstd::prelude::*;

use crate::automation::pairs_view;
use crate::text::{has_substring, str_equal, str_has_substring};

verus! {

/// The page shown and the pages before and after it. The last entry of `back` is the
/// page that "back" returns to; the last entry of `forward` the page that "forward" goes to.
#[derive(Debug)]
pub struct BrowserHistory {
    current: String,
    back: Vec<String>,
    forward: Vec<String>,
}

/// The history as (current, back stack, forward stack).
pub type HistoryView = (Seq<char>, Seq<Seq<char>>, Seq<Seq<char>>);

/// Visiting `target`: a different page pushes the current one onto the back stack and
/// clears the forward stack; the same page changes nothing.
pub open spec fn visit(h: HistoryView, target: Seq<char>) -> HistoryView {
    if h.0 != target {
        (target, h.1.push(h.0), Seq::empty())
    } else {
        h
    }
}

/// Going back: the last page of the back stack becomes current, the current page goes on
/// the forward stack. `None` when there is nothing to go back to.
pub open spec fn back(h: HistoryView) -> Option<HistoryView> {
    if h.1.len() == 0 {
        None
    } else {
        Some((h.1.last(), h.1.drop_last(), h.2.push(h.0)))
    }
}

/// Going forward, the mirror of `back`.
pub open spec fn forward(h: HistoryView) -> Option<HistoryView> {
    if h.2.len() == 0 {
        None
    } else {
        Some((h.2.last(), h.1.push(h.0), h.2.drop_last()))
    }
}

/// The (name, value) pairs that `url::form_urlencoded::parse` decodes from a query, in order.
pub uninterp spec fn form_decoded(query: Seq<char>) -> Seq<(Seq<char>, Seq<char>)>;

/// Decodes a query string into its (name, value) pairs with `url::form_urlencoded::parse`.
/// Trusted: the pairs are `form_decoded(query)`.
#[verifier::external_body]
pub(crate) fn form_pairs(query: &str) -> (r: Vec<(String, String)>)
    ensures
        pairs_view(r@) == form_decoded(query@),
{
    let mut out = Vec::new();
    for (name, value) in url::form_urlencoded::parse(query.as_bytes()) {
        out.push((name.into_owned(), value.into_owned()));
    }
    out
}

/// The value of the first pair named `url`.
pub open spec fn first_url_value(pairs: Seq<(Seq<char>, Seq<char>)>) -> Option<Seq<char>>
    decreases pairs.len(),
{
    if pairs.len() == 0 {
        None
    } else if pairs[0].0 == "url"@ {
        Some(pairs[0].1)
    } else {
        first_url_value(pairs.drop_first())
    }
}

/// The `url` value of a query string, if it names one.
pub open spec fn query_url_value(query: Seq<char>) -> Option<Seq<char>> {
    first_url_value(form_decoded(query))
}

/// Looks up the first `url` pair of a query string.
pub fn query_url_param(query: &str) -> (r: Option<String>)
    ensures
        opt_string(r) == query_url_value(query@),
{
    let pairs = form_pairs(query);
    let ghost pv = pairs_view(pairs@);
    let mut i: usize = 0;
    assert(pv.skip(0) =~= pv);
    while i < pairs.len()
        invariant
            pv == pairs_view(pairs@),
            pv == form_decoded(query@),
            i <= pairs@.len(),
            first_url_value(pv) == first_url_value(pv.skip(i as int)),
        decreases pairs@.len() - i,
    {
        proof {
            assert(pv.skip(i as int).drop_first() =~= pv.skip(i + 1));
            assert(pv.skip(i as int)[0] == pv[i as int]);
            assert(pv[i as int] == (pairs@[i as int].0@, pairs@[i as int].1@));
        }
        if str_equal(pairs[i].0.as_str(), "url") {
            return Some(pairs[i].1.clone());
        }
        i = i + 1;
    }
    None
}

/// The page a navigation request asks for: an address-bar submission (an address holding
/// `?url=`) asks for its `url` query value, anything else for the address itself.
pub open spec fn requested_target(href: Seq<char>, query: Option<Seq<char>>) -> Seq<char> {
    if has_substring(href, "?url="@) {
        match query {
            Some(q) => match query_url_value(q) {
                Some(v) => v,
                None => href,
            },
            None => href,
        }
    } else {
        href
    }
}

/// What a navigation request does to the history, and the page to load (if any).
pub open spec fn request_outcome(h: HistoryView, href: Seq<char>, query: Option<Seq<char>>) -> (
    HistoryView,
    Option<Seq<char>>,
) {
    if href == "frontier://back"@ {
        match back(h) {
            Some(h2) => (h2, Some(h2.0)),
            None => (h, None),
        }
    } else if href == "frontier://forward"@ {
        match forward(h) {
            Some(h2) => (h2, Some(h2.0)),
            None => (h, None),
        }
    } else {
        let t = requested_target(href, query);
        (visit(h, t), Some(t))
    }
}

pub open spec fn opt_str(o: Option<&str>) -> Option<Seq<char>> {
    match o {
        Some(s) => Some(s@),
        None => None,
    }
}

impl BrowserHistory {
    pub closed spec fn view(&self) -> HistoryView {
        (self.current@, self.back.deep_view(), self.forward.deep_view())
    }

    /// A history that starts at `initial`.
    pub fn new(initial: String) -> (r: BrowserHistory)
        ensures
            r.view() == (initial@, Seq::<Seq<char>>::empty(), Seq::<Seq<char>>::empty()),
    {
        let r = BrowserHistory { current: initial, back: Vec::new(), forward: Vec::new() };
        assert(r.back.deep_view() =~= Seq::<Seq<char>>::empty());
        assert(r.forward.deep_view() =~= Seq::<Seq<char>>::empty());
        r
    }

    /// The address shown in the address bar.
    pub fn current(&self) -> (r: &str)
        ensures
            r@ == self.view().0,
    {
        self.current.as_str()
    }

    /// Replaces the shown address without touching the stacks (a loaded document, typed text).
    pub fn set_current(&mut self, value: String)
        ensures
            final(self).view() == (value@, old(self).view().1, old(self).view().2),
    {
        self.current = value;
    }

    /// Records a visit to `target` and returns the address to load.
    pub fn visit(&mut self, target: String) -> (r: String)
        ensures
            final(self).view() == visit(old(self).view(), target@),
            r@ == target@,
    {
        let ghost h = self.view();
        if !str_equal(self.current.as_str(), target.as_str()) {
            let previous = self.current.clone();
            self.back.push(previous);
            self.forward.clear();
            assert(self.back.deep_view() =~= h.1.push(h.0));
            assert(self.forward.deep_view() =~= Seq::<Seq<char>>::empty());
        }
        let out = target.clone();
        self.current = target;
        out
    }

    /// Goes back one page; returns the address to load.
    pub fn go_back(&mut self) -> (r: Option<String>)
        ensures
            match back(old(self).view()) {
                Some(h2) => final(self).view() == h2 && opt_string(r) == Some(h2.0),
                None => final(self).view() == old(self).view() && r is None,
            },
    {
        let ghost h = self.view();
        match self.back.pop() {
            Some(target) => {
                assert(self.back.deep_view() =~= h.1.drop_last());
                let current = self.current.clone();
                self.forward.push(current);
                assert(self.forward.deep_view() =~= h.2.push(h.0));
                let out = target.clone();
                self.current = target;
                Some(out)
            },
            None => None,
        }
    }

    /// Goes forward one page; returns the address to load.
    pub fn go_forward(&mut self) -> (r: Option<String>)
        ensures
            match forward(old(self).view()) {
                Some(h2) => final(self).view() == h2 && opt_string(r) == Some(h2.0),
                None => final(self).view() == old(self).view() && r is None,
            },
    {
        let ghost h = self.view();
        match self.forward.pop() {
            Some(target) => {
                assert(self.forward.deep_view() =~= h.2.drop_last());
                let current = self.current.clone();
                self.back.push(current);
                assert(self.back.deep_view() =~= h.1.push(h.0));
                let out = target.clone();
                self.current = target;
                Some(out)
            },
            None => None,
        }
    }

    /// Handles a navigation request for the address `href` (with its query string):
    /// `frontier://back` and `frontier://forward` move through the history, anything else is
    /// a visit. Returns the address to load, if any.
    pub fn request(&mut self, href: &str, query: Option<&str>) -> (r: Option<String>)
        ensures
            final(self).view() == request_outcome(old(self).view(), href@, opt_str(query)).0,
            opt_string(r) == request_outcome(old(self).view(), href@, opt_str(query)).1,
    {
        if str_equal(href, "frontier://back") {
            return self.go_back();
        }
        if str_equal(href, "frontier://forward") {
            return self.go_forward();
        }
        let target = navigation_target(href, query);
        let loaded = self.visit(target);
        Some(loaded)
    }
}

pub open spec fn opt_string(o: Option<String>) -> Option<Seq<char>> {
    match o {
        Some(s) => Some(s@),
        None => None,
    }
}

/// The page a navigation request asks for (see `requested_target`).
pub fn navigation_target(href: &str, query: Option<&str>) -> (r: String)
    ensures
        r@ == requested_target(href@, opt_str(query)),
{
    if str_has_substring(href, "?url=") {
        if let Some(q) = query {
            if let Some(v) = query_url_param(q) {
                return v;
            }
        }
    }
    String::from_str(href)
}

/// Going back and then forward returns to the same history.
pub proof fn lemma_back_then_forward(h: HistoryView)
    requires
        back(h) is Some,
    ensures
        forward(back(h)->0) == Some(h),
{
    let h2 = back(h)->0;
    assert(h2.2.drop_last() =~= h.2);
    assert(h2.1.push(h2.0) =~= h.1);
}

/// Going forward and then back returns to the same history.
pub proof fn lemma_forward_then_back(h: HistoryView)
    requires
        forward(h) is Some,
    ensures
        back(forward(h)->0) == Some(h),
{
    let h2 = forward(h)->0;
    assert(h2.1.drop_last() =~= h.1);
    assert(h2.2.push(h2.0) =~= h.2);
}

/// Visiting a new page and going back shows the previous page again, with the visited
/// page as the only way forward.
pub proof fn lemma_visit_then_back(h: HistoryView, target: Seq<char>)
    requires
        h.0 != target,
    ensures
        back(visit(h, target)) == Some((h.0, h.1, seq![target])),
{
    let v = visit(h, target);
    assert(v.1.drop_last() =~= h.1);
    assert(Seq::<Seq<char>>::empty().push(target) =~= seq![target]);
}

/// Visiting the page already shown leaves the history as it is.
pub proof fn lemma_visit_same_page(h: HistoryView)
    ensures
        visit(h, h.0) == h,
{
}

/// A visit to a different page leaves nothing to go forward to.
pub proof fn lemma_visit_clears_forward(h: HistoryView, target: Seq<char>)
    requires
        h.0 != target,
    ensures
        forward(visit(h, target)) is None,
        visit(h, target).0 == target,
{
}

} // verus!
