//! Turning events and cached rows into ranked claims for a name.
use vstd::prelude::*;
use vstd::multiset::Multiset;

use crate::hexcode::all_hex_digits;
use crate::net::nostr_client::{npub_from_hex, npub_outcome, RelayEvent};
use crate::nns::models::{
    claim_outcome, copy_strings, model_error_text, endpoints_view, score_key_text, EndpointView, ClaimLocation, LocationView, ModelError, NnsClaim,
    NnsClaimView, ResolvedClaims,
};
use crate::nns::scoring::{claim_score, opt_selected, score_claim};
use crate::storage::{ClaimRecord, SelectionRecord};
use crate::text::{prefixed, ascii_lowercase, str_equal, to_ascii_lowercase_string, trim, trim_string};
use crate::weburl::{parse_socket_addr, socket_addr_outcome, url_parse, url_parse_outcome};

verus! {

/// How long cached claims stay fresh, in seconds.
pub const CACHE_TTL_SECONDS: i64 = 600;

/// The Nostr event kind of name claims.
pub const CLAIM_EVENT_KIND: u16 = 34256;

#[derive(Debug, Clone, PartialEq, Eq)]
pub enum ResolverError {
    Storage(String),
    Nostr(String),
    NoClaims(String),
    InvalidCachedPubkey(String),
    InvalidCachedEvent(String),
    Join(String),
    Claim(ModelError),
}

/// The message of each resolver error.
pub open spec fn resolver_error_text(e: ResolverError) -> Seq<char> {
    match e {
        ResolverError::Storage(s) => "storage error: "@ + s@,
        ResolverError::Nostr(s) => "nostr error: "@ + s@,
        ResolverError::NoClaims(s) => "no claims found for "@ + s@,
        ResolverError::InvalidCachedPubkey(s) => "invalid cached pubkey: "@ + s@,
        ResolverError::InvalidCachedEvent(s) => "invalid cached event id: "@ + s@,
        ResolverError::Join(s) => "task join error: "@ + s@,
        ResolverError::Claim(m) => "claim error: "@ + model_error_text(m),
    }
}

impl ResolverError {
    /// The error's message.
    pub fn message(&self) -> (r: String)
        ensures
            r@ == resolver_error_text(*self),
    {
        match self {
            ResolverError::Storage(s) => prefixed("storage error: ", s.as_str()),
            ResolverError::Nostr(s) => prefixed("nostr error: ", s.as_str()),
            ResolverError::NoClaims(s) => prefixed("no claims found for ", s.as_str()),
            ResolverError::InvalidCachedPubkey(s) => prefixed("invalid cached pubkey: ", s.as_str()),
            ResolverError::InvalidCachedEvent(s) => prefixed("invalid cached event id: ", s.as_str()),
            ResolverError::Join(s) => prefixed("task join error: ", s.as_str()),
            ResolverError::Claim(m) => {
                let inner = m.message();
                prefixed("claim error: ", inner.as_str())
            },
        }
    }
}

/// What `nostr_sdk::EventId::from_hex` accepts: exactly 64 hex digits (either case), the
/// 32 bytes of an id.
pub open spec fn event_id_hex_ok(hex: Seq<char>) -> bool {
    hex.len() == 64 && all_hex_digits(hex)
}

/// Checks an event id with `nostr_sdk::EventId::from_hex`. Trusted: it accepts exactly
/// 64 hex digits (`hex::decode_to_slice` into 32 bytes).
#[verifier::external_body]
pub(crate) fn event_id_valid(hex: &str) -> (r: bool)
    ensures
        r == event_id_hex_ok(hex@),
{
    nostr_sdk::prelude::EventId::from_hex(hex).is_ok()
}

/// A name as it is looked up: trimmed and lower-cased.
pub open spec fn normalized_name(name: Seq<char>) -> Seq<char> {
    ascii_lowercase(trim(name))
}

pub fn normalize_name(name: &str) -> (r: String)
    ensures
        r@ == normalized_name(name@),
{
    let t = trim_string(name);
    to_ascii_lowercase_string(t.as_str())
}

pub open spec fn claims_view(v: Seq<NnsClaim>) -> Seq<NnsClaimView> {
    Seq::new(v.len(), |i: int| v[i]@)
}

/// `a` with the relays of `b` that it lacks appended, in order.
pub open spec fn relay_union(a: Seq<Seq<char>>, b: Seq<Seq<char>>) -> Seq<Seq<char>>
    decreases b.len(),
{
    if b.len() == 0 {
        a
    } else {
        let u = relay_union(a, b.drop_last());
        if u.contains(b.last()) {
            u
        } else {
            u.push(b.last())
        }
    }
}

/// Index of the claim with this score key at or after `k`, or -1.
pub open spec fn key_index(t: Seq<NnsClaimView>, key: Seq<char>, k: int) -> int
    decreases t.len() - k,
{
    if k < 0 || k >= t.len() {
        -1
    } else if score_key_text(t[k]) == key {
        k
    } else {
        key_index(t, key, k + 1)
    }
}

/// A claim merged into one with the same key: the relays are united, and a newer claim
/// brings its time, event id and note.
pub open spec fn merged_claim(existing: NnsClaimView, c: NnsClaimView) -> NnsClaimView {
    let relays = relay_union(existing.relays, c.relays);
    if c.created_at > existing.created_at {
        NnsClaimView { relays, created_at: c.created_at, event_id: c.event_id, note: c.note, ..existing }
    } else {
        NnsClaimView { relays, ..existing }
    }
}

/// The claim table after one more claim: merged into the claim with the same score key,
/// or appended.
pub open spec fn merge_into(t: Seq<NnsClaimView>, c: NnsClaimView) -> Seq<NnsClaimView> {
    let k = key_index(t, score_key_text(c), 0);
    if k < 0 {
        t.push(c)
    } else {
        t.update(k, merged_claim(t[k], c))
    }
}

/// The claims that a list of events makes on `name`, one per score key; events that make
/// no claim are skipped.
pub open spec fn collected_claims(name: Seq<char>, evs: Seq<RelayEvent>) -> Seq<NnsClaimView>
    decreases evs.len(),
{
    if evs.len() == 0 {
        Seq::empty()
    } else {
        let t = collected_claims(name, evs.drop_last());
        match claim_outcome(name, evs.last()) {
            Ok(c) => merge_into(t, c),
            Err(_) => t,
        }
    }
}

fn contains_string(v: &Vec<String>, s: &String) -> (r: bool)
    ensures
        r == v.deep_view().contains(s@),
{
    let ghost dv = v.deep_view();
    let mut i: usize = 0;
    while i < v.len()
        invariant
            dv == v.deep_view(),
            i <= dv.len(),
            forall|k: int| 0 <= k < i ==> dv[k] != s@,
        decreases dv.len() - i,
    {
        if str_equal(v[i].as_str(), s.as_str()) {
            assert(dv[i as int] == s@);
            return true;
        }
        i = i + 1;
    }
    false
}

fn unite_relays(a: &mut Vec<String>, b: &Vec<String>)
    ensures
        final(a).deep_view() == relay_union(old(a).deep_view(), b.deep_view()),
{
    let ghost a0 = a.deep_view();
    let ghost bv = b.deep_view();
    let mut i: usize = 0;
    while i < b.len()
        invariant
            bv == b.deep_view(),
            i <= bv.len(),
            a.deep_view() == relay_union(a0, bv.take(i as int)),
        decreases bv.len() - i,
    {
        proof {
            assert(bv.take(i + 1).drop_last() =~= bv.take(i as int));
            assert(bv.take(i + 1).last() == bv[i as int]);
        }
        if !contains_string(a, &b[i]) {
            let ghost before = a.deep_view();
            a.push(b[i].clone());
            assert(a.deep_view() =~= before.push(bv[i as int]));
        }
        i = i + 1;
    }
    assert(bv.take(bv.len() as int) =~= bv);
}

fn claim_position(t: &Vec<NnsClaim>, key: &String) -> (r: Option<usize>)
    ensures
        match r {
            Some(k) => k < t@.len() && key_index(claims_view(t@), key@, 0) == k,
            None => key_index(claims_view(t@), key@, 0) == -1,
        },
{
    let ghost tv = claims_view(t@);
    let mut k: usize = 0;
    while k < t.len()
        invariant
            tv == claims_view(t@),
            k <= tv.len(),
            key_index(tv, key@, 0) == key_index(tv, key@, k as int),
        decreases tv.len() - k,
    {
        let kk = t[k].score_key();
        if str_equal(kk.as_str(), key.as_str()) {
            return Some(k);
        }
        k = k + 1;
    }
    None
}

/// Merges a claim into the table (see `merge_into`).
fn merge_claim(t: &mut Vec<NnsClaim>, c: NnsClaim)
    ensures
        claims_view(final(t)@) == merge_into(claims_view(old(t)@), c@),
{
    let ghost before = claims_view(t@);
    let key = c.score_key();
    match claim_position(t, &key) {
        None => {
            t.push(c);
            assert(claims_view(t@) =~= before.push(c@));
        },
        Some(k) => {
            let mut existing = t.remove(k);
            assert(existing@ == before[k as int]);
            unite_relays(&mut existing.relays, &c.relays);
            if c.created_at > existing.created_at {
                existing.created_at = c.created_at;
                existing.event_id = c.event_id;
                existing.note = c.note;
            }
            assert(existing@ == merged_claim(before[k as int], c@));
            t.insert(k, existing);
            assert(claims_view(t@) =~= before.update(k as int, merged_claim(before[k as int], c@)));
        },
    }
}

/// The claims that the events make on the (normalized) name, one per score key.
pub fn collect_claims(normalized: &str, events: &Vec<RelayEvent>) -> (r: Vec<NnsClaim>)
    ensures
        claims_view(r@) == collected_claims(normalized@, events@),
{
    let mut table: Vec<NnsClaim> = Vec::new();
    let mut i: usize = 0;
    proof {
        assert(claims_view(table@) =~= Seq::<NnsClaimView>::empty());
        assert(events@.take(0) =~= Seq::<RelayEvent>::empty());
    }
    while i < events.len()
        invariant
            i <= events@.len(),
            claims_view(table@) == collected_claims(normalized@, events@.take(i as int)),
        decreases events@.len() - i,
    {
        proof {
            assert(events@.take(i + 1).drop_last() =~= events@.take(i as int));
            assert(events@.take(i + 1).last() == events@[i as int]);
        }
        match NnsClaim::from_event(normalized, &events[i]) {
            Ok(claim) => {
                merge_claim(&mut table, claim);
            },
            Err(_) => {},
        }
        i = i + 1;
    }
    assert(events@.take(events@.len() as int) =~= events@);
    table
}

/// Position at which a claim with score `sc` goes into a list sorted best-first:
/// after every claim that scores at least as much.
pub open spec fn insert_pos(s: Seq<NnsClaimView>, sc: int, sel: Option<Seq<char>>, now: i64, j: int) -> int
    decreases s.len() - j,
{
    if j < 0 || j >= s.len() {
        s.len() as int
    } else if claim_score(s[j], sel, now) < sc {
        j
    } else {
        insert_pos(s, sc, sel, now, j + 1)
    }
}

/// Claims sorted best-first by score; claims that score the same keep their order.
pub open spec fn ranked(s: Seq<NnsClaimView>, sel: Option<Seq<char>>, now: i64) -> Seq<NnsClaimView>
    decreases s.len(),
{
    if s.len() == 0 {
        Seq::empty()
    } else {
        let r = ranked(s.drop_last(), sel, now);
        r.insert(insert_pos(r, claim_score(s.last(), sel, now), sel, now, 0), s.last())
    }
}

pub open spec fn sorted_best_first(s: Seq<NnsClaimView>, sel: Option<Seq<char>>, now: i64) -> bool {
    forall|i: int, j: int|
        0 <= i < j < s.len() ==> claim_score(s[i], sel, now) >= claim_score(s[j], sel, now)
}

proof fn lemma_insert_pos(s: Seq<NnsClaimView>, sc: int, sel: Option<Seq<char>>, now: i64, j: int)
    requires
        0 <= j <= s.len(),
        sorted_best_first(s, sel, now),
        forall|k: int| 0 <= k < j ==> claim_score(s[k], sel, now) >= sc,
    ensures
        j <= insert_pos(s, sc, sel, now, j) <= s.len(),
        forall|k: int| 0 <= k < insert_pos(s, sc, sel, now, j) ==> claim_score(s[k], sel, now) >= sc,
        forall|k: int| insert_pos(s, sc, sel, now, j) <= k < s.len() ==> claim_score(s[k], sel, now) < sc,
    decreases s.len() - j,
{
    if j < s.len() && claim_score(s[j], sel, now) >= sc {
        lemma_insert_pos(s, sc, sel, now, j + 1);
    }
}

/// Ranking sorts best-first and keeps exactly the claims it was given.
pub proof fn lemma_ranked(s: Seq<NnsClaimView>, sel: Option<Seq<char>>, now: i64)
    ensures
        sorted_best_first(ranked(s, sel, now), sel, now),
        ranked(s, sel, now).to_multiset() == s.to_multiset(),
        ranked(s, sel, now).len() == s.len(),
    decreases s.len(),
{
    if s.len() > 0 {
        let r = ranked(s.drop_last(), sel, now);
        lemma_ranked(s.drop_last(), sel, now);
        let sc = claim_score(s.last(), sel, now);
        lemma_insert_pos(r, sc, sel, now, 0);
        let p = insert_pos(r, sc, sel, now, 0);
        let out = r.insert(p, s.last());
        assert forall|i: int, j: int| 0 <= i < j < out.len() implies claim_score(out[i], sel, now)
            >= claim_score(out[j], sel, now) by {
            if i < p && j < p {
            } else if i < p && j == p {
            } else if i < p && j > p {
                assert(out[j] == r[j - 1]);
            } else if i == p {
                assert(out[j] == r[j - 1]);
            } else {
                assert(out[i] == r[i - 1]);
                assert(out[j] == r[j - 1]);
            }
        }
        vstd::seq_lib::to_multiset_insert(r, p, s.last());
        vstd::seq_lib::to_multiset_build(s.drop_last(), s.last());
        assert(s.drop_last().push(s.last()) =~= s);
        assert(ranked(s, sel, now) == out);
        assert(out.to_multiset() == r.to_multiset().insert(s.last()));
        assert(r.to_multiset() == s.drop_last().to_multiset());
        assert(s.to_multiset() == s.drop_last().to_multiset().insert(s.last()));
    } else {
        assert(s =~= Seq::<NnsClaimView>::empty());
    }
}

/// Sorts claims best-first (stable); see `ranked`.
pub fn rank_claims(claims: Vec<NnsClaim>, selection: Option<&SelectionRecord>, now: i64) -> (r:
    Result<ResolvedClaims, ResolverError>)
    ensures
        claims@.len() == 0 <==> r is Err,
        r matches Err(e) ==> (e matches ResolverError::NoClaims(m) && m@.len() == 0),
        r matches Ok(rc) ==> ({
            let all = ranked(claims_view(claims@), selection_key(selection), now);
            &&& rc.primary@ == all[0]
            &&& claims_view(rc.alternates@) == all.drop_first()
        }),
{
    let selected: Option<&str> = match selection {
        Some(sel) => Some(sel.pubkey.as_str()),
        None => None,
    };
    let ghost sel = selection_key(selection);
    assert(opt_selected(selected) == sel);
    let ghost input = claims_view(claims@);
    let mut rest = claims;
    let mut out: Vec<NnsClaim> = Vec::new();
    let ghost mut done: int = 0;
    proof {
        assert(claims_view(out@) =~= ranked(input.take(0), sel, now));
        assert(claims_view(rest@) =~= input.skip(0));
    }
    while rest.len() > 0
        invariant
            0 <= done <= input.len(),
            rest@.len() + done == input.len(),
            claims_view(rest@) == input.skip(done),
            claims_view(out@) == ranked(input.take(done), sel, now),
            opt_selected(selected) == sel,
        decreases rest@.len(),
    {
        let ghost rv = claims_view(rest@);
        let ghost old_rest = rest@;
        assert(rv[0] == input[done]);
        let c = rest.remove(0);
        proof {
            assert(c@ == input[done]);
            assert(claims_view(rest@) =~= input.skip(done + 1)) by {
                assert forall|k: int| 0 <= k < rest@.len() implies claims_view(rest@)[k] == input.skip(done + 1)[k] by {
                    assert(rest@[k] == old_rest[k + 1]);
                    assert(rv[k + 1] == input.skip(done)[k + 1]);
                }
            }
            assert(input.take(done + 1).drop_last() =~= input.take(done));
            assert(input.take(done + 1).last() == input[done]);
        }
        let sc = score_claim(&c, selected, now);
        let ghost ov = claims_view(out@);
        let j = insertion_point(&out, sc, selected, now);
        out.insert(j, c);
        assert(claims_view(out@) =~= ov.insert(j as int, c@));
        proof {
            done = done + 1;
        }
    }
    assert(input.take(done) =~= input);
    if out.len() == 0 {
        return Err(ResolverError::NoClaims(String::new()));
    }
    let primary = out.remove(0);
    Ok(ResolvedClaims { primary, alternates: out })
}

fn insertion_point(out: &Vec<NnsClaim>, sc: u64, selected: Option<&str>, now: i64) -> (r: usize)
    ensures
        r == insert_pos(claims_view(out@), sc as int, opt_selected(selected), now, 0),
        r <= out@.len(),
{
    let ghost ov = claims_view(out@);
    let ghost sel = opt_selected(selected);
    let mut j: usize = 0;
    while j < out.len()
        invariant
            ov == claims_view(out@),
            sel == opt_selected(selected),
            j <= ov.len(),
            insert_pos(ov, sc as int, sel, now, 0) == insert_pos(ov, sc as int, sel, now, j as int),
        decreases ov.len() - j,
    {
        let s2 = score_claim(&out[j], selected, now);
        if s2 < sc {
            return j;
        }
        j = j + 1;
    }
    j
}

pub open spec fn selection_key(selection: Option<&SelectionRecord>) -> Option<Seq<char>> {
    match selection {
        Some(s) => Some(s.pubkey@),
        None => None,
    }
}

/// In a ranking, the primary claim scores at least as much as every alternate.
pub proof fn lemma_primary_is_best(s: Seq<NnsClaimView>, sel: Option<Seq<char>>, now: i64, k: int)
    requires
        s.len() > 0,
        1 <= k < s.len(),
    ensures
        claim_score(ranked(s, sel, now)[0], sel, now) >= claim_score(ranked(s, sel, now)[k], sel, now),
{
    lemma_ranked(s, sel, now);
}

/// The cached rows that are still fresh at `now`.
pub open spec fn fresh_rows(records: Seq<ClaimRecord>, now: i64) -> Seq<ClaimRecord>
    decreases records.len(),
{
    if records.len() == 0 {
        Seq::empty()
    } else if now - records.last().fetched_at <= CACHE_TTL_SECONDS {
        fresh_rows(records.drop_last(), now).push(records.last())
    } else {
        fresh_rows(records.drop_last(), now)
    }
}

/// The relays of a cached row that parse as URLs, serialized, each URL once (in the order
/// of its first appearance): a set of relay URLs.
pub open spec fn parsed_relays(relays: Seq<Seq<char>>) -> Seq<Seq<char>>
    decreases relays.len(),
{
    if relays.len() == 0 {
        Seq::empty()
    } else {
        let r = parsed_relays(relays.drop_last());
        match url_parse_outcome(relays.last()) {
            Ok(p) => if r.contains(p.0) {
                r
            } else {
                r.push(p.0)
            },
            Err(_) => r,
        }
    }
}

/// The relays of a cached row hold no URL twice.
pub proof fn lemma_parsed_relays_distinct(relays: Seq<Seq<char>>)
    ensures
        parsed_relays(relays).no_duplicates(),
    decreases relays.len(),
{
    if relays.len() > 0 {
        lemma_parsed_relays_distinct(relays.drop_last());
    }
}

/// The location a cached row stands for: the decoded `location` column when there is one
/// (`None` when it did not decode), else the `ip` column as a socket address.
pub open spec fn cached_location(record: ClaimRecord, decoded: Option<LocationView>) -> Option<LocationView> {
    match record.location {
        Some(_) => decoded,
        None => match socket_addr_outcome(record.ip@) {
            Some(a) => Some(LocationView::DirectIp(a)),
            None => None,
        },
    }
}

/// The claim a cached row stands for: `Ok(None)` when its location is unusable.
pub open spec fn record_claim(record: ClaimRecord, decoded: Option<LocationView>) -> Result<Option<NnsClaimView>, ResolverError> {
    match npub_outcome(record.pubkey@) {
        None => Err(ResolverError::InvalidCachedPubkey(record.pubkey)),
        Some(npub) => if !event_id_hex_ok(record.event_id@) {
            Err(ResolverError::InvalidCachedEvent(record.event_id))
        } else {
            match cached_location(record, decoded) {
                None => Ok(None),
                Some(loc) => Ok(
                    Some(
                        NnsClaimView {
                            name: record.name@,
                            service_kind: None,
                            location: loc,
                            endpoints: Seq::empty(),
                            pubkey_hex: record.pubkey@,
                            pubkey_npub: npub,
                            created_at: (if record.created_at < 0 {
                                0
                            } else {
                                record.created_at
                            }) as u64,
                            relays: parsed_relays(record.relays.deep_view()),
                            note: None,
                            event_id: record.event_id@,
                            tls_key: None,
                        },
                    ),
                ),
            }
        },
    }
}

pub open spec fn opt_location_view(o: Option<ClaimLocation>) -> Option<LocationView> {
    match o {
        Some(l) => Some(l@),
        None => None,
    }
}

fn parse_relays(relays: &Vec<String>) -> (r: Vec<String>)
    ensures
        r.deep_view() == parsed_relays(relays.deep_view()),
{
    let ghost rv = relays.deep_view();
    let mut out: Vec<String> = Vec::new();
    let mut i: usize = 0;
    proof {
        assert(rv.take(0) =~= Seq::<Seq<char>>::empty());
        assert(out.deep_view() =~= Seq::<Seq<char>>::empty());
    }
    while i < relays.len()
        invariant
            rv == relays.deep_view(),
            i <= rv.len(),
            out.deep_view() == parsed_relays(rv.take(i as int)),
        decreases rv.len() - i,
    {
        proof {
            assert(rv.take(i + 1).drop_last() =~= rv.take(i as int));
            assert(rv.take(i + 1).last() == rv[i as int]);
        }
        match url_parse(relays[i].as_str()) {
            Ok(u) => {
                if !contains_string(&out, &u.href) {
                    let ghost before = out.deep_view();
                    out.push(u.href);
                    assert(out.deep_view() =~= before.push(u.href@));
                }
            },
            Err(_) => {},
        }
        i = i + 1;
    }
    assert(rv.take(rv.len() as int) =~= rv);
    out
}

/// Turns a cached row back into a claim. `decoded` is the row's `location` column decoded
/// (`None` when it did not decode); it is not read when the column is empty.
pub fn record_to_claim(record: &ClaimRecord, decoded: Option<ClaimLocation>) -> (r: Result<
    Option<NnsClaim>,
    ResolverError,
>)
    ensures
        match r {
            Ok(Some(c)) => record_claim(*record, opt_location_view(decoded)) == Ok::<
                Option<NnsClaimView>,
                ResolverError,
            >(Some(c@)),
            Ok(None) => record_claim(*record, opt_location_view(decoded)) == Ok::<
                Option<NnsClaimView>,
                ResolverError,
            >(None),
            Err(e) => record_claim(*record, opt_location_view(decoded)) == Err::<
                Option<NnsClaimView>,
                ResolverError,
            >(e),
        },
{
    let pubkey_npub = match npub_from_hex(record.pubkey.as_str()) {
        Some(n) => n,
        None => {
            return Err(ResolverError::InvalidCachedPubkey(record.pubkey.clone()));
        },
    };
    if !event_id_valid(record.event_id.as_str()) {
        return Err(ResolverError::InvalidCachedEvent(record.event_id.clone()));
    }
    let location = match &record.location {
        Some(_) => match decoded {
            Some(l) => l,
            None => {
                return Ok(None);
            },
        },
        None => match parse_socket_addr(record.ip.as_str()) {
            Some(a) => ClaimLocation::DirectIp(a),
            None => {
                return Ok(None);
            },
        },
    };
    let created_at: u64 = if record.created_at < 0 {
        0
    } else {
        record.created_at as u64
    };
    let claim = NnsClaim {
                name: record.name.clone(),
                service_kind: None,
                location,
                endpoints: Vec::new(),
                pubkey_hex: record.pubkey.clone(),
                pubkey_npub,
                created_at,
                relays: parse_relays(&record.relays),
                note: None,
                event_id: record.event_id.clone(),
                tls_key: None,
            };
    assert(endpoints_view(claim.endpoints@) =~= Seq::<EndpointView>::empty());
    Ok(Some(claim))
}

/// The fresh cached rows (fetched at most `CACHE_TTL_SECONDS` before `now`).
pub fn fresh_records(records: &Vec<ClaimRecord>, now: i64) -> (r: Vec<usize>)
    requires
        forall|i: int|
            0 <= i < records@.len() ==> i64::MIN <= now - #[trigger] records@[i].fetched_at
                <= i64::MAX,
    ensures
        r@.len() == fresh_rows(records@, now).len(),
        forall|k: int|
            #![trigger r@[k]]
            0 <= k < r@.len() ==> r@[k] < records@.len() && records@[r@[k] as int] == fresh_rows(
                records@,
                now,
            )[k],
{
    let mut out: Vec<usize> = Vec::new();
    let mut i: usize = 0;
    proof {
        assert(records@.take(0) =~= Seq::<ClaimRecord>::empty());
    }
    while i < records.len()
        invariant
            i <= records@.len(),
            forall|j: int|
                0 <= j < records@.len() ==> i64::MIN <= now - #[trigger] records@[j].fetched_at
                    <= i64::MAX,
            out@.len() == fresh_rows(records@.take(i as int), now).len(),
            forall|k: int|
                #![trigger out@[k]]
                0 <= k < out@.len() ==> out@[k] < i && records@[out@[k] as int] == fresh_rows(
                    records@.take(i as int),
                    now,
                )[k],
        decreases records@.len() - i,
    {
        proof {
            assert(records@.take(i + 1).drop_last() =~= records@.take(i as int));
            assert(records@.take(i + 1).last() == records@[i as int]);
        }
        let ghost prev = out@;
        let ghost fr = fresh_rows(records@.take(i as int), now);
        let age: i64 = now - records[i].fetched_at;
        if age <= CACHE_TTL_SECONDS {
            out.push(i);
            proof {
                let fr2 = fresh_rows(records@.take(i + 1), now);
                assert(fr2 == fr.push(records@[i as int]));
                assert forall|k: int| #![trigger out@[k]] 0 <= k < out@.len() implies out@[k] < i + 1 && records@[out@[k] as int]
                    == fr2[k] by {
                    if k < prev.len() {
                        assert(out@[k] == prev[k]);
                        assert(fr2[k] == fr[k]);
                    }
                }
            }
        } else {
            proof {
                let fr2 = fresh_rows(records@.take(i + 1), now);
                assert(fr2 == fr);
                assert forall|k: int| #![trigger out@[k]] 0 <= k < out@.len() implies out@[k] < i + 1 && records@[out@[k] as int]
                    == fr2[k] by {
                    assert(records@[out@[k] as int] == fr[k]);
                }
            }
        }
        i = i + 1;
    }
    assert(records@.take(records@.len() as int) =~= records@);
    assert forall|k: int| #![trigger out@[k]] 0 <= k < out@.len() implies out@[k] < records@.len() && records@[out@[k] as int]
        == fresh_rows(records@, now)[k] by {
        assert(records@[out@[k] as int] == fresh_rows(records@.take(i as int), now)[k]);
    }
    out
}

/// The claims that the fresh cached rows stand for, in order: stale rows are skipped,
/// rows whose location is unusable are dropped, and the first invalid row is the error.
/// `decoded` holds each row's decoded `location` column.
pub open spec fn fresh_claims(records: Seq<ClaimRecord>, decoded: Seq<Option<LocationView>>, now: i64) -> Result<
    Seq<NnsClaimView>,
    ResolverError,
>
    decreases records.len(),
{
    if records.len() == 0 {
        Ok(Seq::empty())
    } else {
        match fresh_claims(records.drop_last(), decoded, now) {
            Err(e) => Err(e),
            Ok(prev) => if now - records.last().fetched_at <= CACHE_TTL_SECONDS {
                match record_claim(records.last(), decoded[records.len() - 1]) {
                    Err(e) => Err(e),
                    Ok(None) => Ok(prev),
                    Ok(Some(c)) => Ok(prev.push(c)),
                }
            } else {
                Ok(prev)
            },
        }
    }
}

/// What the cache answers: nothing when no fresh row gives a claim, else the claims ranked.
pub open spec fn cache_outcome(
    records: Seq<ClaimRecord>,
    decoded: Seq<Option<LocationView>>,
    now: i64,
    sel: Option<Seq<char>>,
) -> Result<Option<Seq<NnsClaimView>>, ResolverError> {
    match fresh_claims(records, decoded, now) {
        Err(e) => Err(e),
        Ok(cs) => if cs.len() == 0 {
            Ok(None)
        } else {
            Ok(Some(ranked(cs, sel, now)))
        },
    }
}

pub open spec fn locations_view(v: Seq<Option<ClaimLocation>>) -> Seq<Option<LocationView>> {
    v.map_values(|o: Option<ClaimLocation>| opt_location_view(o))
}

/// Answers a lookup from cached rows: the fresh rows' claims, ranked, if there are any.
/// `decoded` holds, for each row, its `location` column decoded (`None` when it did not
/// decode or is empty).
pub fn claims_from_cache(
    records: &Vec<ClaimRecord>,
    decoded: Vec<Option<ClaimLocation>>,
    now: i64,
    selection: Option<&SelectionRecord>,
) -> (r: Result<Option<ResolvedClaims>, ResolverError>)
    requires
        decoded@.len() == records@.len(),
        forall|i: int|
            0 <= i < records@.len() ==> i64::MIN <= now - #[trigger] records@[i].fetched_at
                <= i64::MAX,
    ensures
        match cache_outcome(records@, locations_view(decoded@), now, selection_key(selection)) {
            Err(e) => r == Err::<Option<ResolvedClaims>, ResolverError>(e),
            Ok(None) => r matches Ok(None),
            Ok(Some(all)) => r matches Ok(Some(rc)) && rc.primary@ == all[0] && claims_view(
                rc.alternates@,
            ) == all.drop_first(),
        },
{
    let ghost dv = locations_view(decoded@);
    let mut dec = decoded;
    let mut claims: Vec<NnsClaim> = Vec::new();
    let mut i: usize = 0;
    proof {
        assert(records@.take(0) =~= Seq::<ClaimRecord>::empty());
        assert(claims_view(claims@) =~= Seq::<NnsClaimView>::empty());
        assert(locations_view(dec@) =~= dv.skip(0));
    }
    while i < records.len()
        invariant
            i <= records@.len(),
            dv.len() == records@.len(),
            dv == locations_view(decoded@),
            dec@.len() + i == records@.len(),
            locations_view(dec@) == dv.skip(i as int),
            forall|j: int|
                0 <= j < records@.len() ==> i64::MIN <= now - #[trigger] records@[j].fetched_at
                    <= i64::MAX,
            fresh_claims(records@.take(i as int), dv, now) == Ok::<
                Seq<NnsClaimView>,
                ResolverError,
            >(claims_view(claims@)),
        decreases records@.len() - i,
    {
        let ghost old_dec = dec@;
        let d = dec.remove(0);
        proof {
            assert(opt_location_view(d) == dv[i as int]) by {
                assert(locations_view(old_dec)[0] == dv.skip(i as int)[0]);
            }
            assert(locations_view(dec@) =~= dv.skip(i + 1)) by {
                assert forall|k: int| 0 <= k < dec@.len() implies locations_view(dec@)[k] == dv.skip(i + 1)[k] by {
                    assert(dec@[k] == old_dec[k + 1]);
                    assert(locations_view(old_dec)[k + 1] == dv.skip(i as int)[k + 1]);
                }
            }
            let t = records@.take(i + 1);
            assert(t.drop_last() =~= records@.take(i as int));
            assert(t.last() == records@[i as int]);
        }
        let record = &records[i];
        let age: i64 = now - record.fetched_at;
        if age <= CACHE_TTL_SECONDS {
            match record_to_claim(record, d) {
                Err(e) => {
                    proof {
                        let t = records@.take(i + 1);
                        assert(t.drop_last() =~= records@.take(i as int));
                        assert(t.last() == records@[i as int]);
                        assert(record_claim(t.last(), dv[t.len() - 1]) == Err::<
                            Option<NnsClaimView>,
                            ResolverError,
                        >(e));
                        assert(fresh_claims(t, dv, now) == Err::<Seq<NnsClaimView>, ResolverError>(e));
                        lemma_fresh_claims_error(records@, dv, now, i as int + 1);
                    }
                    return Err(e);
                },
                Ok(None) => {},
                Ok(Some(c)) => {
                    let ghost before = claims_view(claims@);
                    claims.push(c);
                    proof {
                        assert(claims_view(claims@) =~= before.push(c@));
                    }
                },
            }
        }
        i = i + 1;
    }
    proof {
        assert(records@.take(records@.len() as int) =~= records@);
    }
    if claims.len() == 0 {
        return Ok(None);
    }
    match rank_claims(claims, selection, now) {
        Ok(rc) => Ok(Some(rc)),
        Err(e) => Err(e),
    }
}

proof fn lemma_fresh_claims_error(records: Seq<ClaimRecord>, dv: Seq<Option<LocationView>>, now: i64, i: int)
    requires
        0 <= i <= records.len(),
        fresh_claims(records.take(i), dv, now) is Err,
    ensures
        fresh_claims(records, dv, now) == fresh_claims(records.take(i), dv, now),
    decreases records.len() - i,
{
    if i < records.len() {
        let t = records.take(i + 1);
        assert(t.drop_last() =~= records.take(i));
        lemma_fresh_claims_error(records, dv, now, i + 1);
    } else {
        assert(records.take(i) =~= records);
    }
}

/// The claims collected for a name, or `NoClaims` when there are none.
pub fn require_claims(normalized: &str, claims: Vec<NnsClaim>) -> (r: Result<Vec<NnsClaim>, ResolverError>)
    ensures
        claims@.len() == 0 ==> (r matches Err(ResolverError::NoClaims(n)) && n@ == normalized@),
        claims@.len() > 0 ==> r == Ok::<Vec<NnsClaim>, ResolverError>(claims),
{
    if claims.len() == 0 {
        Err(ResolverError::NoClaims(String::from_str(normalized)))
    } else {
        Ok(claims)
    }
}

/// The `ip` column of a stored claim: the socket address, the Blossom root, or the URL.
pub open spec fn record_ip(l: LocationView) -> Seq<char> {
    match l {
        LocationView::DirectIp(a) => a,
        LocationView::Blossom { root_hash, .. } => root_hash,
        LocationView::LegacyUrl(u) => u,
    }
}

/// The row that stores a claim fetched at `now`; `location_json` is the claim's location
/// serialized for the `location` column.
pub fn claim_record(name: &str, claim: &NnsClaim, now: i64, location_json: String) -> (r: ClaimRecord)
    ensures
        r.name@ == name@,
        r.pubkey@ == claim.pubkey_hex@,
        r.ip@ == record_ip(claim@.location),
        r.relays.deep_view() == claim@.relays,
        r.created_at as int == (if claim.created_at <= i64::MAX as u64 {
            claim.created_at as int
        } else {
            claim.created_at as int - 0x1_0000_0000_0000_0000
        }),
        r.fetched_at == now,
        r.event_id@ == claim.event_id@,
        r.location matches Some(l) && l@ == location_json@,
        r.endpoints is None && r.service_kind is None && r.tls_pubkey is None && r.tls_alg is None,
        r.blossom_root is None && r.note is None,
{
    let ip = match &claim.location {
        ClaimLocation::DirectIp(a) => a.clone(),
        ClaimLocation::Blossom { root_hash, .. } => root_hash.clone(),
        ClaimLocation::LegacyUrl(u) => u.clone(),
    };
    let created_at: i64 = if claim.created_at <= i64::MAX as u64 {
        claim.created_at as i64
    } else {
        let over: u64 = claim.created_at - (i64::MAX as u64) - 1;
        i64::MIN + (over as i64)
    };
    ClaimRecord {
        name: String::from_str(name),
        pubkey: claim.pubkey_hex.clone(),
        ip,
        relays: copy_strings(&claim.relays),
        created_at,
        fetched_at: now,
        event_id: claim.event_id.clone(),
        location: Some(location_json),
        endpoints: None,
        service_kind: None,
        tls_pubkey: None,
        tls_alg: None,
        blossom_root: None,
        note: None,
    }
}

/// The relays of two lists together hold exactly the relays of either.
pub proof fn lemma_relay_union_members(a: Seq<Seq<char>>, b: Seq<Seq<char>>, r: Seq<char>)
    ensures
        relay_union(a, b).contains(r) <==> (a.contains(r) || b.contains(r)),
    decreases b.len(),
{
    if b.len() > 0 {
        lemma_relay_union_members(a, b.drop_last(), r);
        let u = relay_union(a, b.drop_last());
        if b.contains(r) && !b.drop_last().contains(r) {
            let i = choose|i: int| 0 <= i < b.len() && b[i] == r;
            if i < b.len() - 1 {
                assert(b.drop_last()[i] == r);
            }
        }
        if b.drop_last().contains(r) {
            let i = choose|i: int| 0 <= i < b.drop_last().len() && b.drop_last()[i] == r;
            assert(b[i] == r);
        }
        if !u.contains(b.last()) {
            assert(u.push(b.last()).contains(r) <==> (u.contains(r) || r == b.last())) by {
                if u.push(b.last()).contains(r) && r != b.last() {
                    let i = choose|i: int| 0 <= i < u.len() + 1 && u.push(b.last())[i] == r;
                    assert(u[i] == r);
                }
                if u.contains(r) {
                    let i = choose|i: int| 0 <= i < u.len() && u[i] == r;
                    assert(u.push(b.last())[i] == r);
                }
                if r == b.last() {
                    assert(u.push(b.last())[u.len() as int] == r);
                }
            }
        }
        assert(b[b.len() - 1] == b.last());
    }
}

/// Merging two claims with the same key keeps the newest: the merged claim's time is the
/// later of the two, and its event id and note come from a claim with that time (the one it
/// merged into when the times are equal); its relays are those of both; everything else is
/// the claim it merged into.
pub proof fn lemma_merge_keeps_newest(a: NnsClaimView, c: NnsClaimView)
    ensures
        merged_claim(a, c).created_at >= a.created_at,
        merged_claim(a, c).created_at >= c.created_at,
        (merged_claim(a, c).created_at, merged_claim(a, c).event_id, merged_claim(a, c).note)
            == (a.created_at, a.event_id, a.note) || (
            merged_claim(a, c).created_at,
            merged_claim(a, c).event_id,
            merged_claim(a, c).note,
        ) == (c.created_at, c.event_id, c.note),
        c.created_at <= a.created_at ==> merged_claim(a, c).event_id == a.event_id,
        forall|r: Seq<char>|
            merged_claim(a, c).relays.contains(r) <==> (a.relays.contains(r) || c.relays.contains(r)),
        merged_claim(a, c).pubkey_hex == a.pubkey_hex,
        merged_claim(a, c).location == a.location,
        merged_claim(a, c).name == a.name,
{
    assert forall|r: Seq<char>|
        merged_claim(a, c).relays.contains(r) <==> (a.relays.contains(r) || c.relays.contains(r)) by {
        lemma_relay_union_members(a.relays, c.relays, r);
    }
}

} // verus!
