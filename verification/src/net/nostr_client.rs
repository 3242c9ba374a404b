//! Nostr events as the library reads them, and the checks that need the `nostr` code.
use std::str::FromStr;

use nostr_sdk::prelude::{Event, EventId, Kind, PublicKey, Signature, Tag, Timestamp, ToBech32};
use vstd::prelude::*;

verus! {

/// A Nostr event with every field as a plain value (hex strings for the id,
/// the author's public key and the signature).
#[derive(Debug, Clone, PartialEq, Eq)]
pub struct NnsEvent {
    pub id: String,
    pub pubkey: String,
    pub created_at: u64,
    pub kind: u16,
    pub tags: Vec<Vec<String>>,
    pub content: String,
    pub sig: String,
}

/// An event together with the relays it was seen on.
#[derive(Debug, Clone, PartialEq, Eq)]
pub struct RelayEvent {
    pub relays: Vec<String>,
    pub event: NnsEvent,
}

impl NnsEvent {
    /// The tags as sequences of character sequences.
    pub open spec fn tag_view(&self) -> Seq<Seq<Seq<char>>> {
        self.tags.deep_view()
    }
}

/// The outcome of `nostr_sdk::Event::verify` on the event with these fields:
/// `None` when the id and the signature check out, else the error's message.
pub uninterp spec fn event_verify_outcome(
    id: Seq<char>,
    pubkey: Seq<char>,
    created_at: u64,
    kind: u16,
    tags: Seq<Seq<Seq<char>>>,
    content: Seq<char>,
    sig: Seq<char>,
) -> Option<Seq<char>>;

/// The bech32 (`npub`) form of the public key that a hex string encodes, from
/// `nostr_sdk::PublicKey::from_hex` and `ToBech32::to_bech32`; `None` when the hex is not a key.
pub uninterp spec fn npub_outcome(pubkey_hex: Seq<char>) -> Option<Seq<char>>;

/// The verification outcome for an event.
pub open spec fn event_check(e: NnsEvent) -> Option<Seq<char>> {
    event_verify_outcome(e.id@, e.pubkey@, e.created_at, e.kind, e.tag_view(), e.content@, e.sig@)
}

/// Rebuilds the event with `nostr_sdk::Event::new` from its fields and calls
/// `Event::verify`. Trusted: the result is `event_verify_outcome` of the fields; a field
/// that `nostr_sdk` cannot parse is reported with the parse error's message.
#[verifier::external_body]
pub(crate) fn verify_event(e: &NnsEvent) -> (r: Result<(), String>)
    ensures
        match r {
            Ok(()) => event_verify_outcome(
                e.id@,
                e.pubkey@,
                e.created_at,
                e.kind,
                e.tag_view(),
                e.content@,
                e.sig@,
            ) is None,
            Err(msg) => event_verify_outcome(
                e.id@,
                e.pubkey@,
                e.created_at,
                e.kind,
                e.tag_view(),
                e.content@,
                e.sig@,
            ) == Some(msg@),
        },
{
    let id = EventId::from_hex(&e.id).map_err(|x| x.to_string())?;
    let pk = PublicKey::from_hex(&e.pubkey).map_err(|x| x.to_string())?;
    let sig = Signature::from_str(&e.sig).map_err(|x| x.to_string())?;
    let tags = e.tags.iter().map(|t| Tag::parse(t.clone())).collect::<Result<Vec<Tag>, _>>();
    let tags = tags.map_err(|x| x.to_string())?;
    let ts = Timestamp::from(e.created_at);
    Event::new(id, pk, ts, Kind::from(e.kind), tags, e.content.clone(), sig).verify().map_err(|x| x.to_string())
}

/// Parses a hex public key with `nostr_sdk::PublicKey::from_hex` and encodes it with
/// `ToBech32::to_bech32`. Trusted: the result is `npub_outcome(pubkey_hex)`.
#[verifier::external_body]
pub(crate) fn npub_from_hex(pubkey_hex: &str) -> (r: Option<String>)
    ensures
        match r {
            Some(s) => npub_outcome(pubkey_hex@) == Some(s@),
            None => npub_outcome(pubkey_hex@) is None,
        },
{
    let key = PublicKey::from_hex(pubkey_hex).ok()?;
    key.to_bech32().ok()
}

/// The events with their first copy only: a later event with an id seen before is dropped.
pub open spec fn first_of_each_id(evs: Seq<NnsEvent>) -> Seq<NnsEvent>
    decreases evs.len(),
{
    if evs.len() == 0 {
        Seq::empty()
    } else {
        let kept = first_of_each_id(evs.drop_last());
        if exists|i: int| 0 <= i < kept.len() && kept[i].id@ == evs.last().id@ {
            kept
        } else {
            kept.push(evs.last())
        }
    }
}

/// The relay list each fetched event is credited to: the first relay asked, if any.
pub open spec fn credited_relays(first_relay: Option<Seq<char>>) -> Seq<Seq<char>> {
    match first_relay {
        Some(u) => seq![u],
        None => Seq::empty(),
    }
}

fn id_seen(kept: &Vec<NnsEvent>, id: &String) -> (r: bool)
    ensures
        r == exists|i: int| 0 <= i < kept@.len() && kept@[i].id@ == id@,
{
    let mut i: usize = 0;
    while i < kept.len()
        invariant
            i <= kept@.len(),
            forall|k: int| 0 <= k < i ==> kept@[k].id@ != id@,
        decreases kept@.len() - i,
    {
        if crate::text::str_equal(kept[i].id.as_str(), id.as_str()) {
            return true;
        }
        i = i + 1;
    }
    false
}

/// The events a relay query returned, one per id (the first copy), each credited to the
/// first relay that was asked.
pub fn relay_events(events: Vec<NnsEvent>, first_relay: Option<String>) -> (r: Vec<RelayEvent>)
    ensures
        r@.len() == first_of_each_id(events@).len(),
        forall|k: int|
            #![trigger r@[k]]
            0 <= k < r@.len() ==> r@[k].event == first_of_each_id(events@)[k]
                && r@[k].relays.deep_view() == credited_relays(
                match first_relay {
                    Some(u) => Some(u@),
                    None => None,
                },
            ),
{
    let ghost input = events@;
    let mut rest = events;
    let mut kept: Vec<NnsEvent> = Vec::new();
    let ghost mut done: int = 0;
    proof {
        assert(input.take(0) =~= Seq::<NnsEvent>::empty());
        assert(rest@ =~= input.skip(0));
    }
    while rest.len() > 0
        invariant
            0 <= done <= input.len(),
            rest@.len() + done == input.len(),
            rest@ == input.skip(done),
            kept@ == first_of_each_id(input.take(done)),
        decreases rest@.len(),
    {
        let ghost old_rest = rest@;
        let e = rest.remove(0);
        proof {
            assert(e == input[done]);
            assert(rest@ =~= input.skip(done + 1));
            let t = input.take(done + 1);
            assert(t.drop_last() =~= input.take(done));
            assert(t.last() == input[done]);
        }
        if !id_seen(&kept, &e.id) {
            kept.push(e);
        }
        proof {
            done = done + 1;
        }
    }
    proof {
        assert(input.take(done) =~= input);
    }
    let ghost credited = credited_relays(
        match &first_relay {
            Some(u) => Some(u@),
            None => None,
        },
    );
    let mut out: Vec<RelayEvent> = Vec::new();
    let ghost all = kept@;
    let n = kept.len();
    let mut i: usize = 0;
    while kept.len() > 0
        invariant
            all.len() == n,
            i + kept@.len() == all.len(),
            kept@ == all.skip(i as int),
            out@.len() == i,
            credited == credited_relays(
                match first_relay {
                    Some(u) => Some(u@),
                    None => None,
                },
            ),
            forall|k: int|
                #![trigger out@[k]]
                0 <= k < i ==> out@[k].event == all[k] && out@[k].relays.deep_view() == credited,
        decreases kept@.len(),
    {
        let e = kept.remove(0);
        proof {
            assert(e == all[i as int]);
            assert(kept@ =~= all.skip(i + 1));
        }
        let mut relays: Vec<String> = Vec::new();
        match &first_relay {
            Some(u) => {
                relays.push(u.clone());
            },
            None => {},
        }
        assert(relays.deep_view() =~= credited);
        out.push(RelayEvent { relays, event: e });
        i = i + 1;
    }
    out
}

} // verus!
