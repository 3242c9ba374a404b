//! Scoring of claims: more relays, the user's earlier choice and freshness count.
use vstd::prelude::*;

use crate::nns::models::{NnsClaim, NnsClaimView};
use crate::text::str_equal;

verus! {

/// One score point: scores are counted in units of 1/172800 (half a point is 86400,
/// and a second of age costs two units).
pub const SCORE_UNIT: u64 = 172800;

/// `now - created_at` on `i64`, saturating at the type's bounds.
pub open spec fn age_seconds(created_at: u64, now: i64) -> int {
    let d = now as int - (created_at as i64) as int;
    if d > i64::MAX as int {
        i64::MAX as int
    } else if d < i64::MIN as int {
        i64::MIN as int
    } else {
        d
    }
}

/// The freshness bonus: a full point for a claim from the future or this second, falling
/// linearly to nothing over a day.
pub open spec fn decay_units(created_at: u64, now: i64) -> int {
    let age = age_seconds(created_at, now);
    if age <= 0 {
        172800
    } else if age >= 86400 {
        0
    } else {
        2 * (86400 - age)
    }
}

/// A claim's score: one point, half a point when more than one relay carries it, half a
/// point when its publisher is the selected one (by hex or `npub`), plus the freshness bonus.
pub open spec fn claim_score(c: NnsClaimView, selected: Option<Seq<char>>, now: i64) -> int {
    172800 + (if c.relays.len() > 1 {
        86400int
    } else {
        0int
    }) + (match selected {
        Some(s) => if s == c.pubkey_hex || s == c.pubkey_npub {
            86400int
        } else {
            0int
        },
        None => 0int,
    }) + decay_units(c.created_at, now)
}

pub open spec fn opt_selected(o: Option<&str>) -> Option<Seq<char>> {
    match o {
        Some(s) => Some(s@),
        None => None,
    }
}

/// The score of a claim, in units of 1/`SCORE_UNIT` points.
pub fn score_claim(claim: &NnsClaim, selected_pubkey: Option<&str>, now: i64) -> (r: u64)
    ensures
        r as int == claim_score(claim@, opt_selected(selected_pubkey), now),
        r <= 3 * SCORE_UNIT,
{
    let mut score: u64 = 172800;
    if claim.relays.len() > 1 {
        score = score + 86400;
    }
    if let Some(selected) = selected_pubkey {
        if str_equal(selected, claim.pubkey_hex.as_str()) || str_equal(
            selected,
            claim.pubkey_npub.as_str(),
        ) {
            score = score + 86400;
        }
    }
    let created: i64 = claim.created_at as i64;
    let diff: i128 = now as i128 - created as i128;
    let age: i64 = if diff > i64::MAX as i128 {
        i64::MAX
    } else if diff < i64::MIN as i128 {
        i64::MIN
    } else {
        diff as i64
    };
    let decay: u64 = if age <= 0 {
        172800
    } else if age >= 86400 {
        0
    } else {
        2 * (86400 - age as u64)
    };
    score + decay
}

/// A claim carried by more than one relay scores higher than the same claim carried by
/// at most one.
pub proof fn lemma_relay_bonus(c: NnsClaimView, more: Seq<Seq<char>>, sel: Option<Seq<char>>, now: i64)
    requires
        c.relays.len() <= 1,
        more.len() > 1,
    ensures
        claim_score(NnsClaimView { relays: more, ..c }, sel, now) > claim_score(c, sel, now),
{
}

/// The user's earlier choice of a publisher (by hex key) raises that publisher's claims.
pub proof fn lemma_selection_bonus(c: NnsClaimView, now: i64)
    ensures
        claim_score(c, Some(c.pubkey_hex), now) > claim_score(c, None, now),
        claim_score(c, Some(c.pubkey_npub), now) > claim_score(c, None, now),
{
}

/// Of two otherwise equal claims, the newer one scores at least as much, and strictly
/// more when the older one is less than a day old and neither lies in the future.
pub proof fn lemma_fresher_scores_higher(c: NnsClaimView, older: u64, newer: u64, sel: Option<Seq<char>>, now: i64)
    requires
        older <= newer,
        newer <= i64::MAX,
    ensures
        claim_score(NnsClaimView { created_at: newer, ..c }, sel, now) >= claim_score(
            NnsClaimView { created_at: older, ..c },
            sel,
            now,
        ),
        older < newer && newer <= now && now - older < 86400 ==> claim_score(
            NnsClaimView { created_at: newer, ..c },
            sel,
            now,
        ) > claim_score(NnsClaimView { created_at: older, ..c }, sel, now),
{
}

} // verus!
