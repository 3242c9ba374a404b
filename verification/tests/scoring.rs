use frontier::nns::models::{ClaimLocation, NnsClaim};
use frontier::nns::scoring::score_claim;

fn claim(created_at: i64, relays: usize) -> NnsClaim {
    let mut relay_set = Vec::new();
    for idx in 0..relays {
        relay_set.push(format!("wss://relay{idx}.example/"));
    }
    NnsClaim {
        name: "test".into(),
        service_kind: None,
        location: ClaimLocation::DirectIp("127.0.0.1:8080".to_string()),
        endpoints: Vec::new(),
        pubkey_hex: "deadbeef".into(),
        pubkey_npub: "npub1deadbeef".into(),
        created_at: created_at as u64,
        relays: relay_set,
        note: None,
        event_id: "f".repeat(64),
        tls_key: None,
    }
}

#[test]
fn bonus_for_multiple_relays() {
    let c1 = claim(1, 1);
    let c2 = claim(1, 2);
    let now = 10;
    assert!(score_claim(&c2, None, now) > score_claim(&c1, None, now));
}

#[test]
fn bonus_for_recent() {
    let new = claim(90, 1);
    let old = claim(1, 1);
    let now = 100;
    assert!(score_claim(&new, None, now) > score_claim(&old, None, now));
}

#[test]
fn bonus_for_selection() {
    let c = claim(1, 1);
    let now = 2;
    assert!(score_claim(&c, Some("deadbeef"), now) > score_claim(&c, None, now));
}

#[test]
fn score_units_are_exact() {
    // One point, no relay bonus, no selection, a claim from this very second.
    assert_eq!(score_claim(&claim(50, 1), None, 50), 2 * 172800);
    // Half a day old: half the freshness bonus.
    assert_eq!(score_claim(&claim(0, 1), None, 43200), 172800 + 86400);
    // Older than a day, two relays, selected by npub.
    assert_eq!(
        score_claim(&claim(0, 2), Some("npub1deadbeef"), 100000),
        172800 + 86400 + 86400
    );
}
