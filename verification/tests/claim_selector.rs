use frontier::claim_selector::generate_claim_selector_html;
use frontier::nns::models::{ClaimLocation, NnsClaim};
use nostr_sdk::prelude::{Keys, ToBech32};

fn claim(keys: &Keys, addr: &str, created_at: u64) -> NnsClaim {
    NnsClaim {
        name: "testsite".to_string(),
        service_kind: None,
        location: ClaimLocation::DirectIp(addr.to_string()),
        endpoints: Vec::new(),
        pubkey_hex: keys.public_key().to_hex(),
        pubkey_npub: keys.public_key().to_bech32().unwrap(),
        created_at,
        relays: Vec::new(),
        note: None,
        event_id: "0".repeat(64),
        tls_key: None,
    }
}

#[test]
fn test_generate_claim_selector_html() {
    let keys1 = Keys::generate();
    let keys2 = Keys::generate();

    let claims = vec![
        claim(&keys1, "192.168.1.100:8080", 1000),
        claim(&keys2, "10.0.0.5:8080", 2000),
    ];

    let html = generate_claim_selector_html("testsite", &claims);

    assert!(html.contains("testsite"));
    assert!(html.contains("192.168.1.100:8080"));
    assert!(html.contains("10.0.0.5:8080"));
    assert!(html.contains("Select"));
}

#[test]
fn selector_rows_show_short_keys_times_and_count() {
    let keys = Keys::generate();
    let c = claim(&keys, "10.0.0.5:8080", 1234);
    let npub = c.pubkey_npub.clone();
    let html = generate_claim_selector_html("site", &[c]);
    let short = format!("{}...{}", &npub[..8], &npub[npub.len() - 8..]);
    assert!(html.contains(&short));
    assert!(html.contains("<td class=\"claim-time\">1234</td>"));
    assert!(html.contains("data-idx=\"0\""));
    assert!(html.contains("<span class=\"count-badge\">1</span>"));
    assert!(html.starts_with("<!DOCTYPE html>"));
    assert!(html.contains("<title>Select NNS Claim for \"site\"</title>"));
}
