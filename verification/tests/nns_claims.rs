use frontier::net::nostr_client::{NnsEvent, RelayEvent};
use frontier::nns::models::{
    ClaimLocation, ModelError, NnsClaim, PublishedTlsKey, ServiceKind, TlsAlgorithm,
    TransportKind,
};
use frontier::nns::resolver::{
    claims_from_cache, normalize_name, rank_claims, require_claims, ResolverError,
};
use frontier::storage::{ClaimRecord, SelectionRecord};
use nostr_sdk::prelude::{EventBuilder, Keys, Kind, Tag, ToBech32};

fn signed_event(keys: &Keys, kind: u16, tags: Vec<Vec<&str>>) -> NnsEvent {
    let tags: Vec<Tag> = tags
        .into_iter()
        .map(|t| Tag::parse(t.into_iter().map(|s| s.to_string()).collect::<Vec<_>>()).unwrap())
        .collect();
    let event = EventBuilder::new(Kind::from(kind), "")
        .tags(tags)
        .sign_with_keys(keys)
        .unwrap();
    NnsEvent {
        id: event.id.to_hex(),
        pubkey: event.pubkey.to_hex(),
        created_at: event.created_at.as_u64(),
        kind: event.kind.as_u16(),
        tags: event.tags.iter().map(|t| t.as_slice().to_vec()).collect(),
        content: event.content.clone(),
        sig: event.sig.to_string(),
    }
}

fn relay_event(event: NnsEvent) -> RelayEvent {
    RelayEvent {
        relays: vec!["wss://relay.example/".to_string()],
        event,
    }
}

#[test]
fn claim_from_signed_event() {
    let keys = Keys::generate();
    let event = signed_event(
        &keys,
        34256,
        vec![vec!["d", "TestSite"], vec!["ip", "127.0.0.1:8080"], vec!["note", "hi"]],
    );
    let claim = NnsClaim::from_event("testsite", &relay_event(event.clone())).unwrap();
    assert_eq!(claim.name, "testsite");
    assert_eq!(claim.location, ClaimLocation::DirectIp("127.0.0.1:8080".to_string()));
    assert_eq!(claim.pubkey_hex, keys.public_key().to_hex());
    assert_eq!(claim.pubkey_npub, keys.public_key().to_bech32().unwrap());
    assert_eq!(claim.note, Some("hi".to_string()));
    assert_eq!(claim.event_id, event.id);
    assert_eq!(claim.relays, vec!["wss://relay.example/".to_string()]);
    assert_eq!(
        claim.score_key(),
        format!("{}:direct:127.0.0.1:8080", keys.public_key().to_hex())
    );
}

#[test]
fn claim_with_tampered_content_is_refused() {
    let keys = Keys::generate();
    let mut event = signed_event(&keys, 34256, vec![vec!["d", "site"], vec!["ip", "127.0.0.1:80"]]);
    event.content = "changed".to_string();
    let result = NnsClaim::from_event("site", &relay_event(event));
    assert!(matches!(result, Err(ModelError::InvalidSignature(_))));
}

#[test]
fn claim_errors_name_the_problem() {
    let keys = Keys::generate();
    let no_name = signed_event(&keys, 34256, vec![vec!["ip", "127.0.0.1:80"]]);
    assert_eq!(
        NnsClaim::from_event("site", &relay_event(no_name)).unwrap_err(),
        ModelError::MissingName
    );
    let other = signed_event(&keys, 34256, vec![vec!["d", "other"], vec!["ip", "127.0.0.1:80"]]);
    assert_eq!(
        NnsClaim::from_event("site", &relay_event(other)).unwrap_err(),
        ModelError::NameMismatch
    );
    let nowhere = signed_event(&keys, 34256, vec![vec!["d", "site"]]);
    assert_eq!(
        NnsClaim::from_event("site", &relay_event(nowhere)).unwrap_err(),
        ModelError::MissingLocation
    );
    let bad_ip = signed_event(&keys, 34256, vec![vec!["d", "site"], vec!["ip", "nope"]]);
    assert_eq!(
        NnsClaim::from_event("site", &relay_event(bad_ip)).unwrap_err(),
        ModelError::InvalidIp("nope".to_string())
    );
    let no_servers = signed_event(&keys, 34256, vec![vec!["d", "site"], vec!["blossom", "abcd"]]);
    assert_eq!(
        NnsClaim::from_event("site", &relay_event(no_servers)).unwrap_err(),
        ModelError::MissingServers
    );
}

#[test]
fn blossom_claims_and_endpoints() {
    let keys = Keys::generate();
    let event = signed_event(
        &keys,
        34256,
        vec![
            vec!["d", "site"],
            vec!["blossom", "abcdef0123"],
            vec!["server", "https://blossom.example"],
            vec!["endpoint", "https", "10.0.0.1:443", "5"],
            vec!["endpoint", "wss", "10.0.0.2:443", "1"],
            vec!["svc", "Blossom-Site"],
        ],
    );
    let claim = NnsClaim::from_event("site", &relay_event(event)).unwrap();
    assert_eq!(
        claim.location,
        ClaimLocation::Blossom {
            root_hash: "abcdef0123".to_string(),
            servers: vec!["https://blossom.example/".to_string()],
        }
    );
    assert_eq!(claim.service_kind, Some(ServiceKind::BlossomSite));
    assert_eq!(claim.endpoints.len(), 2);
    assert_eq!(claim.endpoints[0].transport, TransportKind::Wss);
    assert_eq!(claim.endpoints[0].priority, 1);
    assert_eq!(claim.endpoints[1].transport, TransportKind::Https);
}

#[test]
fn tls_keys_round_trip_through_hex() {
    let key = PublishedTlsKey::new(TlsAlgorithm::Ed25519, "00FFab").unwrap();
    assert_eq!(key.spki, vec![0x00, 0xff, 0xab]);
    assert_eq!(key.spki_hex(), "00ffab");
    let again = PublishedTlsKey::new(TlsAlgorithm::Ed25519, &key.spki_hex()).unwrap();
    assert_eq!(again, key);
    assert!(matches!(
        PublishedTlsKey::new(TlsAlgorithm::Ed25519, "abc"),
        Err(ModelError::InvalidTlsPubkey(_))
    ));
    assert!(matches!(
        TlsAlgorithm::from_tag(Some("rsa")),
        Err(ModelError::UnsupportedTlsAlgorithm(_))
    ));
    assert_eq!(TlsAlgorithm::Ed25519.as_str(), "ed25519");
}

fn record(keys: &Keys, name: &str, fetched_at: i64, created_at: i64) -> ClaimRecord {
    ClaimRecord {
        name: name.to_string(),
        pubkey: keys.public_key().to_hex(),
        ip: "127.0.0.1:8080".to_string(),
        relays: vec!["wss://a.example".to_string(), "not a url".to_string()],
        created_at,
        fetched_at,
        event_id: "ab".repeat(32),
        location: None,
        endpoints: None,
        service_kind: None,
        tls_pubkey: None,
        tls_alg: None,
        blossom_root: None,
        note: None,
    }
}

#[test]
fn cache_answers_with_fresh_rows_only() {
    let k1 = Keys::generate();
    let k2 = Keys::generate();
    let now = 10_000;
    let records = vec![
        record(&k1, "site", now - 100, 5),
        record(&k2, "site", now - 601, 9_000),
    ];
    let result = claims_from_cache(&records, vec![None, None], now, None).unwrap().unwrap();
    assert_eq!(result.primary.pubkey_hex, k1.public_key().to_hex());
    assert!(result.alternates.is_empty());
    assert_eq!(result.primary.relays, vec!["wss://a.example/".to_string()]);

    let stale = vec![record(&k2, "site", now - 601, 9_000)];
    assert!(claims_from_cache(&stale, vec![None], now, None).unwrap().is_none());
}

#[test]
fn cache_refuses_a_bad_pubkey() {
    let k1 = Keys::generate();
    let mut bad = record(&k1, "site", 0, 0);
    bad.pubkey = "zz".to_string();
    let result = claims_from_cache(&vec![bad], vec![None], 10, None);
    assert_eq!(result.unwrap_err(), ResolverError::InvalidCachedPubkey("zz".to_string()));
}

#[test]
fn ranking_puts_the_selected_publisher_first() {
    let k1 = Keys::generate();
    let k2 = Keys::generate();
    let now = 10_000;
    let records = vec![record(&k1, "site", now, now), record(&k2, "site", now, now)];
    let selection = SelectionRecord {
        name: "site".to_string(),
        pubkey: k2.public_key().to_hex(),
        chosen_at: now,
    };
    let claims = claims_from_cache(&records, vec![None, None], now, Some(&selection))
        .unwrap()
        .unwrap();
    assert_eq!(claims.primary.pubkey_hex, k2.public_key().to_hex());
    assert_eq!(claims.alternates.len(), 1);
    assert_eq!(claims.alternates[0].pubkey_hex, k1.public_key().to_hex());
}

#[test]
fn ranking_nothing_is_an_error() {
    assert_eq!(
        rank_claims(Vec::new(), None, 0).unwrap_err(),
        ResolverError::NoClaims(String::new())
    );
    assert_eq!(
        require_claims("site", Vec::new()).unwrap_err(),
        ResolverError::NoClaims("site".to_string())
    );
}

#[test]
fn names_are_trimmed_and_lowercased() {
    assert_eq!(normalize_name("  MySite "), "mysite");
}

#[test]
fn cached_relays_are_a_set_of_urls() {
    let k = Keys::generate();
    let now = 10_000;
    let mut row = record(&k, "site", now - 10, 5);
    row.relays = vec![
        "wss://a.example".to_string(),
        "wss://b.example/".to_string(),
        "wss://a.example/".to_string(),
        "not a url".to_string(),
    ];
    let result = claims_from_cache(&vec![row], vec![None], now, None).unwrap().unwrap();
    assert_eq!(
        result.primary.relays,
        vec!["wss://a.example/".to_string(), "wss://b.example/".to_string()]
    );
}
