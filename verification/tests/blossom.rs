use frontier::blossom::{
    blob_fetch_failure, cache_path_parts, manifest_from_events, merge_relays, normalize_path,
    parse_manifest_event, validate_hash, verify_hash, BlossomError, BlossomManifest,
    BlossomManifestEntry,
};
use frontier::net::nostr_client::{NnsEvent, RelayEvent};
use nostr_sdk::prelude::{EventBuilder, Keys, Kind, Tag};

fn entry(path: &str, hash: &str, created_at: u64) -> BlossomManifestEntry {
    BlossomManifestEntry {
        path: path.to_string(),
        hash: hash.to_string(),
        created_at,
    }
}

#[test]
fn manifest_keeps_the_newest_entry_per_path() {
    let mut m = BlossomManifest::new();
    m.insert(entry("/index.html", "aaaa", 10));
    m.insert(entry("/index.html", "bbbb", 5));
    assert_eq!(m.get("/index.html").unwrap().hash, "aaaa");
    m.insert(entry("/index.html", "cccc", 20));
    assert_eq!(m.get("index.html").unwrap().hash, "cccc");
    m.insert(entry("/other", "dddd", 1));
    assert_eq!(m.len(), 2);
    assert_eq!(m.get("/other").unwrap().hash, "dddd");
    assert!(m.get("/missing").is_none());
    assert_eq!(m.find_by_hash("CCCC").unwrap().path, "/index.html");
    assert!(m.find_by_hash("eeee").is_none());
}

#[test]
fn paths_are_normalized() {
    assert_eq!(normalize_path(""), "/");
    assert_eq!(normalize_path("a/b"), "/a/b");
    assert_eq!(normalize_path("/a"), "/a");
}

#[test]
fn hashes_are_validated() {
    assert!(validate_hash("0123456789").is_ok());
    assert_eq!(
        validate_hash("0123"),
        Err(BlossomError::InvalidHash("0123".to_string()))
    );
    assert!(validate_hash("012345678").is_err());
    assert!(validate_hash("0123456789g0").is_err());
}

#[test]
fn blobs_are_checked_against_their_hash() {
    let hello = "2cf24dba5fb0a30e26e83b2ac5b9e29e1b161e5c1fa7425e73043362938b9824";
    assert!(verify_hash(hello, b"hello").is_ok());
    assert_eq!(
        verify_hash("00", b"hello"),
        Err(BlossomError::HashMismatch {
            expected: "00".to_string(),
            actual: hello.to_string(),
        })
    );
}

#[test]
fn cache_paths_split_after_two_characters() {
    assert_eq!(
        cache_path_parts("abcdef"),
        ("ab".to_string(), "cdef".to_string())
    );
    assert_eq!(cache_path_parts("a"), ("a".to_string(), String::new()));
}

fn manifest_event(keys: &Keys, path: &str, hash: &str) -> RelayEvent {
    let tags = vec![
        Tag::parse(vec!["d".to_string(), path.to_string()]).unwrap(),
        Tag::parse(vec!["sha256".to_string(), hash.to_string()]).unwrap(),
    ];
    let event = EventBuilder::new(Kind::from(34128u16), "")
        .tags(tags)
        .sign_with_keys(keys)
        .unwrap();
    RelayEvent {
        relays: Vec::new(),
        event: NnsEvent {
            id: event.id.to_hex(),
            pubkey: event.pubkey.to_hex(),
            created_at: event.created_at.as_u64(),
            kind: event.kind.as_u16(),
            tags: event.tags.iter().map(|t| t.as_slice().to_vec()).collect(),
            content: event.content.clone(),
            sig: event.sig.to_string(),
        },
    }
}

#[test]
fn manifest_events_make_entries() {
    let keys = Keys::generate();
    let ok = manifest_event(&keys, "index.html", "0123456789ab");
    let parsed = parse_manifest_event(&ok.event).unwrap().unwrap();
    assert_eq!(parsed.path, "/index.html");
    assert_eq!(parsed.hash, "0123456789ab");

    let bad_hash = manifest_event(&keys, "x", "xyz");
    assert_eq!(
        parse_manifest_event(&bad_hash.event),
        Err(BlossomError::InvalidHash("xyz".to_string()))
    );

    let mut forged = manifest_event(&keys, "y", "0123456789ab");
    forged.event.created_at += 1;
    assert!(matches!(
        parse_manifest_event(&forged.event),
        Err(BlossomError::Manifest(m)) if m.starts_with("invalid signature: ")
    ));

    let manifest = manifest_from_events(&[ok, bad_hash, forged]);
    assert_eq!(manifest.len(), 1);
    assert_eq!(manifest.get("index.html").unwrap().hash, "0123456789ab");
}

#[test]
fn relay_lists_are_merged_without_repeats() {
    let base = vec!["wss://a/".to_string(), "wss://b/".to_string()];
    let extra = vec!["wss://b/".to_string(), "wss://c/".to_string(), "wss://c/".to_string()];
    assert_eq!(
        merge_relays(&base, &extra),
        vec!["wss://a/".to_string(), "wss://b/".to_string(), "wss://c/".to_string()]
    );
}

#[test]
fn a_blob_nobody_served_is_missing() {
    assert_eq!(
        blob_fetch_failure("abcd", None),
        BlossomError::MissingPath("abcd".to_string())
    );
    assert_eq!(
        blob_fetch_failure("abcd", Some(BlossomError::Network("down".to_string()))),
        BlossomError::Network("down".to_string())
    );
}

#[test]
fn manifests_do_not_depend_on_insertion_order() {
    let entries = vec![
        entry("/a", "h1", 10),
        entry("/b", "h2", 5),
        entry("/a", "h3", 30),
        entry("/a", "h4", 20),
    ];
    let mut forward = BlossomManifest::new();
    for e in &entries {
        forward.insert(e.clone());
    }
    let mut backward = BlossomManifest::new();
    for e in entries.iter().rev() {
        backward.insert(e.clone());
    }
    for path in ["/a", "/b", "/c"] {
        assert_eq!(forward.get(path), backward.get(path));
    }
    assert_eq!(forward.get("/a").unwrap().hash, "h3");
}
