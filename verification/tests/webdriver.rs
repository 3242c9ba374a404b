use frontier::tls::{verify_published_key, CertificateRejection, NostrCertVerifier};
use frontier::nns::models::{PublishedTlsKey, TlsAlgorithm};
use frontier::webdriver::{
    check_locator, invalid_session_message, open_target_failure, session_target_from_payload,
    ElementRegistry, NewSessionPayload, SessionTarget, WebDriverConfig,
};

#[test]
fn new_sessions_prefer_the_url() {
    let both = NewSessionPayload { url: Some("https://a/".into()), file: Some("f.html".into()) };
    assert_eq!(session_target_from_payload(&both).unwrap(), SessionTarget::Url("https://a/".into()));
    let file = NewSessionPayload { url: None, file: Some("f.html".into()) };
    assert_eq!(session_target_from_payload(&file).unwrap(), SessionTarget::File("f.html".into()));
    let neither = NewSessionPayload { url: None, file: None };
    assert_eq!(
        session_target_from_payload(&neither).unwrap_err(),
        "missing 'url' or 'file' in request"
    );
}

#[test]
fn request_errors_have_messages() {
    assert!(check_locator("css selector").is_ok());
    assert_eq!(check_locator("xpath").unwrap_err(), "unsupported locator");
    assert_eq!(invalid_session_message("x"), "invalid session id: x");
    assert_eq!(
        open_target_failure(&SessionTarget::File("a.html".into()), "gone"),
        "failed to open file a.html: gone"
    );
    assert_eq!(
        open_target_failure(&SessionTarget::Url("u".into()), "gone"),
        "failed to navigate: gone"
    );
    assert_eq!(WebDriverConfig::new("/repo").asset_root, "/repo/assets");
}

#[test]
fn element_ids_map_to_selectors() {
    let mut r = ElementRegistry::new();
    r.insert("e1".into(), "#a".into());
    r.insert("e2".into(), "#b".into());
    r.insert("e1".into(), "#c".into());
    assert_eq!(r.selector("e1").unwrap(), "#c");
    assert_eq!(r.selector("e2").unwrap(), "#b");
    assert_eq!(r.selector("e3").unwrap_err(), "unknown element");
    r.clear();
    assert!(r.selector("e1").is_err());
}

#[test]
fn certificates_that_do_not_parse_are_refused() {
    let verifier = NostrCertVerifier::new("AB".repeat(32));
    assert_eq!(verifier.expected_pubkey_hex(), "AB".repeat(32));
    assert_eq!(verifier.verify_certificate(&[1, 2, 3]), Err(CertificateRejection::BadEncoding));
    let key = PublishedTlsKey::new(TlsAlgorithm::Ed25519, "00").unwrap();
    assert_eq!(verify_published_key(&[], &key), Err(CertificateRejection::BadEncoding));
}

const ED25519_CERT: &str = "3081c9307da003020102020101300506032b6570300f310d300b06035504030c0474657374301e170d3230303130313030303030305a170d3330303130313030303030305a300f310d300b06035504030c0474657374302a300506032b65700321000102030405060708090a0b0c0d0e0f101112131415161718191a1b1c1d1e1f20300506032b657003410000000000000000000000000000000000000000000000000000000000000000000000000000000000000000000000000000000000000000000000000000000000";
const ED25519_KEY: &str = "0102030405060708090a0b0c0d0e0f101112131415161718191a1b1c1d1e1f20";

#[test]
fn certificates_are_pinned_to_published_keys() {
    let der = hex::decode(ED25519_CERT).unwrap();
    let verifier = NostrCertVerifier::new(ED25519_KEY.to_uppercase());
    assert_eq!(verifier.verify_certificate(&der), Ok(()));
    let other = NostrCertVerifier::new("00".repeat(32));
    assert_eq!(
        other.verify_certificate(&der),
        Err(CertificateRejection::Mismatch(
            "Certificate public key does not match Nostr-published key".into()
        ))
    );
    let key = PublishedTlsKey::new(TlsAlgorithm::Ed25519, ED25519_KEY).unwrap();
    assert_eq!(verify_published_key(&der, &key), Ok(()));
    let wrong = PublishedTlsKey::new(TlsAlgorithm::Ed25519, "00").unwrap();
    assert_eq!(
        verify_published_key(&der, &wrong),
        Err(CertificateRejection::Mismatch("certificate subject public key mismatch".into()))
    );
}
