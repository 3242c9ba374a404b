//! Pinning a server's TLS certificate to a key published over Nostr.
use vstd::prelude::*;

use x509_parser::prelude::FromDer;

use crate::hexcode::{hex_encode, hex_text};
use crate::nns::models::{PublishedTlsKey, TlsAlgorithm};
use crate::text::{ascii_lowercase, chars_equal, to_ascii_lowercase};

verus! {

/// The object identifier of Ed25519 keys.
pub const ED25519_OID: &'static str = "1.3.101.112";

/// What `x509_parser` reads from a DER certificate: the dotted object identifier of the
/// public key's algorithm and the bytes of the subject public key; `None` when the
/// certificate does not parse.
pub uninterp spec fn certificate_key_info(der: Seq<u8>) -> Option<(Seq<char>, Seq<u8>)>;

/// Parses a certificate with `X509Certificate::from_der` and reads its public key's
/// algorithm (as `to_id_string`) and subject public key bytes.
/// Trusted: the result is `certificate_key_info(der)`.
#[verifier::external_body]
fn read_certificate_key(der: &[u8]) -> (r: Option<(String, Vec<u8>)>)
    ensures
        match r {
            Some((oid, key)) => certificate_key_info(der@) == Some((oid@, key@)),
            None => certificate_key_info(der@) is None,
        },
{
    let (_, cert) = x509_parser::certificate::X509Certificate::from_der(der).ok()?;
    let spki = cert.public_key();
    Some((spki.algorithm.algorithm.to_id_string(), spki.subject_public_key.data.to_vec()))
}

/// Why a certificate was refused.
#[derive(Debug, Clone, PartialEq, Eq)]
pub enum CertificateRejection {
    /// The certificate could not be parsed.
    BadEncoding,
    /// The certificate parsed but does not match; the message says how.
    Mismatch(String),
}

/// The check of a certificate against a published key, with the mismatch message.
pub open spec fn published_key_check(der: Seq<u8>, key: (TlsAlgorithm, Seq<u8>)) -> Result<
    (),
    Option<Seq<char>>,
> {
    match certificate_key_info(der) {
        None => Err(None),
        Some((oid, spki)) => if (match key.0 {
            TlsAlgorithm::Ed25519 => oid != ED25519_OID@,
        }) {
            Err(Some("certificate algorithm mismatch"@))
        } else if spki != key.1 {
            Err(Some("certificate subject public key mismatch"@))
        } else {
            Ok(())
        },
    }
}

pub open spec fn rejection_view(r: CertificateRejection) -> Option<Seq<char>> {
    match r {
        CertificateRejection::BadEncoding => None,
        CertificateRejection::Mismatch(m) => Some(m@),
    }
}

fn bytes_equal(a: &[u8], b: &[u8]) -> (r: bool)
    ensures
        r == (a@ == b@),
{
    if a.len() != b.len() {
        return false;
    }
    let mut i: usize = 0;
    while i < a.len()
        invariant
            a@.len() == b@.len(),
            i <= a@.len(),
            forall|k: int| 0 <= k < i ==> a@[k] == b@[k],
        decreases a@.len() - i,
    {
        if a[i] != b[i] {
            return false;
        }
        i = i + 1;
    }
    assert(a@ =~= b@);
    true
}

/// Checks a server certificate against the key a claim published: the key's algorithm
/// and its subject public key bytes must both match.
pub fn verify_published_key(der: &[u8], key: &PublishedTlsKey) -> (r: Result<(), CertificateRejection>)
    ensures
        match published_key_check(der@, key@) {
            Ok(()) => r is Ok,
            Err(m) => r matches Err(e) && rejection_view(e) == m,
        },
{
    let (oid, spki) = match read_certificate_key(der) {
        Some(info) => info,
        None => {
            return Err(CertificateRejection::BadEncoding);
        },
    };
    let algorithm_ok = match key.algorithm {
        TlsAlgorithm::Ed25519 => crate::text::str_equal(oid.as_str(), ED25519_OID),
    };
    if !algorithm_ok {
        return Err(CertificateRejection::Mismatch(String::from_str("certificate algorithm mismatch")));
    }
    if !bytes_equal(spki.as_slice(), key.spki.as_slice()) {
        return Err(
            CertificateRejection::Mismatch(String::from_str("certificate subject public key mismatch")),
        );
    }
    Ok(())
}

/// The key bytes that the Nostr check compares: the last 32 bytes of the subject public
/// key, or all of it when it is shorter.
pub open spec fn trailing_key(spki: Seq<u8>) -> Seq<u8> {
    if spki.len() >= 32 {
        spki.skip(spki.len() - 32)
    } else {
        spki
    }
}

/// The check of a certificate against a key published as hex: the certificate's key,
/// in lower-case hex, must equal the published hex compared without ASCII case.
pub open spec fn nostr_key_check(der: Seq<u8>, expected_hex: Seq<char>) -> Result<(), Option<Seq<char>>> {
    match certificate_key_info(der) {
        None => Err(None),
        Some((_, spki)) => if hex_text(trailing_key(spki)) == ascii_lowercase(expected_hex) {
            Ok(())
        } else {
            Err(Some("Certificate public key does not match Nostr-published key"@))
        },
    }
}

/// A certificate check that trusts a server whose key was published over Nostr.
#[derive(Debug, Clone)]
pub struct NostrCertVerifier {
    expected_pubkey_hex: String,
}

impl NostrCertVerifier {
    pub closed spec fn expected(&self) -> Seq<char> {
        self.expected_pubkey_hex@
    }

    /// A check against the key with this hex text.
    pub fn new(expected_pubkey_hex: String) -> (r: NostrCertVerifier)
        ensures
            r.expected() == expected_pubkey_hex@,
    {
        NostrCertVerifier { expected_pubkey_hex }
    }

    /// The key the server must present, as given.
    pub fn expected_pubkey_hex(&self) -> (r: &str)
        ensures
            r@ == self.expected(),
    {
        self.expected_pubkey_hex.as_str()
    }

    /// Checks a server certificate.
    pub fn verify_certificate(&self, der: &[u8]) -> (r: Result<(), CertificateRejection>)
        ensures
            match nostr_key_check(der@, self.expected()) {
                Ok(()) => r is Ok,
                Err(m) => r matches Err(e) && rejection_view(e) == m,
            },
    {
        let (_, spki) = match read_certificate_key(der) {
            Some(info) => info,
            None => {
                return Err(CertificateRejection::BadEncoding);
            },
        };
        let n = spki.len();
        let mut tail: Vec<u8> = Vec::new();
        let start: usize = if n >= 32 {
            n - 32
        } else {
            0
        };
        let mut i: usize = start;
        while i < n
            invariant
                n == spki@.len(),
                start <= i <= n,
                tail@ == spki@.subrange(start as int, i as int),
            decreases n - i,
        {
            tail.push(spki[i]);
            proof {
                assert(spki@.subrange(start as int, i + 1) =~= spki@.subrange(
                    start as int,
                    i as int,
                ).push(spki@[i as int]));
            }
            i = i + 1;
        }
        proof {
            assert(tail@ =~= trailing_key(spki@));
        }
        let actual = hex_encode(tail.as_slice());
        let actual_chars = crate::text::chars_of(actual.as_str());
        let expected = to_ascii_lowercase(self.expected_pubkey_hex.as_str());
        if chars_equal(actual_chars.as_slice(), expected.as_slice()) {
            Ok(())
        } else {
            Err(
                CertificateRejection::Mismatch(
                    String::from_str("Certificate public key does not match Nostr-published key"),
                ),
            )
        }
    }
}

} // verus!
