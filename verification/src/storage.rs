//! Rows of the claim cache and of the user's selections.
use vstd::prelude::*;

verus! {

/// A cached claim, as stored.
#[derive(Debug, Clone, PartialEq, Eq)]
pub struct ClaimRecord {
    pub name: String,
    pub pubkey: String,
    pub ip: String,
    pub relays: Vec<String>,
    pub created_at: i64,
    pub fetched_at: i64,
    pub event_id: String,
    pub location: Option<String>,
    pub endpoints: Option<String>,
    pub service_kind: Option<String>,
    pub tls_pubkey: Option<String>,
    pub tls_alg: Option<String>,
    pub blossom_root: Option<String>,
    pub note: Option<String>,
}

/// The claim a user chose for a name.
#[derive(Debug, Clone, PartialEq, Eq)]
pub struct SelectionRecord {
    pub name: String,
    pub pubkey: String,
    pub chosen_at: i64,
}

/// Seconds since the Unix epoch by the system clock (0 if the clock is before it).
/// Trusted: nothing is promised of the value, which depends on the clock.
#[verifier::external_body]
pub fn unix_timestamp() -> i64 {
    std::time::SystemTime::now().duration_since(std::time::UNIX_EPOCH).unwrap_or_default().as_secs() as i64
}

} // verus!
