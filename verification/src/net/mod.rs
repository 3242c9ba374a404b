//! Nostr events as plain values and the relay list.
pub mod nostr_client;
pub mod relay_directory;
