//! The Nostr name system: claims, their scores and their ranking.
pub mod models;
pub mod resolver;
pub mod scoring;
