//! Frontier browser core: address parsing, navigation history, Nostr name
//! system claims, Blossom manifests, script discovery and page assembly.
use vstd::prelude::*;

pub mod automation;
pub mod blossom;
pub mod chrome;
pub mod claim_selector;
pub mod hexcode;
pub mod history;
pub mod input;
pub mod js;
pub mod navigation;
pub mod readme_application;
pub mod net;
pub mod nns;
pub mod storage;
pub mod text;
pub mod tls;
pub mod webdriver;
pub mod weburl;
pub mod wpt;

verus! {

} // verus!
