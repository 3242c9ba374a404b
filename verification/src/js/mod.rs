//! The page's scripts: which ones a document holds, how they are scheduled, where their
//! sources come from, and the bookkeeping of the DOM they change.
pub mod bridge;
pub mod dom;
pub mod markup;
pub mod environment;
pub mod processor;
pub mod runtime;
pub mod script;
pub mod script_fetcher;
pub mod session;
pub mod timers;
