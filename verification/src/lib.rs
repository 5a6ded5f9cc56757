//! Decision logic of a listing watcher: which search results are new, how a
//! batch of page downloads is accounted for, which listings deserve an alert,
//! and what is sent for them.

pub mod dedup;
pub mod documents;
pub mod error;
pub mod fetch;
pub mod listing;
pub mod notify;
pub mod search;
pub mod session;
pub mod text;
