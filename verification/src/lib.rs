//! Verified core of a feed reader: the fetcher's rules for cleaning up feed
//! metadata, collecting new entries and scheduling the next visit, the
//! server's request decisions, and the small wire format between the two.

pub mod text;
pub mod types;
pub mod models;
pub mod collect;
pub mod schedule;
pub mod ipc;
pub mod server;
pub mod store;
