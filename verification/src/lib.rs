//! Core logic of a wiki mirroring service: a session/transport retry policy,
//! a pagination-aware catalog collector, and a reconciliation engine that
//! merges freshly scraped page and user snapshots into durable history
//! records, with a concurrency-safe dedup registry for newly seen identities.

pub mod client;
pub mod error;
pub mod mongo_page;
pub mod mongo_user;
pub mod page;
pub mod page_history;
pub mod page_rate;
pub mod parser;
pub mod registry;
pub mod site;
pub mod text;
pub mod user;
pub mod votemap;
