//! Query-execution fabric for a log/metrics search engine.
//!
//! The crate prepares an isolated, resource-governed execution context per
//! search request, routes three ephemeral storage tiers plus a durable object
//! store by URL scheme, plans a logical table over a set of columnar segment
//! files, and drives the streaming merge/compaction pipeline that rewrites
//! many small segment files into one sorted, deduplicated output.
//!
//! The embedded SQL engine and the columnar codec are external collaborators:
//! this crate computes every decision they are handed (settings, resource
//! scaling, storage prefixes, schemas, query text) and states the semantics of
//! the compaction templates over an explicit row model.

pub mod compact;
pub mod context;
pub mod errors;
pub mod governor;
pub mod provider;
pub mod registry;
pub mod schema;
pub mod storage;
pub mod settings;
pub mod sqlgen;
pub mod text;
