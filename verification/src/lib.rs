//! Cross-locale quest deduplication and notification-dispatch pipeline.
//!
//! The library decides, given a freshly fetched quest batch and the set of
//! quests already known to a store, which quests are genuinely new per locale
//! and globally, merges state safely across sequential locale scans and
//! concurrent ingest requests, and selects the payloads owed to notification
//! sinks.  All I/O (HTTP fetch, webhook delivery, file persistence) lives in
//! unverified glue around the library; everything here is pure decision logic
//! with proved contracts.

pub mod color;
pub mod config;
pub mod dedupe;
pub mod errors;
pub mod ingest;
pub mod keys;
pub mod quest;
pub mod scan;
pub mod store;
