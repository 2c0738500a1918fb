//! Subscriptions: from bytes to canonical nodes.
pub mod clash;
pub mod error;
pub mod format;
pub mod ingest;
pub mod metadata;
pub mod radix64;
pub mod uri;
pub mod wire;
pub mod yaml;
