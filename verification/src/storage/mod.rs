//! The node catalog: a dense store, queries over it, and what is persisted.
pub mod db;
pub mod query_engine;
pub mod repository;
pub mod snapshot;
pub mod soa_store;
pub mod sync;
