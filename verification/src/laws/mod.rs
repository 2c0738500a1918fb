//! What the library promises, over what goes in and what comes out.
pub mod address;
pub mod clash;
pub mod config;
pub mod control;
pub mod display;
pub mod failover;
pub mod ingest;
pub mod links;
pub mod messages;
pub mod names;
pub mod node;
pub mod outbound;
pub mod payloads;
pub mod places;
pub mod probes;
pub mod query;
pub mod ranking;
pub mod routing;
pub mod samples;
pub mod shares;
pub mod storage;
pub mod text;
pub mod trials;
