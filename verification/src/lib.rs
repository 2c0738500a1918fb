//! A verified core for a Linux proxy toolchain manager: subscription ingestion,
//! canonical node identity, the node catalog, core configuration, egress
//! validation, failover decisions and the routing daemon's protocol.
pub mod adapter;
pub mod controller;
pub mod gui;
pub mod ip;
pub mod ir;
pub mod json;
pub mod laws;
pub mod netd;
pub mod parser;
pub mod probe;
pub mod sort;
pub mod storage;
pub mod text;
pub mod time;
