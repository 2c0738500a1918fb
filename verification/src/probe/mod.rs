//! Cheap liveness probes of nodes, and the health of live connections.
pub mod cli;
pub mod engine;
pub mod sock_diag;
pub mod socket_health;
