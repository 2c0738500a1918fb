//! The controller: sessions with the routing daemon, ranking of candidates, and
//! the failover watchdog.
pub mod failover;
pub mod netd_client;
pub mod proxy_controller;
pub mod ranking;
