//! Configuration for the sing-box core, and checks of the traffic it carries.
pub mod config;
pub mod egress;
pub mod http;
pub mod outbound;
pub mod socks5;
pub mod supervisor;
