//! The routing daemon: its protocol, its sessions and the rules it installs.
pub mod cidr;
pub mod daemon;
pub mod netfilter;
pub mod proto;
pub mod wire;
