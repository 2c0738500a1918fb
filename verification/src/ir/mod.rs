//! The canonical form of a proxy node.
pub mod adapter;
pub mod binary;
pub mod decoding;
pub mod encoding;
pub mod hash_index;
pub mod node;
pub mod protocol;
pub mod transport;
pub mod uuid;
