//! Human-readable names owned by ed25519 keys, and the local store of claims.

pub mod claim;
pub mod gossip_handler;
pub mod laws;
pub mod store;
pub mod validate;
