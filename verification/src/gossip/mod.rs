//! Signed gossip messages on named topics, moderation lists, and the local
//! message store.

pub mod message;
pub mod moderation;
pub mod store;
pub mod topic;
