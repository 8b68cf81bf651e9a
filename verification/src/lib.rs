//! Core logic of a peer-to-peer site publishing network: human-readable
//! name claims, signed pointers, gossip messages and moderation lists, site
//! manifests and the index of published sites, address resolution, the
//! pinning daemon's commands, and the local stores that keep them.

pub mod text;
pub mod seqs;
pub mod string_set;
pub mod crypto;
pub mod signing;
pub mod clock;
pub mod identity;
pub mod error;
pub mod names;
pub mod pointer;
pub mod resolver;
pub mod gossip;
pub mod site;
pub mod manifest;
pub mod publisher;
pub mod gateway;
pub mod index;
pub mod node;
pub mod daemon;
pub mod infra;
