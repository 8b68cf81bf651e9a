//! Signed pointers from a site owner's public key to the current manifest
//! hash of the site, and the local store that keeps the newest of each.

pub mod laws;
pub mod signed;
pub mod store;
