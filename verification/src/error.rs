//! The error type shared by the resolver and the site index.

use vstd::prelude::*;

verus! {

/// Errors of the node's operations, each with a human-readable message.
#[derive(Debug)]
pub enum SisiError {
    /// A failure reported by the networking layer.
    Iroh(String),
    /// A failure reported by the networking node itself.
    IrohNode(String),
    /// An address that cannot be resolved.
    InvalidAddress(String),
    /// No manifest is known for an address.
    ManifestNotFound(String),
    /// A signing or signature-checking failure.
    Signing(String),
    /// A file-system failure.
    Io(String),
    /// A serialization failure.
    Serde(String),
}

} // verus!
