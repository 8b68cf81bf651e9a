//! Topic identifiers derived from human-readable topic names.

use vstd::prelude::*;
use vstd::string::{StrSliceExecFns, StringExecFns};

use crate::crypto::{sha256, sha256_digest};

verus! {

/// The 32-byte identifier of a topic: the SHA-256 of the UTF-8 of
/// `sisi-gossip:{name}`.
pub open spec fn topic_id_of(name: Seq<char>) -> Seq<u8> {
    sha256(vstd::utf8::encode_utf8("sisi-gossip:"@ + name))
}

/// Derive the topic identifier of a topic name, so that "general",
/// "rust-help" or "announcements" all become valid topic IDs.
pub fn topic_id(name: &str) -> (r: [u8; 32])
    ensures
        r@ == topic_id_of(name@),
{
    let mut s = String::from_str("sisi-gossip:");
    s.append(name);
    let bytes = s.as_str().as_bytes_vec();
    sha256_digest(bytes.as_slice())
}

/// A topic name with its identifier.
pub struct TopicHandle {
    pub name: String,
    pub id: [u8; 32],
}

impl TopicHandle {
    /// The handle of the topic `name`.
    pub fn new(name: &str) -> (r: TopicHandle)
        ensures
            r.name@ == name@,
            r.id@ == topic_id_of(name@),
    {
        TopicHandle { name: String::from_str(name), id: topic_id(name) }
    }
}

} // verus!
