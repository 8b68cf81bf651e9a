//! A signed message posted on a gossip topic.

use vstd::prelude::*;
use vstd::slice::slice_to_vec;
use vstd::string::{StrSliceExecFns, StringExecFns};

use crate::clock::{is_ulid_char, new_ulid, unix_time_secs};
use crate::crypto::{ed25519_public_key, ed25519_signature, hex_encode, hex_text, public_key_of, sign_bytes};
use crate::signing::{hex_signed_check, lemma_signed_by_seed, verify_hex_signed, VerifyError};
use crate::text::{decimal, u64_to_decimal};

verus! {

/// What a gossip message is.
#[derive(Debug, Clone, Copy, PartialEq, Eq, Structural)]
pub enum MessageKind {
    Post,
    Reply,
    Reaction,
    Delete,
    ModBlock,
    ModUnblock,
    ModPin,
    NameClaim,
    NameRelease,
}

/// The name of a kind as `{:?}` prints it.
pub open spec fn kind_text(k: MessageKind) -> Seq<char> {
    match k {
        MessageKind::Post => "Post"@,
        MessageKind::Reply => "Reply"@,
        MessageKind::Reaction => "Reaction"@,
        MessageKind::Delete => "Delete"@,
        MessageKind::ModBlock => "ModBlock"@,
        MessageKind::ModUnblock => "ModUnblock"@,
        MessageKind::ModPin => "ModPin"@,
        MessageKind::NameClaim => "NameClaim"@,
        MessageKind::NameRelease => "NameRelease"@,
    }
}

impl MessageKind {
    /// The name of the kind, as `{:?}` prints it.
    pub fn name(&self) -> (r: &'static str)
        ensures
            r@ == kind_text(*self),
    {
        match self {
            MessageKind::Post => "Post",
            MessageKind::Reply => "Reply",
            MessageKind::Reaction => "Reaction",
            MessageKind::Delete => "Delete",
            MessageKind::ModBlock => "ModBlock",
            MessageKind::ModUnblock => "ModUnblock",
            MessageKind::ModPin => "ModPin",
            MessageKind::NameClaim => "NameClaim",
            MessageKind::NameRelease => "NameRelease",
        }
    }
}

/// A signed gossip message.
pub struct GossipMessage {
    /// Unique sortable ID (ULID), which also encodes the creation time.
    pub id: String,
    /// ed25519 pubkey hex of the author.
    pub author: String,
    /// Topic this message belongs to.
    pub topic: String,
    pub kind: MessageKind,
    pub content: String,
    /// ULID of the parent message (for replies).
    pub parent_id: Option<String>,
    pub created_at: u64,
    /// Signs over `canonical_payload()`.
    pub signature: Vec<u8>,
}

/// The mathematical value of a message.
pub struct GossipMessageView {
    pub id: Seq<char>,
    pub author: Seq<char>,
    pub topic: Seq<char>,
    pub kind: MessageKind,
    pub content: Seq<char>,
    pub parent_id: Option<Seq<char>>,
    pub created_at: u64,
    pub signature: Seq<u8>,
}

impl View for GossipMessage {
    type V = GossipMessageView;

    open spec fn view(&self) -> GossipMessageView {
        GossipMessageView {
            id: self.id@,
            author: self.author@,
            topic: self.topic@,
            kind: self.kind,
            content: self.content@,
            parent_id: match self.parent_id {
                Some(p) => Some(p@),
                None => None,
            },
            created_at: self.created_at,
            signature: self.signature@,
        }
    }
}

impl Clone for GossipMessage {
    fn clone(&self) -> (r: Self)
        ensures
            r@ == self@,
    {
        GossipMessage {
            id: self.id.clone(),
            author: self.author.clone(),
            topic: self.topic.clone(),
            kind: self.kind,
            content: self.content.clone(),
            parent_id: match &self.parent_id {
                Some(p) => Some(p.clone()),
                None => None,
            },
            created_at: self.created_at,
            signature: slice_to_vec(self.signature.as_slice()),
        }
    }
}

/// The signed text of a message: `{id}:{author}:{topic}:{kind}:{content}:{created_at}`
/// (the parent id and the signature are not part of it).
pub open spec fn message_payload_text(m: GossipMessageView) -> Seq<char> {
    m.id + ":"@ + m.author + ":"@ + m.topic + ":"@ + kind_text(m.kind) + ":"@ + m.content + ":"@
        + decimal(m.created_at as nat)
}

/// The bytes over which a message is signed.
pub open spec fn message_payload(m: GossipMessageView) -> Seq<u8> {
    vstd::utf8::encode_utf8(message_payload_text(m))
}

/// The outcome of checking a message's signature against its author.
pub open spec fn message_check(m: GossipMessageView) -> Result<(), VerifyError> {
    hex_signed_check(m.author, message_payload(m), m.signature)
}

/// Why a message could not be made.
#[derive(Debug, Clone, Copy, PartialEq, Eq)]
pub enum GossipError {
    /// The system clock reads a time before the Unix epoch.
    ClockBeforeEpoch,
}

impl GossipMessage {
    /// Deterministic bytes to sign; excludes the signature.
    pub fn canonical_payload(&self) -> (r: Vec<u8>)
        ensures
            r@ == message_payload(self@),
    {
        let mut s = self.id.clone();
        s.append(":");
        s.append(self.author.as_str());
        s.append(":");
        s.append(self.topic.as_str());
        s.append(":");
        s.append(self.kind.name());
        s.append(":");
        s.append(self.content.as_str());
        s.append(":");
        let t = u64_to_decimal(self.created_at);
        s.append(t.as_str());
        s.as_str().as_bytes_vec()
    }

    /// A new message by the holder of `signing_key`, with a fresh ULID and
    /// the current time, signed.
    pub fn new(
        signing_key: &[u8; 32],
        topic: &str,
        kind: MessageKind,
        content: &str,
        parent_id: Option<String>,
    ) -> (r: Result<GossipMessage, GossipError>)
        ensures
            r is Ok || r == Err::<GossipMessage, GossipError>(GossipError::ClockBeforeEpoch),
            r matches Ok(m) ==> {
                &&& m@.id.len() == 26
                &&& forall|i: int| 0 <= i < 26 ==> is_ulid_char(#[trigger] m@.id[i])
                &&& m@.author == hex_text(ed25519_public_key(signing_key@))
                &&& m@.topic == topic@
                &&& m@.kind == kind
                &&& m@.content == content@
                &&& m@.parent_id == match parent_id {
                    Some(p) => Some(p@),
                    None => None::<Seq<char>>,
                }
                &&& m@.signature == ed25519_signature(signing_key@, message_payload(m@))
                &&& message_check(m@) == Ok::<(), VerifyError>(())
            },
    {
        let id = new_ulid();
        let pk = public_key_of(signing_key);
        let author = hex_encode(pk.as_slice());
        let created_at = match unix_time_secs() {
            Some(t) => t,
            None => {
                return Err(GossipError::ClockBeforeEpoch);
            },
        };
        let mut msg = GossipMessage {
            id,
            author,
            topic: String::from_str(topic),
            kind,
            content: String::from_str(content),
            parent_id,
            created_at,
            signature: Vec::new(),
        };
        let payload = msg.canonical_payload();
        let sig = sign_bytes(signing_key, payload.as_slice());
        msg.signature = slice_to_vec(sig.as_slice());
        proof {
            lemma_signed_by_seed(signing_key@, payload@);
        }
        Ok(msg)
    }

    /// Verify the signature against the author's pubkey.
    pub fn verify(&self) -> (r: Result<(), VerifyError>)
        ensures
            r == message_check(self@),
    {
        let payload = self.canonical_payload();
        verify_hex_signed(self.author.as_str(), payload.as_slice(), self.signature.as_slice())
    }
}

} // verus!
