//! A signed pointer: pubkey → current manifest hash + version.
//!
//! The pubkey is the permanent site address; the hash changes on every
//! republish. The optional `scope` lets one keypair own several sites.

use vstd::prelude::*;
use vstd::slice::slice_to_vec;
use vstd::string::{StrSliceExecFns, StringExecFns};

use crate::clock::unix_time_secs;
use crate::crypto::{ed25519_public_key, ed25519_signature, hex_encode, hex_text, public_key_of, sign_bytes};
use crate::signing::{hex_signed_check, lemma_signed_by_seed, verify_hex_signed, VerifyError};
use crate::text::{decimal, u64_to_decimal};

verus! {

/// A signed pointer from an owner's pubkey to a manifest hash.
pub struct SignedPointer {
    /// Hex ed25519 pubkey: the permanent address.
    pub pubkey: String,
    /// Optional topic scope, e.g. `"forum"`; `None` is the default site.
    pub scope: Option<String>,
    /// Current manifest hash.
    pub hash: String,
    /// Higher version always wins.
    pub version: u32,
    pub updated_at: u64,
    /// Signs over `canonical_payload()`.
    pub signature: Vec<u8>,
}

/// The mathematical value of a pointer.
pub struct SignedPointerView {
    pub pubkey: Seq<char>,
    pub scope: Option<Seq<char>>,
    pub hash: Seq<char>,
    pub version: u32,
    pub updated_at: u64,
    pub signature: Seq<u8>,
}

impl View for SignedPointer {
    type V = SignedPointerView;

    open spec fn view(&self) -> SignedPointerView {
        SignedPointerView {
            pubkey: self.pubkey@,
            scope: match self.scope {
                Some(s) => Some(s@),
                None => None,
            },
            hash: self.hash@,
            version: self.version,
            updated_at: self.updated_at,
            signature: self.signature@,
        }
    }
}

impl Clone for SignedPointer {
    fn clone(&self) -> (r: Self)
        ensures
            r@ == self@,
    {
        SignedPointer {
            pubkey: self.pubkey.clone(),
            scope: match &self.scope {
                Some(s) => Some(s.clone()),
                None => None,
            },
            hash: self.hash.clone(),
            version: self.version,
            updated_at: self.updated_at,
            signature: slice_to_vec(self.signature.as_slice()),
        }
    }
}

/// The signed text of a pointer. Without a scope (or with an empty one) it
/// is `sisi-pointer:{pubkey}:{hash}:{version}:{updated_at}`, the original
/// four-field form, so that older pointers still verify; with a scope it is
/// `sisi-pointer:{pubkey}:{scope}:{hash}:{version}:{updated_at}`.
pub open spec fn pointer_payload_text(p: SignedPointerView) -> Seq<char> {
    let tail = ":"@ + p.hash + ":"@ + decimal(p.version as nat) + ":"@ + decimal(p.updated_at as nat);
    match p.scope {
        Some(s) => if s.len() == 0 {
            "sisi-pointer:"@ + p.pubkey + tail
        } else {
            "sisi-pointer:"@ + p.pubkey + ":"@ + s + tail
        },
        None => "sisi-pointer:"@ + p.pubkey + tail,
    }
}

/// The bytes over which a pointer is signed.
pub open spec fn pointer_payload(p: SignedPointerView) -> Seq<u8> {
    vstd::utf8::encode_utf8(pointer_payload_text(p))
}

/// The outcome of checking a pointer's signature against its own pubkey.
pub open spec fn pointer_check(p: SignedPointerView) -> Result<(), VerifyError> {
    hex_signed_check(p.pubkey, pointer_payload(p), p.signature)
}

/// Why a pointer could not be made.
#[derive(Debug, Clone, Copy, PartialEq, Eq)]
pub enum PointerError {
    /// The system clock reads a time before the Unix epoch.
    ClockBeforeEpoch,
}

impl SignedPointer {
    /// Deterministic bytes over which the signature is computed.
    pub fn canonical_payload(&self) -> (r: Vec<u8>)
        ensures
            r@ == pointer_payload(self@),
    {
        let mut s = String::from_str("sisi-pointer:");
        s.append(self.pubkey.as_str());
        match &self.scope {
            Some(scope) => {
                if scope.as_str().unicode_len() != 0 {
                    s.append(":");
                    s.append(scope.as_str());
                }
            },
            None => {},
        }
        s.append(":");
        s.append(self.hash.as_str());
        s.append(":");
        let v = u64_to_decimal(self.version as u64);
        s.append(v.as_str());
        s.append(":");
        let t = u64_to_decimal(self.updated_at);
        s.append(t.as_str());
        proof {
            let p = self@;
            let tail = ":"@ + p.hash + ":"@ + decimal(p.version as nat) + ":"@ + decimal(p.updated_at as nat);
            match p.scope {
                Some(sc) => if sc.len() != 0 {
                    assert(s@ =~= "sisi-pointer:"@ + p.pubkey + ":"@ + sc + tail);
                } else {
                    assert(s@ =~= "sisi-pointer:"@ + p.pubkey + tail);
                },
                None => {
                    assert(s@ =~= "sisi-pointer:"@ + p.pubkey + tail);
                },
            }
        }
        s.as_str().as_bytes_vec()
    }
}

/// Create a new pointer for `hash`, signed with `signing_key`, stamped with
/// the current time.
pub fn create_pointer(signing_key: &[u8; 32], hash: &str, version: u32, scope: Option<&str>) -> (r:
    Result<SignedPointer, PointerError>)
    ensures
        r is Ok || r == Err::<SignedPointer, PointerError>(PointerError::ClockBeforeEpoch),
        r matches Ok(p) ==> {
            &&& p@.pubkey == hex_text(ed25519_public_key(signing_key@))
            &&& p@.hash == hash@
            &&& p@.version == version
            &&& p@.scope == match scope {
                Some(s) => Some(s@),
                None => None::<Seq<char>>,
            }
            &&& p@.signature == ed25519_signature(signing_key@, pointer_payload(p@))
            &&& pointer_check(p@) == Ok::<(), VerifyError>(())
        },
{
    let pk = public_key_of(signing_key);
    let pubkey = hex_encode(pk.as_slice());
    let updated_at = match unix_time_secs() {
        Some(t) => t,
        None => {
            return Err(PointerError::ClockBeforeEpoch);
        },
    };
    let mut pointer = SignedPointer {
        pubkey,
        scope: match scope {
            Some(s) => Some(String::from_str(s)),
            None => None,
        },
        hash: String::from_str(hash),
        version,
        updated_at,
        signature: Vec::new(),
    };
    let payload = pointer.canonical_payload();
    let sig = sign_bytes(signing_key, payload.as_slice());
    pointer.signature = slice_to_vec(sig.as_slice());
    proof {
        lemma_signed_by_seed(signing_key@, payload@);
    }
    Ok(pointer)
}

/// Verify a pointer's signature against its own pubkey.
pub fn verify_pointer(pointer: &SignedPointer) -> (r: Result<(), VerifyError>)
    ensures
        r == pointer_check(pointer@),
{
    let payload = pointer.canonical_payload();
    verify_hex_signed(pointer.pubkey.as_str(), payload.as_slice(), pointer.signature.as_slice())
}

} // verus!
