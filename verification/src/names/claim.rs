//! A name owned by an ed25519 key, signed by that key.
//!
//! Conflict resolution (deterministic, no consensus required):
//! 1. A claim is valid only if `verify()` passes.
//! 2. If two different pubkeys claim the same name, the one with the lower
//!    `claimed_at` timestamp wins (first-claim semantics).
//! 3. Ties in `claimed_at` are broken by lexicographic order of `pubkey`
//!    (lower pubkey hex wins).
//! 4. The owner of a name (same pubkey) may update it by incrementing
//!    `sequence`; updates with equal or lower sequence are ignored.

use vstd::prelude::*;
use vstd::slice::slice_to_vec;
use vstd::string::{StrSliceExecFns, StringExecFns};

use crate::clock::unix_time_secs;
use crate::crypto::{ed25519_key_accepted, ed25519_public_key, ed25519_signature, hex_encode, hex_text, public_key_of, sign_bytes};
use crate::names::validate::{
    local_of, local_part, name_check, parse_scope, scope_of, validate_name, NameError,
};
use crate::signing::{hex_signed_check, lemma_signed_by_seed, verify_hex_signed, VerifyError};
use crate::text::{decimal, seq_lt, str_eq, str_lt, u64_to_decimal};

verus! {

/// A cryptographically-owned human-readable name, `local` or `local@scope`.
pub struct NameClaim {
    /// Human-readable name, e.g. `"chiko"` or `"chiko@forum"`.
    pub name: String,
    /// Hex-encoded ed25519 public key: the permanent owner identity.
    pub pubkey: String,
    /// Counter; a higher value supersedes a lower one for the same pubkey.
    pub sequence: u64,
    /// Unix timestamp (seconds) when the claim was first created.
    pub claimed_at: u64,
    /// ed25519 signature over `canonical_payload`.
    pub signature: Vec<u8>,
}

/// The mathematical value of a claim.
pub struct NameClaimView {
    pub name: Seq<char>,
    pub pubkey: Seq<char>,
    pub sequence: u64,
    pub claimed_at: u64,
    pub signature: Seq<u8>,
}

impl View for NameClaim {
    type V = NameClaimView;

    open spec fn view(&self) -> NameClaimView {
        NameClaimView {
            name: self.name@,
            pubkey: self.pubkey@,
            sequence: self.sequence,
            claimed_at: self.claimed_at,
            signature: self.signature@,
        }
    }
}

impl Clone for NameClaim {
    fn clone(&self) -> (r: Self)
        ensures
            r@ == self@,
    {
        NameClaim {
            name: self.name.clone(),
            pubkey: self.pubkey.clone(),
            sequence: self.sequence,
            claimed_at: self.claimed_at,
            signature: slice_to_vec(self.signature.as_slice()),
        }
    }
}

/// Why a claim could not be made or updated.
#[derive(Debug, Clone, Copy, PartialEq, Eq)]
pub enum ClaimError {
    /// The name breaks the name grammar.
    InvalidName(NameError),
    /// The system clock reads a time before the Unix epoch.
    ClockBeforeEpoch,
    /// The signing key does not own the claim.
    KeyMismatch,
}

/// The text over which a claim is signed:
/// `sisi-name:{name}:{pubkey}:{sequence}:{claimed_at}`.
pub open spec fn claim_payload_text(c: NameClaimView) -> Seq<char> {
    "sisi-name:"@ + c.name + ":"@ + c.pubkey + ":"@ + decimal(c.sequence as nat) + ":"@ + decimal(
        c.claimed_at as nat,
    )
}

/// The bytes over which a claim is signed: the UTF-8 of its payload text.
pub open spec fn claim_payload(c: NameClaimView) -> Seq<u8> {
    vstd::utf8::encode_utf8(claim_payload_text(c))
}

/// The outcome of checking a claim's signature against its own pubkey.
pub open spec fn claim_check(c: NameClaimView) -> Result<(), VerifyError> {
    hex_signed_check(c.pubkey, claim_payload(c), c.signature)
}

/// `a` wins over `b` by the first-claim rule: earlier `claimed_at`, ties
/// broken by the lexicographically lower pubkey.
pub open spec fn claim_beats(a: NameClaimView, b: NameClaimView) -> bool {
    a.claimed_at < b.claimed_at || (a.claimed_at == b.claimed_at && seq_lt(a.pubkey, b.pubkey))
}

/// `c` is owned by the key with secret `seed` and signed with it.
pub open spec fn signed_with(c: NameClaimView, seed: Seq<u8>) -> bool {
    c.pubkey == hex_text(ed25519_public_key(seed)) && c.signature == ed25519_signature(
        seed,
        claim_payload(c),
    )
}

impl NameClaim {
    /// Deterministic bytes over which the signature is computed; all fields
    /// but the signature itself.
    pub fn canonical_payload(&self) -> (r: Vec<u8>)
        ensures
            r@ == claim_payload(self@),
    {
        let mut s = String::from_str("sisi-name:");
        s.append(self.name.as_str());
        s.append(":");
        s.append(self.pubkey.as_str());
        s.append(":");
        let seq_text = u64_to_decimal(self.sequence);
        s.append(seq_text.as_str());
        s.append(":");
        let at_text = u64_to_decimal(self.claimed_at);
        s.append(at_text.as_str());
        s.as_str().as_bytes_vec()
    }

    /// Signs the claim with `signing_key`, replacing its signature.
    fn sign_with(&mut self, signing_key: &[u8; 32])
        requires
            old(self)@.pubkey == hex_text(ed25519_public_key(signing_key@)),
            ed25519_public_key(signing_key@).len() == 32,
            ed25519_key_accepted(ed25519_public_key(signing_key@)),
        ensures
            final(self)@ == (NameClaimView {
                signature: ed25519_signature(signing_key@, claim_payload(old(self)@)),
                ..old(self)@
            }),
            signed_with(final(self)@, signing_key@),
            claim_check(final(self)@) == Ok::<(), VerifyError>(()),
    {
        let payload = self.canonical_payload();
        let sig = sign_bytes(signing_key, payload.as_slice());
        self.signature = slice_to_vec(sig.as_slice());
        proof {
            lemma_signed_by_seed(signing_key@, payload@);
        }
    }

    /// Create and sign a brand-new claim: sequence 1, the current time, the
    /// signing key's public key in hex.
    pub fn new(signing_key: &[u8; 32], name: &str) -> (r: Result<NameClaim, ClaimError>)
        ensures
            match name_check(name@) {
                Err(e) => r == Err::<NameClaim, ClaimError>(ClaimError::InvalidName(e)),
                Ok(_) => r is Ok || r == Err::<NameClaim, ClaimError>(ClaimError::ClockBeforeEpoch),
            },
            r matches Ok(c) ==> {
                &&& c@.name == name@
                &&& c@.sequence == 1
                &&& signed_with(c@, signing_key@)
                &&& claim_check(c@) == Ok::<(), VerifyError>(())
            },
    {
        match validate_name(name) {
            Err(e) => {
                return Err(ClaimError::InvalidName(e));
            },
            Ok(()) => {},
        }
        let pk = public_key_of(signing_key);
        let pubkey = hex_encode(pk.as_slice());
        let claimed_at = match unix_time_secs() {
            Some(t) => t,
            None => {
                return Err(ClaimError::ClockBeforeEpoch);
            },
        };
        let mut claim = NameClaim {
            name: String::from_str(name),
            pubkey,
            sequence: 1,
            claimed_at,
            signature: Vec::new(),
        };
        claim.sign_with(signing_key);
        Ok(claim)
    }

    /// A new claim updating this one: sequence incremented, `claimed_at`
    /// kept, signed again. Fails when `signing_key` does not own the claim.
    pub fn update(self, signing_key: &[u8; 32]) -> (r: Result<NameClaim, ClaimError>)
        requires
            self@.pubkey == hex_text(ed25519_public_key(signing_key@)) ==> self.sequence < u64::MAX,
        ensures
            self@.pubkey != hex_text(ed25519_public_key(signing_key@)) ==> r == Err::<
                NameClaim,
                ClaimError,
            >(ClaimError::KeyMismatch),
            self@.pubkey == hex_text(ed25519_public_key(signing_key@)) ==> (r matches Ok(c) && {
                &&& c@.name == self@.name
                &&& c@.pubkey == self@.pubkey
                &&& c@.sequence == self@.sequence + 1
                &&& c@.claimed_at == self@.claimed_at
                &&& signed_with(c@, signing_key@)
                &&& claim_check(c@) == Ok::<(), VerifyError>(())
            }),
    {
        let pk = public_key_of(signing_key);
        let expected = hex_encode(pk.as_slice());
        if !str_eq(self.pubkey.as_str(), expected.as_str()) {
            return Err(ClaimError::KeyMismatch);
        }
        let mut claim = self;
        claim.sequence = claim.sequence + 1;
        claim.signature = Vec::new();
        claim.sign_with(signing_key);
        Ok(claim)
    }

    /// The update of this claim by the holder of `signing_key`, when one can
    /// be made: `None` when the key owns the claim but its sequence number is
    /// already `u64::MAX` (it cannot be incremented); otherwise what `update`
    /// gives, which is the mismatch error for a key that does not own it.
    pub fn try_update(self, signing_key: &[u8; 32]) -> (r: Option<Result<NameClaim, ClaimError>>)
        ensures
            self@.pubkey != hex_text(ed25519_public_key(signing_key@)) ==> r == Some(
                Err::<NameClaim, ClaimError>(ClaimError::KeyMismatch),
            ),
            self@.pubkey == hex_text(ed25519_public_key(signing_key@)) && self.sequence == u64::MAX
                ==> r is None,
            self@.pubkey == hex_text(ed25519_public_key(signing_key@)) && self.sequence < u64::MAX
                ==> (r matches Some(Ok(c)) && {
                &&& c@.name == self@.name
                &&& c@.pubkey == self@.pubkey
                &&& c@.sequence == self@.sequence + 1
                &&& c@.claimed_at == self@.claimed_at
                &&& signed_with(c@, signing_key@)
                &&& claim_check(c@) == Ok::<(), VerifyError>(())
            }),
    {
        if self.sequence < u64::MAX {
            return Some(self.update(signing_key));
        }
        let pk = public_key_of(signing_key);
        let expected = hex_encode(pk.as_slice());
        if str_eq(self.pubkey.as_str(), expected.as_str()) {
            None
        } else {
            Some(Err(ClaimError::KeyMismatch))
        }
    }

    /// Verify the ed25519 signature against the claim's own pubkey.
    pub fn verify(&self) -> (r: Result<(), VerifyError>)
        ensures
            r == claim_check(self@),
    {
        let payload = self.canonical_payload();
        verify_hex_signed(self.pubkey.as_str(), payload.as_slice(), self.signature.as_slice())
    }

    /// The scope part of the name (after `@`), if any.
    pub fn scope(&self) -> (r: Option<&str>)
        ensures
            match r {
                Some(s) => scope_of(self@.name) == Some(s@),
                None => scope_of(self@.name) is None,
            },
    {
        parse_scope(self.name.as_str())
    }

    /// The local part of the name (before `@`).
    pub fn local(&self) -> (r: &str)
        ensures
            r@ == local_of(self@.name),
    {
        local_part(self.name.as_str())
    }

    /// Whether `self` wins over `other`, a conflicting claim for the same
    /// name, by the first-claim rule.
    pub fn beats(&self, other: &NameClaim) -> (r: bool)
        requires
            self@.name == other@.name,
        ensures
            r == claim_beats(self@, other@),
    {
        if self.claimed_at < other.claimed_at {
            return true;
        }
        if self.claimed_at > other.claimed_at {
            return false;
        }
        str_lt(self.pubkey.as_str(), other.pubkey.as_str())
    }
}

} // verus!
