//! Moderation: a forum owner's signed list of blocked authors and pinned
//! messages, and a user's own local block list.

use vstd::prelude::*;
use vstd::slice::slice_to_vec;
use vstd::string::{StrSliceExecFns, StringExecFns};

use crate::clock::unix_time_secs;
use crate::crypto::{ed25519_key_accepted, ed25519_public_key, ed25519_signature, hex_encode, hex_text, public_key_of, sign_bytes};
use crate::gossip::message::GossipError;
use crate::signing::{hex_signed_check, lemma_signed_by_seed, verify_hex_signed, VerifyError};
use crate::string_set::{sorted_listing, StringSet};
use crate::text::{decimal, join, join_strings, str_eq, u64_to_decimal};

verus! {

/// A signed moderation list published by a forum owner; users who trust the
/// owner's pubkey apply it locally.
pub struct ModList {
    /// The forum owner's pubkey: the authority for this list.
    pub owner_pubkey: String,
    /// The topic the list applies to.
    pub topic: String,
    /// Blocked pubkeys.
    pub blocked: StringSet,
    /// Pinned message IDs.
    pub pinned: Vec<String>,
    pub updated_at: u64,
    pub signature: Vec<u8>,
}

/// The mathematical value of a moderation list.
pub struct ModListView {
    pub owner_pubkey: Seq<char>,
    pub topic: Seq<char>,
    pub blocked: Set<Seq<char>>,
    pub pinned: Seq<Seq<char>>,
    pub updated_at: u64,
    pub signature: Seq<u8>,
}

impl View for ModList {
    type V = ModListView;

    open spec fn view(&self) -> ModListView {
        ModListView {
            owner_pubkey: self.owner_pubkey@,
            topic: self.topic@,
            blocked: self.blocked@,
            pinned: self.pinned@.map_values(|s: String| s@),
            updated_at: self.updated_at,
            signature: self.signature@,
        }
    }
}

/// The signed text of a list:
/// `{owner}:{topic}:{blocked, sorted, comma-separated}:{pinned, comma-separated}:{updated_at}`.
pub open spec fn modlist_payload_text(l: ModListView) -> Seq<char> {
    l.owner_pubkey + ":"@ + l.topic + ":"@ + join(sorted_listing(l.blocked), ","@) + ":"@ + join(
        l.pinned,
        ","@,
    ) + ":"@ + decimal(l.updated_at as nat)
}

/// The bytes over which a list is signed.
pub open spec fn modlist_payload(l: ModListView) -> Seq<u8> {
    vstd::utf8::encode_utf8(modlist_payload_text(l))
}

/// The outcome of checking a list's signature against its owner.
pub open spec fn modlist_check(l: ModListView) -> Result<(), VerifyError> {
    hex_signed_check(l.owner_pubkey, modlist_payload(l), l.signature)
}

/// `after` is `before` with new contents, restamped and signed with `seed`.
pub open spec fn resigned(before: ModListView, after: ModListView, seed: Seq<u8>) -> bool {
    &&& after.owner_pubkey == before.owner_pubkey
    &&& after.topic == before.topic
    &&& after.signature == ed25519_signature(seed, modlist_payload(after))
}

impl ModList {
    /// Deterministic bytes to sign; excludes the signature.
    pub fn canonical_payload(&self) -> (r: Vec<u8>)
        ensures
            r@ == modlist_payload(self@),
    {
        let mut s = self.owner_pubkey.clone();
        s.append(":");
        s.append(self.topic.as_str());
        s.append(":");
        let blocked = self.blocked.to_vec();
        let b = join_strings(&blocked, ",");
        s.append(b.as_str());
        s.append(":");
        let p = join_strings(&self.pinned, ",");
        s.append(p.as_str());
        s.append(":");
        let t = u64_to_decimal(self.updated_at);
        s.append(t.as_str());
        s.as_str().as_bytes_vec()
    }

    fn sign(&mut self, signing_key: &[u8; 32])
        requires
            ed25519_public_key(signing_key@).len() == 32,
            ed25519_key_accepted(ed25519_public_key(signing_key@)),
        ensures
            final(self)@ == (ModListView {
                signature: ed25519_signature(signing_key@, modlist_payload(old(self)@)),
                ..old(self)@
            }),
            final(self)@.owner_pubkey == hex_text(ed25519_public_key(signing_key@)) ==> modlist_check(
                final(self)@,
            ) == Ok::<(), VerifyError>(()),
    {
        let payload = self.canonical_payload();
        let sig = sign_bytes(signing_key, payload.as_slice());
        self.signature = slice_to_vec(sig.as_slice());
        proof {
            lemma_signed_by_seed(signing_key@, payload@);
        }
    }

    /// An empty list for `topic`, owned by the holder of `signing_key`,
    /// stamped with the current time and signed.
    pub fn new(signing_key: &[u8; 32], topic: &str) -> (r: Result<ModList, GossipError>)
        ensures
            r is Ok || r == Err::<ModList, GossipError>(GossipError::ClockBeforeEpoch),
            r matches Ok(l) ==> {
                &&& l@.owner_pubkey == hex_text(ed25519_public_key(signing_key@))
                &&& l@.topic == topic@
                &&& l@.blocked == Set::<Seq<char>>::empty()
                &&& l@.pinned == Seq::<Seq<char>>::empty()
                &&& l@.signature == ed25519_signature(signing_key@, modlist_payload(l@))
                &&& modlist_check(l@) == Ok::<(), VerifyError>(())
            },
    {
        let pk = public_key_of(signing_key);
        let owner_pubkey = hex_encode(pk.as_slice());
        let updated_at = match unix_time_secs() {
            Some(t) => t,
            None => {
                return Err(GossipError::ClockBeforeEpoch);
            },
        };
        let mut list = ModList {
            owner_pubkey,
            topic: String::from_str(topic),
            blocked: StringSet::new(),
            pinned: Vec::new(),
            updated_at,
            signature: Vec::new(),
        };
        assert(list@.pinned =~= Seq::<Seq<char>>::empty());
        list.sign(signing_key);
        Ok(list)
    }

    /// Block `pubkey`, restamp and re-sign with `signing_key`. On a clock
    /// before the epoch nothing changes.
    pub fn block(&mut self, signing_key: &[u8; 32], pubkey: &str) -> (r: Result<(), GossipError>)
        ensures
            r matches Err(e) ==> e == GossipError::ClockBeforeEpoch && final(self)@ == old(self)@,
            r matches Ok(_) ==> {
                &&& final(self)@.blocked == old(self)@.blocked.insert(pubkey@)
                &&& final(self)@.pinned == old(self)@.pinned
                &&& resigned(old(self)@, final(self)@, signing_key@)
                &&& final(self)@.owner_pubkey == hex_text(ed25519_public_key(signing_key@))
                    ==> modlist_check(final(self)@) == Ok::<(), VerifyError>(())
            },
    {
        let now = match unix_time_secs() {
            Some(t) => t,
            None => {
                return Err(GossipError::ClockBeforeEpoch);
            },
        };
        let _ = public_key_of(signing_key);
        self.blocked.insert(pubkey);
        self.updated_at = now;
        self.sign(signing_key);
        Ok(())
    }

    /// Unblock `pubkey`, restamp and re-sign with `signing_key`.
    pub fn unblock(&mut self, signing_key: &[u8; 32], pubkey: &str) -> (r: Result<(), GossipError>)
        ensures
            r matches Err(e) ==> e == GossipError::ClockBeforeEpoch && final(self)@ == old(self)@,
            r matches Ok(_) ==> {
                &&& final(self)@.blocked == old(self)@.blocked.remove(pubkey@)
                &&& final(self)@.pinned == old(self)@.pinned
                &&& resigned(old(self)@, final(self)@, signing_key@)
                &&& final(self)@.owner_pubkey == hex_text(ed25519_public_key(signing_key@))
                    ==> modlist_check(final(self)@) == Ok::<(), VerifyError>(())
            },
    {
        let now = match unix_time_secs() {
            Some(t) => t,
            None => {
                return Err(GossipError::ClockBeforeEpoch);
            },
        };
        let _ = public_key_of(signing_key);
        self.blocked.remove(pubkey);
        self.updated_at = now;
        self.sign(signing_key);
        Ok(())
    }

    /// Pin `msg_id` (once), restamp and re-sign with `signing_key`.
    pub fn pin(&mut self, signing_key: &[u8; 32], msg_id: &str) -> (r: Result<(), GossipError>)
        ensures
            r matches Err(e) ==> e == GossipError::ClockBeforeEpoch && final(self)@ == old(self)@,
            r matches Ok(_) ==> {
                &&& final(self)@.blocked == old(self)@.blocked
                &&& final(self)@.pinned == (if old(self)@.pinned.contains(msg_id@) {
                    old(self)@.pinned
                } else {
                    old(self)@.pinned.push(msg_id@)
                })
                &&& resigned(old(self)@, final(self)@, signing_key@)
                &&& final(self)@.owner_pubkey == hex_text(ed25519_public_key(signing_key@))
                    ==> modlist_check(final(self)@) == Ok::<(), VerifyError>(())
            },
    {
        let now = match unix_time_secs() {
            Some(t) => t,
            None => {
                return Err(GossipError::ClockBeforeEpoch);
            },
        };
        let _ = public_key_of(signing_key);
        let n = self.pinned.len();
        let mut found = false;
        let mut i: usize = 0;
        while i < n
            invariant
                n == self.pinned@.len(),
                i <= n,
                found == exists|j: int| 0 <= j < i && self.pinned@[j]@ == msg_id@,
            decreases n - i,
        {
            if str_eq(self.pinned[i].as_str(), msg_id) {
                found = true;
            }
            i = i + 1;
        }
        proof {
            let pv = self@.pinned;
            if found {
                let j = choose|j: int| 0 <= j < n && self.pinned@[j]@ == msg_id@;
                assert(pv[j] == msg_id@);
            } else {
                assert forall|j: int| 0 <= j < pv.len() implies pv[j] != msg_id@ by {
                    assert(pv[j] == self.pinned@[j]@);
                }
            }
        }
        if !found {
            let ghost prev = self.pinned@;
            self.pinned.push(String::from_str(msg_id));
            assert(self.pinned@.map_values(|s: String| s@) =~= prev.map_values(|s: String| s@).push(msg_id@));
        }
        self.updated_at = now;
        self.sign(signing_key);
        Ok(())
    }

    /// Whether `pubkey` is blocked.
    pub fn is_blocked(&self, pubkey: &str) -> (r: bool)
        ensures
            r == self@.blocked.contains(pubkey@),
    {
        self.blocked.contains(pubkey)
    }

    /// Verify the signature against the owner's pubkey.
    pub fn verify(&self) -> (r: Result<(), VerifyError>)
        ensures
            r == modlist_check(self@),
    {
        let payload = self.canonical_payload();
        verify_hex_signed(self.owner_pubkey.as_str(), payload.as_slice(), self.signature.as_slice())
    }
}

/// A user's own block list: authors they do not want to see.
pub struct PersonalBlockList {
    pub blocked: StringSet,
}

impl PersonalBlockList {
    /// An empty list.
    pub fn new() -> (r: PersonalBlockList)
        ensures
            r.blocked@ == Set::<Seq<char>>::empty(),
    {
        PersonalBlockList { blocked: StringSet::new() }
    }

    /// Block `pubkey`.
    pub fn block(&mut self, pubkey: &str)
        ensures
            final(self).blocked@ == old(self).blocked@.insert(pubkey@),
    {
        self.blocked.insert(pubkey);
    }

    /// Unblock `pubkey`.
    pub fn unblock(&mut self, pubkey: &str)
        ensures
            final(self).blocked@ == old(self).blocked@.remove(pubkey@),
    {
        self.blocked.remove(pubkey);
    }

    /// Whether `pubkey` is blocked.
    pub fn is_blocked(&self, pubkey: &str) -> (r: bool)
        ensures
            r == self.blocked@.contains(pubkey@),
    {
        self.blocked.contains(pubkey)
    }
}

} // verus!
