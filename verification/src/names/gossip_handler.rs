//! Name claims and releases that travel over gossip: what an incoming
//! message does to the local name store, and on which topic a claim or a
//! release is announced.

use vstd::prelude::*;

use crate::crypto::{ed25519_public_key, hex_text};
use crate::gossip::message::{message_check, GossipError, GossipMessage, MessageKind};
use crate::gossip::store::{store_insert, MessageStore};
use crate::names::claim::{claim_check, NameClaim, NameClaimView};
use crate::names::store::{lookup, upsert_effect, NameStore};
use crate::names::validate::{parse_scope, scope_of};
use crate::signing::VerifyError;
use crate::text::{str_eq, trim, trim_ws};

verus! {

/// Why an incoming name message could not be processed.
#[derive(Debug, Clone, Copy, PartialEq, Eq)]
pub enum NameGossipError {
    /// A `NameClaim` message whose content is not a claim.
    MalformedClaim,
    /// The carried claim's signature does not verify.
    Verify(VerifyError),
}

/// The topic on which a name is announced: its scope, or `"names"`.
pub open spec fn announce_topic(name: Seq<char>) -> Seq<char> {
    match scope_of(name) {
        Some(s) => s,
        None => "names"@,
    }
}

/// What an incoming message does to the store of name claims: the new
/// store and the outcome, given the claim decoded from the message's
/// content (`None` where the content does not decode as a claim).
pub open spec fn name_gossip_effect(
    store: Map<Seq<char>, NameClaimView>,
    kind: MessageKind,
    author: Seq<char>,
    content: Seq<char>,
    claim: Option<NameClaimView>,
) -> (Map<Seq<char>, NameClaimView>, Result<bool, NameGossipError>) {
    match kind {
        MessageKind::NameClaim => match claim {
            None => (store, Err(NameGossipError::MalformedClaim)),
            Some(c) => if c.pubkey != author {
                (store, Ok(true))
            } else {
                match claim_check(c) {
                    Err(e) => (store, Err(NameGossipError::Verify(e))),
                    Ok(()) => (upsert_effect(store, c), Ok(true)),
                }
            },
        },
        MessageKind::NameRelease => {
            let name = trim_ws(content);
            match lookup(store, name) {
                Some(existing) => if existing.pubkey == author {
                    (store.remove(name), Ok(true))
                } else {
                    (store, Ok(true))
                },
                None => (store, Ok(true)),
            }
        },
        _ => (store, Ok(false)),
    }
}

/// Process an incoming gossip message that may carry a name claim or a
/// name release.
///
/// `claim` is the message's content decoded as a claim (`None` where it
/// does not decode). A claim from a peer other than the message's author is
/// dropped; a release takes effect only when the author owns the name.
/// Returns `Ok(true)` for a name message that was handled, `Ok(false)` for
/// any other kind, which the caller handles normally.
pub fn handle_name_gossip_message(
    store: &mut NameStore,
    msg: &GossipMessage,
    claim: Option<&NameClaim>,
) -> (r: Result<bool, NameGossipError>)
    ensures
        ({
            let eff = name_gossip_effect(
                old(store)@,
                msg@.kind,
                msg@.author,
                msg@.content,
                match claim {
                    Some(c) => Some(c@),
                    None => None,
                },
            );
            final(store)@ == eff.0 && r == eff.1
        }),
{
    match msg.kind {
        MessageKind::NameClaim => {
            let c = match claim {
                None => {
                    return Err(NameGossipError::MalformedClaim);
                },
                Some(c) => c,
            };
            if !str_eq(c.pubkey.as_str(), msg.author.as_str()) {
                return Ok(true);
            }
            match store.upsert(c) {
                Err(e) => Err(NameGossipError::Verify(e)),
                Ok(_) => Ok(true),
            }
        },
        MessageKind::NameRelease => {
            let name = trim(msg.content.as_str());
            match store.get(name) {
                Some(existing) => {
                    if str_eq(existing.pubkey.as_str(), msg.author.as_str()) {
                        store.delete(name);
                    }
                },
                None => {},
            }
            Ok(true)
        },
        _ => Ok(false),
    }
}

/// The topic on which a claim is broadcast: its scope, or `"names"` for an
/// unscoped name.
pub fn claim_topic(claim: &NameClaim) -> (r: &str)
    ensures
        r@ == announce_topic(claim@.name),
{
    match claim.scope() {
        Some(s) => s,
        None => {
            proof {
                reveal_strlit("names");
            }
            "names"
        },
    }
}

/// The topic on which the release of `name` is broadcast: its scope, or
/// `"names"` for an unscoped name.
pub fn release_topic(name: &str) -> (r: &str)
    ensures
        r@ == announce_topic(name@),
{
    match parse_scope(name) {
        Some(s) => s,
        None => {
            proof {
                reveal_strlit("names");
            }
            "names"
        },
    }
}

/// The signed gossip message that announces `claim`, whose encoding is
/// `content`, on the claim's topic.
pub fn name_claim_message(signing_key: &[u8; 32], claim: &NameClaim, content: &str) -> (r: Result<
    GossipMessage,
    GossipError,
>)
    ensures
        r is Ok || r == Err::<GossipMessage, GossipError>(GossipError::ClockBeforeEpoch),
        r matches Ok(m) ==> {
            &&& m@.author == hex_text(ed25519_public_key(signing_key@))
            &&& m@.topic == announce_topic(claim@.name)
            &&& m@.kind == MessageKind::NameClaim
            &&& m@.content == content@
            &&& m@.parent_id is None
            &&& message_check(m@) == Ok::<(), VerifyError>(())
        },
{
    let topic = claim_topic(claim);
    GossipMessage::new(signing_key, topic, MessageKind::NameClaim, content, None)
}

/// The signed gossip message by which the holder of `signing_key` gives up
/// `name`, on the name's topic.
pub fn name_release_message(signing_key: &[u8; 32], name: &str) -> (r: Result<GossipMessage, GossipError>)
    ensures
        r is Ok || r == Err::<GossipMessage, GossipError>(GossipError::ClockBeforeEpoch),
        r matches Ok(m) ==> {
            &&& m@.author == hex_text(ed25519_public_key(signing_key@))
            &&& m@.topic == announce_topic(name@)
            &&& m@.kind == MessageKind::NameRelease
            &&& m@.content == name@
            &&& m@.parent_id is None
            &&& message_check(m@) == Ok::<(), VerifyError>(())
        },
{
    let topic = release_topic(name);
    GossipMessage::new(signing_key, topic, MessageKind::NameRelease, name, None)
}


/// Deliver a message received on a subscribed topic to the local stores: a
/// name message acts on the name store, and every message that is not a
/// handled name message (including one whose handling failed) is kept in
/// the message store. Returns whether it was a handled name message.
pub fn deliver_message(
    names: &mut NameStore,
    messages: &mut MessageStore,
    msg: &GossipMessage,
    claim: Option<&NameClaim>,
) -> (r: bool)
    ensures
        ({
            let eff = name_gossip_effect(
                old(names)@,
                msg@.kind,
                msg@.author,
                msg@.content,
                match claim {
                    Some(c) => Some(c@),
                    None => None,
                },
            );
            &&& final(names)@ == eff.0
            &&& r == (eff.1 == Ok::<bool, NameGossipError>(true))
        }),
        r ==> final(messages)@ == old(messages)@,
        !r ==> final(messages)@ == store_insert(old(messages)@, msg@),
{
    let is_name = match handle_name_gossip_message(names, msg, claim) {
        Ok(b) => b,
        Err(_) => false,
    };
    if !is_name {
        messages.insert(msg);
    }
    is_name
}


/// A name claimed over gossip and then released over gossip by the same
/// peer is no longer known; a release by any other peer leaves it owned.
pub proof fn law_release_undoes_claim(
    m: Map<Seq<char>, NameClaimView>,
    author: Seq<char>,
    other: Seq<char>,
    claim_text: Seq<char>,
    release_text: Seq<char>,
    c: NameClaimView,
)
    requires
        c.pubkey == author,
        other != author,
        claim_check(c) is Ok,
        lookup(upsert_effect(m, c), c.name) == Some(c),
        trim_ws(release_text) == c.name,
    ensures
        ({
            let after_claim = name_gossip_effect(m, MessageKind::NameClaim, author, claim_text, Some(c)).0;
            &&& !name_gossip_effect(after_claim, MessageKind::NameRelease, author, release_text, None).0.dom().contains(
                c.name,
            )
            &&& name_gossip_effect(after_claim, MessageKind::NameRelease, other, release_text, None).0
                == after_claim
        }),
{
}


/// No peer can announce a name claim on behalf of another: a claim carried
/// by a message whose author is not the claim's owner changes nothing.
pub proof fn law_claims_only_count_from_their_owner(
    m: Map<Seq<char>, NameClaimView>,
    author: Seq<char>,
    content: Seq<char>,
    c: NameClaimView,
)
    requires
        c.pubkey != author,
    ensures
        name_gossip_effect(m, MessageKind::NameClaim, author, content, Some(c)) == (m, Ok::<bool, NameGossipError>(true)),
{
}


/// What an incoming message does to the name store, by kind. A message of
/// any kind other than a name claim or a name release is not a name message:
/// the store is untouched and the answer is `Ok(false)`, so that it is
/// delivered as an ordinary message. A claim message without a decodable
/// claim is refused and changes nothing. A release is always handled: it
/// removes the (trimmed) name exactly when the author owns it.
pub proof fn law_name_messages_by_kind(
    m: Map<Seq<char>, NameClaimView>,
    kind: MessageKind,
    author: Seq<char>,
    content: Seq<char>,
    claim: Option<NameClaimView>,
)
    ensures
        kind != MessageKind::NameClaim && kind != MessageKind::NameRelease ==> name_gossip_effect(
            m,
            kind,
            author,
            content,
            claim,
        ) == (m, Ok::<bool, NameGossipError>(false)),
        kind == MessageKind::NameClaim && claim is None ==> name_gossip_effect(m, kind, author, content, claim)
            == (m, Err::<bool, NameGossipError>(NameGossipError::MalformedClaim)),
        kind == MessageKind::NameRelease ==> name_gossip_effect(m, kind, author, content, claim).1 == Ok::<
            bool,
            NameGossipError,
        >(true),
        kind == MessageKind::NameRelease && m.dom().contains(trim_ws(content)) && m[trim_ws(content)].pubkey
            == author ==> !name_gossip_effect(m, kind, author, content, claim).0.dom().contains(trim_ws(content))
            && forall|k: Seq<char>|
            k != trim_ws(content) ==> lookup(name_gossip_effect(m, kind, author, content, claim).0, k) == lookup(
                m,
                k,
            ),
        kind == MessageKind::NameRelease && !(m.dom().contains(trim_ws(content)) && m[trim_ws(content)].pubkey
            == author) ==> name_gossip_effect(m, kind, author, content, claim).0 == m,
{
}

} // verus!
