use ed25519_dalek::SigningKey;
use sisi::gossip::message::{GossipMessage, MessageKind};
use sisi::gossip::store::MessageStore;
use sisi::names::claim::NameClaim;
use sisi::names::gossip_handler::{
    claim_topic, deliver_message, handle_name_gossip_message, name_claim_message, name_release_message,
    release_topic, NameGossipError,
};
use sisi::names::store::NameStore;
use sisi::signing::VerifyError;

fn random_seed() -> [u8; 32] {
    let mut seed = [0u8; 32];
    getrandom::fill(&mut seed).unwrap();
    seed
}

fn pubkey_hex(seed: &[u8; 32]) -> String {
    hex::encode(SigningKey::from_bytes(seed).verifying_key().to_bytes())
}

fn gossip(seed: &[u8; 32], kind: MessageKind, content: &str) -> GossipMessage {
    GossipMessage::new(seed, "forum", kind, content, None).unwrap()
}

#[test]
fn claim_from_its_owner_is_stored() {
    let seed = random_seed();
    let claim = NameClaim::new(&seed, "chiko@forum").unwrap();
    let msg = gossip(&seed, MessageKind::NameClaim, "{}");
    let mut store = NameStore::new();
    assert_eq!(handle_name_gossip_message(&mut store, &msg, Some(&claim)), Ok(true));
    assert_eq!(store.resolve("chiko@forum"), Some(pubkey_hex(&seed)));
}

#[test]
fn claim_relayed_by_another_peer_is_dropped() {
    let owner = random_seed();
    let relayer = random_seed();
    let claim = NameClaim::new(&owner, "chiko@forum").unwrap();
    let msg = gossip(&relayer, MessageKind::NameClaim, "{}");
    let mut store = NameStore::new();
    assert_eq!(handle_name_gossip_message(&mut store, &msg, Some(&claim)), Ok(true));
    assert_eq!(store.count(), 0);
}

#[test]
fn malformed_claim_is_an_error() {
    let seed = random_seed();
    let msg = gossip(&seed, MessageKind::NameClaim, "not json");
    let mut store = NameStore::new();
    assert_eq!(handle_name_gossip_message(&mut store, &msg, None), Err(NameGossipError::MalformedClaim));
    assert_eq!(store.count(), 0);
}

#[test]
fn forged_claim_is_an_error() {
    let seed = random_seed();
    let mut claim = NameClaim::new(&seed, "chiko@forum").unwrap();
    claim.sequence = 7;
    let msg = gossip(&seed, MessageKind::NameClaim, "{}");
    let mut store = NameStore::new();
    assert_eq!(
        handle_name_gossip_message(&mut store, &msg, Some(&claim)),
        Err(NameGossipError::Verify(VerifyError::BadSignature))
    );
    assert_eq!(store.count(), 0);
}

#[test]
fn release_by_owner_removes_the_name_and_by_others_does_not() {
    let owner = random_seed();
    let other = random_seed();
    let claim = NameClaim::new(&owner, "chiko@forum").unwrap();
    let mut store = NameStore::new();
    handle_name_gossip_message(&mut store, &gossip(&owner, MessageKind::NameClaim, "{}"), Some(&claim)).unwrap();

    let foreign = gossip(&other, MessageKind::NameRelease, "chiko@forum");
    assert_eq!(handle_name_gossip_message(&mut store, &foreign, None), Ok(true));
    assert!(store.get("chiko@forum").is_some());

    let release = gossip(&owner, MessageKind::NameRelease, "  chiko@forum\n");
    assert_eq!(handle_name_gossip_message(&mut store, &release, None), Ok(true));
    assert!(store.get("chiko@forum").is_none());
}

#[test]
fn other_kinds_are_not_name_messages() {
    let seed = random_seed();
    let mut store = NameStore::new();
    let msg = gossip(&seed, MessageKind::Post, "hello");
    assert_eq!(handle_name_gossip_message(&mut store, &msg, None), Ok(false));
}

#[test]
fn delivered_name_messages_are_not_kept_as_posts() {
    let seed = random_seed();
    let claim = NameClaim::new(&seed, "chiko@forum").unwrap();
    let mut names = NameStore::new();
    let mut messages = MessageStore::new();
    let claim_msg = gossip(&seed, MessageKind::NameClaim, "{}");
    assert!(deliver_message(&mut names, &mut messages, &claim_msg, Some(&claim)));
    assert_eq!(messages.message_count("forum"), 0);
    let post = gossip(&seed, MessageKind::Post, "hello");
    assert!(!deliver_message(&mut names, &mut messages, &post, None));
    assert_eq!(messages.message_count("forum"), 1);
    let broken = gossip(&seed, MessageKind::NameClaim, "garbage");
    assert!(!deliver_message(&mut names, &mut messages, &broken, None));
    assert_eq!(messages.message_count("forum"), 2);
}

#[test]
fn claims_and_releases_go_to_the_scope_topic_or_names() {
    let seed = random_seed();
    let scoped = NameClaim::new(&seed, "chiko@forum").unwrap();
    let plain = NameClaim::new(&seed, "chiko").unwrap();
    assert_eq!(claim_topic(&scoped), "forum");
    assert_eq!(claim_topic(&plain), "names");
    assert_eq!(release_topic("chiko@blog"), "blog");
    assert_eq!(release_topic("chiko"), "names");
}

#[test]
fn announcement_messages_are_signed_on_their_topics() {
    let seed = random_seed();
    let claim = NameClaim::new(&seed, "chiko@forum").unwrap();
    let msg = name_claim_message(&seed, &claim, "{\"name\":\"chiko@forum\"}").unwrap();
    assert_eq!(msg.topic, "forum");
    assert_eq!(msg.kind, MessageKind::NameClaim);
    assert_eq!(msg.content, "{\"name\":\"chiko@forum\"}");
    assert!(msg.verify().is_ok());
    let rel = name_release_message(&seed, "chiko").unwrap();
    assert_eq!(rel.topic, "names");
    assert_eq!(rel.kind, MessageKind::NameRelease);
    assert_eq!(rel.content, "chiko");
    assert!(rel.verify().is_ok());
}

fn invalid_point() -> [u8; 32] {
    for b in 0u8..=255 {
        let mut bytes = [0u8; 32];
        bytes[0] = b;
        bytes[1] = 7;
        if ed25519_dalek::VerifyingKey::from_bytes(&bytes).is_err() {
            return bytes;
        }
    }
    panic!("no invalid point found");
}

#[test]
fn claims_with_unusable_keys_are_refused_with_the_reason() {
    let seed = random_seed();
    let mut claim = NameClaim::new(&seed, "chiko").unwrap();
    claim.pubkey = "zz".to_string();
    assert_eq!(claim.verify(), Err(VerifyError::PubkeyNotHex));
    claim.pubkey = "abcd".to_string();
    assert_eq!(claim.verify(), Err(VerifyError::PubkeyLength));
    claim.pubkey = hex::encode(invalid_point());
    assert_eq!(claim.verify(), Err(VerifyError::BadPubkey));
    let mut good = NameClaim::new(&seed, "chiko").unwrap();
    good.signature.truncate(10);
    assert_eq!(good.verify(), Err(VerifyError::SignatureLength));
}
