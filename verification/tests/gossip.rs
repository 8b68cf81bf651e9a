use ed25519_dalek::SigningKey;
use sha2::{Digest, Sha256};
use sisi::gossip::message::{GossipMessage, MessageKind};
use sisi::gossip::moderation::{ModList, PersonalBlockList};
use sisi::gossip::store::{receive_message, MessageStore};
use sisi::gossip::topic::{topic_id, TopicHandle};

fn random_seed() -> [u8; 32] {
    let mut seed = [0u8; 32];
    getrandom::fill(&mut seed).unwrap();
    seed
}

fn pubkey_hex(seed: &[u8; 32]) -> String {
    hex::encode(SigningKey::from_bytes(seed).verifying_key().to_bytes())
}

fn message(id: &str, topic: &str, parent: Option<&str>, created_at: u64) -> GossipMessage {
    GossipMessage {
        id: id.to_string(),
        author: "ab".to_string(),
        topic: topic.to_string(),
        kind: MessageKind::Post,
        content: format!("content of {id}"),
        parent_id: parent.map(|p| p.to_string()),
        created_at,
        signature: vec![],
    }
}

fn ids(v: &[GossipMessage]) -> Vec<String> {
    v.iter().map(|m| m.id.clone()).collect()
}

#[test]
fn new_message_verifies_and_names_its_author() {
    let seed = random_seed();
    let msg = GossipMessage::new(&seed, "general", MessageKind::Post, "hello", None).unwrap();
    assert!(msg.verify().is_ok());
    assert_eq!(msg.author, pubkey_hex(&seed));
    assert_eq!(msg.topic, "general");
    assert_eq!(msg.content, "hello");
    assert_eq!(msg.id.len(), 26);
    assert_eq!(msg.parent_id, None);
}

#[test]
fn reply_keeps_its_parent() {
    let seed = random_seed();
    let msg = GossipMessage::new(&seed, "general", MessageKind::Reply, "re", Some("01PARENT".to_string())).unwrap();
    assert_eq!(msg.parent_id.as_deref(), Some("01PARENT"));
    assert!(msg.verify().is_ok());
}

#[test]
fn tampered_message_fails_verification() {
    let seed = random_seed();
    let mut msg = GossipMessage::new(&seed, "general", MessageKind::Post, "hello", None).unwrap();
    msg.content = "bye".to_string();
    assert!(msg.verify().is_err());
}

#[test]
fn message_payload_has_the_documented_layout() {
    let msg = GossipMessage {
        id: "01ID".to_string(),
        author: "ab".to_string(),
        topic: "general".to_string(),
        kind: MessageKind::ModBlock,
        content: "x".to_string(),
        parent_id: None,
        created_at: 42,
        signature: vec![],
    };
    assert_eq!(msg.canonical_payload(), b"01ID:ab:general:ModBlock:x:42".to_vec());
}

#[test]
fn message_kind_names_match_debug() {
    for k in [
        MessageKind::Post,
        MessageKind::Reply,
        MessageKind::Reaction,
        MessageKind::Delete,
        MessageKind::ModBlock,
        MessageKind::ModUnblock,
        MessageKind::ModPin,
        MessageKind::NameClaim,
        MessageKind::NameRelease,
    ] {
        assert_eq!(k.name(), format!("{:?}", k));
    }
}

#[test]
fn topic_id_is_sha256_of_prefixed_name() {
    let expected: [u8; 32] = Sha256::digest(b"sisi-gossip:general").into();
    assert_eq!(topic_id("general"), expected);
    let handle = TopicHandle::new("general");
    assert_eq!(handle.name, "general");
    assert_eq!(handle.id, expected);
    assert_ne!(topic_id("general"), topic_id("rust-help"));
}

#[test]
fn modlist_block_unblock_and_pin() {
    let seed = random_seed();
    let mut list = ModList::new(&seed, "forum").unwrap();
    assert!(list.verify().is_ok());
    assert_eq!(list.owner_pubkey, pubkey_hex(&seed));
    assert!(!list.is_blocked("spammer"));
    list.block(&seed, "spammer").unwrap();
    assert!(list.is_blocked("spammer"));
    assert!(list.verify().is_ok());
    list.pin(&seed, "01MSG").unwrap();
    assert_eq!(list.pinned, vec!["01MSG".to_string()]);
    list.pin(&seed, "01MSG").unwrap();
    assert_eq!(list.pinned, vec!["01MSG".to_string()]);
    list.unblock(&seed, "spammer").unwrap();
    assert!(!list.is_blocked("spammer"));
    assert!(list.verify().is_ok());
}

#[test]
fn modlist_signed_by_another_key_does_not_verify() {
    let seed = random_seed();
    let mut list = ModList::new(&seed, "forum").unwrap();
    list.owner_pubkey = pubkey_hex(&random_seed());
    assert!(list.verify().is_err());
}

#[test]
fn personal_block_list_blocks_and_unblocks() {
    let mut list = PersonalBlockList::new();
    assert!(!list.is_blocked("troll"));
    list.block("troll");
    list.block("troll");
    assert!(list.is_blocked("troll"));
    assert_eq!(list.blocked.len(), 1);
    list.unblock("troll");
    assert!(!list.is_blocked("troll"));
}

#[test]
fn store_lists_topic_newest_first_with_paging() {
    let mut store = MessageStore::new();
    store.insert(&message("a", "general", None, 10));
    store.insert(&message("c", "general", None, 30));
    store.insert(&message("b", "general", None, 20));
    store.insert(&message("x", "other", None, 15));
    assert_eq!(ids(&store.list_topic("general", 10, 0)), vec!["c", "b", "a"]);
    assert_eq!(ids(&store.list_topic("general", 2, 0)), vec!["c", "b"]);
    assert_eq!(ids(&store.list_topic("general", 2, 2)), vec!["a"]);
    assert_eq!(ids(&store.list_topic("general", 2, 5)), Vec::<String>::new());
    assert_eq!(store.message_count("general"), 3);
    assert_eq!(store.message_count("other"), 1);
}

#[test]
fn store_ignores_a_second_message_with_the_same_id() {
    let mut store = MessageStore::new();
    store.insert(&message("a", "general", None, 10));
    let mut again = message("a", "general", None, 99);
    again.content = "changed".to_string();
    store.insert(&again);
    let listed = store.list_topic("general", 10, 0);
    assert_eq!(listed.len(), 1);
    assert_eq!(listed[0].created_at, 10);
}

#[test]
fn store_lists_replies_oldest_first() {
    let mut store = MessageStore::new();
    store.insert(&message("p", "general", None, 1));
    store.insert(&message("r2", "general", Some("p"), 5));
    store.insert(&message("r1", "general", Some("p"), 3));
    store.insert(&message("q", "general", Some("other"), 4));
    assert_eq!(ids(&store.list_replies("p")), vec!["r1", "r2"]);
}

#[test]
fn store_delete_removes_the_message() {
    let mut store = MessageStore::new();
    store.insert(&message("a", "general", None, 1));
    store.insert(&message("b", "general", None, 2));
    store.delete("a");
    assert_eq!(ids(&store.list_topic("general", 10, 0)), vec!["b"]);
    store.delete("missing");
    assert_eq!(store.message_count("general"), 1);
}

#[test]
fn received_message_is_kept_only_when_signed() {
    let seed = random_seed();
    let mut store = MessageStore::new();
    let good = GossipMessage::new(&seed, "general", MessageKind::Post, "hi", None).unwrap();
    assert!(receive_message(&mut store, &good));
    assert_eq!(store.message_count("general"), 1);
    let mut bad = GossipMessage::new(&seed, "general", MessageKind::Post, "hi", None).unwrap();
    bad.content = "forged".to_string();
    assert!(!receive_message(&mut store, &bad));
    assert_eq!(store.message_count("general"), 1);
}

#[test]
fn message_ids_are_ulids() {
    let seed = random_seed();
    let msg = GossipMessage::new(&seed, "general", MessageKind::Post, "hi", None).unwrap();
    assert_eq!(msg.id.len(), 26);
    assert!(msg.id.chars().all(|c| "0123456789ABCDEFGHJKMNPQRSTVWXYZ".contains(c)));
}
