use ed25519_dalek::SigningKey;
use sisi::pointer::signed::{create_pointer, verify_pointer, SignedPointer};
use sisi::pointer::store::PointerStore;

fn random_key() -> [u8; 32] {
    let mut seed = [0u8; 32];
    getrandom::fill(&mut seed).unwrap();
    seed
}

fn pubkey_hex(seed: &[u8; 32]) -> String {
    hex::encode(SigningKey::from_bytes(seed).verifying_key().to_bytes())
}

#[test]
fn create_pointer_should_produce_valid_signature() {
    let key = random_key();
    let ptr = create_pointer(&key, "bafyreic3n7fa4qx", 1, None).unwrap();
    assert!(verify_pointer(&ptr).is_ok());
}

#[test]
fn create_pointer_with_scope_should_produce_valid_signature() {
    let key = random_key();
    let ptr = create_pointer(&key, "bafyreic3n7fa4qx", 1, Some("forum")).unwrap();
    assert!(verify_pointer(&ptr).is_ok());
    assert_eq!(ptr.scope.as_deref(), Some("forum"));
}

#[test]
fn tampered_hash_should_fail_verification() {
    let key = random_key();
    let mut ptr = create_pointer(&key, "bafyreic3n7fa4qx", 1, None).unwrap();
    ptr.hash = "bafyreic000tampered".to_string();
    assert!(verify_pointer(&ptr).is_err());
}

#[test]
fn different_scopes_produce_different_payloads() {
    let key = random_key();
    // unscoped uses 4-field format, scoped uses 5-field format
    let p1 = create_pointer(&key, "hash1", 1, None).unwrap();
    let p2 = create_pointer(&key, "hash1", 1, Some("forum")).unwrap();
    assert_ne!(p1.canonical_payload(), p2.canonical_payload());
}

#[test]
fn unscoped_pointer_canonical_payload_is_backward_compatible() {
    let key = random_key();
    let ptr = create_pointer(&key, "somehash", 1, None).unwrap();
    let payload = String::from_utf8(ptr.canonical_payload()).unwrap();
    // Must NOT contain a scope segment (backward compat with old signatures)
    assert!(!payload.contains("sisi-pointer:abcd::"));
    assert_eq!(payload.matches(':').count(), 4); // sisi-pointer:pubkey:hash:version:ts
}

#[test]
fn canonical_payload_exact_forms() {
    let mut p = SignedPointer {
        pubkey: "abcd".to_string(),
        scope: None,
        hash: "h".to_string(),
        version: 3,
        updated_at: 42,
        signature: vec![],
    };
    assert_eq!(p.canonical_payload(), b"sisi-pointer:abcd:h:3:42".to_vec());
    p.scope = Some(String::new());
    assert_eq!(p.canonical_payload(), b"sisi-pointer:abcd:h:3:42".to_vec());
    p.scope = Some("forum".to_string());
    assert_eq!(p.canonical_payload(), b"sisi-pointer:abcd:forum:h:3:42".to_vec());
}

#[test]
fn store_keeps_highest_version() {
    let key = random_key();
    let pk = pubkey_hex(&key);
    let mut store = PointerStore::new();
    assert_eq!(store.next_version(&pk), 1);
    let v2 = create_pointer(&key, "hash-v2", 2, None).unwrap();
    assert_eq!(store.upsert(v2), Ok(true));
    assert_eq!(store.next_version(&pk), 3);
    let v1 = create_pointer(&key, "hash-v1", 1, None).unwrap();
    assert_eq!(store.upsert(v1), Ok(false));
    let v2b = create_pointer(&key, "hash-v2b", 2, None).unwrap();
    assert_eq!(store.upsert(v2b), Ok(false));
    assert_eq!(store.get(&pk).unwrap().hash, "hash-v2");
    let v3 = create_pointer(&key, "hash-v3", 3, Some("blog")).unwrap();
    assert_eq!(store.upsert(v3), Ok(true));
    assert_eq!(store.get(&pk).unwrap().hash, "hash-v3");
    assert_eq!(store.last_mine(&pk).len(), 1);
    assert!(store.get_scoped(&pk, Some("blog")).is_some());
    assert!(store.get_scoped(&pk, None).is_none());
    assert_eq!(store.find_by_name("anything", &pk).unwrap().version, 3);
    assert_eq!(store.pointers().len(), 1);
}

#[test]
fn store_refuses_forged_pointer() {
    let key = random_key();
    let mut store = PointerStore::new();
    let mut p = create_pointer(&key, "hash", 1, None).unwrap();
    p.version = 9;
    assert!(store.upsert(p).is_err());
    assert!(store.last_mine(&pubkey_hex(&key)).is_empty());
}

#[test]
fn last_mine_lists_only_the_owners_pointer() {
    let a = random_key();
    let b = random_key();
    let mut store = PointerStore::new();
    store.upsert(create_pointer(&a, "ha", 1, None).unwrap()).unwrap();
    store.upsert(create_pointer(&b, "hb", 2, None).unwrap()).unwrap();
    let mine = store.last_mine(&pubkey_hex(&a));
    assert_eq!(mine.len(), 1);
    assert_eq!(mine[0].hash, "ha");
    assert_eq!(store.all_for_pubkey(&pubkey_hex(&b))[0].hash, "hb");
    assert!(store.last_mine("nobody").is_empty());
}
