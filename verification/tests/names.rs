use ed25519_dalek::{Signer, SigningKey};
use sisi::names::claim::{ClaimError, NameClaim};
use sisi::names::store::{NameStore, UpsertResult};
use sisi::names::validate::{parse_scope, validate_name, NameError, NamePart};

fn random_seed() -> [u8; 32] {
    let mut seed = [0u8; 32];
    getrandom::fill(&mut seed).unwrap();
    seed
}

fn resign(claim: &mut NameClaim, seed: &[u8; 32]) {
    let key = SigningKey::from_bytes(seed);
    claim.signature = vec![];
    let sig = key.sign(&claim.canonical_payload());
    claim.signature = sig.to_bytes().to_vec();
}

#[test]
fn validate_name_should_accept_simple_local() {
    assert!(validate_name("chiko").is_ok());
}

#[test]
fn validate_name_should_accept_scoped_name() {
    assert!(validate_name("chiko@forum").is_ok());
}

#[test]
fn validate_name_should_reject_uppercase() {
    assert!(validate_name("Chiko@Forum").is_err());
}

#[test]
fn validate_name_should_reject_double_at() {
    assert!(validate_name("a@b@c").is_err());
}

#[test]
fn validate_name_should_reject_empty_local() {
    assert!(validate_name("@forum").is_err());
}

#[test]
fn validate_name_should_reject_empty_scope() {
    assert!(validate_name("chiko@").is_err());
}

#[test]
fn validate_name_reports_each_rule() {
    assert_eq!(validate_name(""), Err(NameError::Empty));
    let long = "a".repeat(65);
    assert_eq!(validate_name(&long), Err(NameError::TooLong(65)));
    assert!(validate_name(&"a".repeat(64)).is_ok());
    assert_eq!(validate_name("a@b@c"), Err(NameError::MultipleAt));
    assert_eq!(validate_name("@forum"), Err(NameError::EmptyPart(NamePart::Local)));
    assert_eq!(validate_name("chiko@"), Err(NameError::EmptyPart(NamePart::Scope)));
    assert_eq!(validate_name("Chiko@forum"), Err(NameError::InvalidCharacters(NamePart::Local)));
    assert_eq!(validate_name("chiko@Forum"), Err(NameError::InvalidCharacters(NamePart::Scope)));
    assert!(validate_name("a_b-9@c-d_0").is_ok());
    // Length counts bytes: 33 two-byte characters are 66 bytes.
    assert_eq!(validate_name(&"é".repeat(33)), Err(NameError::TooLong(66)));
}

#[test]
fn parse_scope_takes_text_after_first_at() {
    assert_eq!(parse_scope("chiko@forum"), Some("forum"));
    assert_eq!(parse_scope("chiko"), None);
    assert_eq!(parse_scope("a@b@c"), Some("b@c"));
}

#[test]
fn claim_new_should_produce_valid_signature() {
    let key = random_seed();
    let claim = NameClaim::new(&key, "chiko@forum").unwrap();
    assert!(claim.verify().is_ok());
}

#[test]
fn claim_new_uses_hex_pubkey_and_sequence_one() {
    let key = random_seed();
    let claim = NameClaim::new(&key, "chiko").unwrap();
    let expected = hex::encode(SigningKey::from_bytes(&key).verifying_key().to_bytes());
    assert_eq!(claim.pubkey, expected);
    assert_eq!(claim.sequence, 1);
    assert_eq!(claim.signature.len(), 64);
}

#[test]
fn claim_new_rejects_invalid_name() {
    let key = random_seed();
    assert!(NameClaim::new(&key, "Bad Name").is_err());
}

#[test]
fn claim_update_should_increment_sequence() {
    let key = random_seed();
    let claim = NameClaim::new(&key, "chiko").unwrap();
    let updated = claim.clone().update(&key).unwrap();
    assert_eq!(updated.sequence, claim.sequence + 1);
    assert!(updated.verify().is_ok());
}

#[test]
fn claim_update_with_other_key_fails() {
    let claim = NameClaim::new(&random_seed(), "chiko").unwrap();
    assert!(claim.update(&random_seed()).is_err());
}

#[test]
fn canonical_payload_has_documented_format() {
    let claim = NameClaim {
        name: "chiko@forum".to_string(),
        pubkey: "ab01".to_string(),
        sequence: 7,
        claimed_at: 1234567890,
        signature: vec![1, 2, 3],
    };
    assert_eq!(claim.canonical_payload(), b"sisi-name:chiko@forum:ab01:7:1234567890".to_vec());
}

#[test]
fn tampered_claim_fails_verification() {
    let key = random_seed();
    let mut claim = NameClaim::new(&key, "chiko").unwrap();
    claim.sequence = 5;
    assert!(claim.verify().is_err());
    let mut claim2 = NameClaim::new(&key, "chiko").unwrap();
    claim2.pubkey = "zz".to_string();
    assert!(claim2.verify().is_err());
}

#[test]
fn beats_should_prefer_earlier_timestamp() {
    let key_a = random_seed();
    let key_b = random_seed();

    let mut old_claim = NameClaim::new(&key_a, "bob@dev").unwrap();
    old_claim.claimed_at = 1000;
    resign(&mut old_claim, &key_a);

    let mut new_claim = NameClaim::new(&key_b, "bob@dev").unwrap();
    new_claim.claimed_at = 2000;
    resign(&mut new_claim, &key_b);

    assert!(old_claim.beats(&new_claim));
    assert!(!new_claim.beats(&old_claim));
}

#[test]
fn beats_breaks_ties_by_lower_pubkey() {
    let a = NameClaim {
        name: "x".to_string(),
        pubkey: "aa".to_string(),
        sequence: 1,
        claimed_at: 5,
        signature: vec![],
    };
    let mut b = a.clone();
    b.pubkey = "ab".to_string();
    assert!(a.beats(&b));
    assert!(!b.beats(&a));
    assert!(!a.beats(&a));
}

#[test]
fn scope_and_local_helpers_work() {
    let key = random_seed();
    let claim = NameClaim::new(&key, "chiko@forum").unwrap();
    assert_eq!(claim.local(), "chiko");
    assert_eq!(claim.scope(), Some("forum"));

    let claim2 = NameClaim::new(&key, "chiko").unwrap();
    assert_eq!(claim2.local(), "chiko");
    assert_eq!(claim2.scope(), None);
}

#[test]
fn upsert_should_insert_new_claim() {
    let mut store = NameStore::new();
    let key = random_seed();
    let claim = NameClaim::new(&key, "alice@dev").unwrap();
    assert_eq!(store.upsert(&claim).unwrap(), UpsertResult::Inserted);
}

#[test]
fn upsert_should_update_same_owner_with_higher_sequence() {
    let mut store = NameStore::new();
    let key = random_seed();
    let claim = NameClaim::new(&key, "alice@dev").unwrap();
    store.upsert(&claim).unwrap();

    let updated = claim.update(&key).unwrap();
    assert_eq!(store.upsert(&updated).unwrap(), UpsertResult::Updated);
}

#[test]
fn upsert_should_return_stale_for_same_sequence() {
    let mut store = NameStore::new();
    let key = random_seed();
    let claim = NameClaim::new(&key, "alice@dev").unwrap();
    store.upsert(&claim).unwrap();

    // Send exact same claim again.
    assert_eq!(store.upsert(&claim).unwrap(), UpsertResult::Stale);
}

#[test]
fn upsert_should_reject_later_claim_by_different_pubkey() {
    let mut store = NameStore::new();

    let key_a = random_seed();
    let mut claim_a = NameClaim::new(&key_a, "bob@dev").unwrap();
    claim_a.claimed_at = 1000;
    resign(&mut claim_a, &key_a);
    store.upsert(&claim_a).unwrap();

    let key_b = random_seed();
    let mut claim_b = NameClaim::new(&key_b, "bob@dev").unwrap();
    claim_b.claimed_at = 2000;
    resign(&mut claim_b, &key_b);

    let result = store.upsert(&claim_b).unwrap();
    assert!(matches!(result, UpsertResult::Rejected { .. }));
    assert_eq!(result, UpsertResult::Rejected { owner: claim_a.pubkey.clone() });
}

#[test]
fn upsert_transfers_name_to_earlier_claim() {
    let mut store = NameStore::new();
    let key_a = random_seed();
    let key_b = random_seed();
    let mut late = NameClaim::new(&key_a, "bob@dev").unwrap();
    late.claimed_at = 2000;
    resign(&mut late, &key_a);
    let mut early = NameClaim::new(&key_b, "bob@dev").unwrap();
    early.claimed_at = 1000;
    resign(&mut early, &key_b);
    assert_eq!(store.upsert(&late).unwrap(), UpsertResult::Inserted);
    assert_eq!(store.upsert(&early).unwrap(), UpsertResult::Updated);
    assert_eq!(store.resolve("bob@dev"), Some(early.pubkey.clone()));
}

#[test]
fn upsert_refuses_bad_signature_and_keeps_store() {
    let mut store = NameStore::new();
    let key = random_seed();
    let mut claim = NameClaim::new(&key, "carol").unwrap();
    claim.sequence = 9;
    assert!(store.upsert(&claim).is_err());
    assert_eq!(store.count(), 0);
}

#[test]
fn resolve_should_return_pubkey_after_insert() {
    let mut store = NameStore::new();
    let key = random_seed();
    let claim = NameClaim::new(&key, "carol@blog").unwrap();
    store.upsert(&claim).unwrap();

    let pubkey = store.resolve("carol@blog");
    assert_eq!(pubkey, Some(claim.pubkey));
}

#[test]
fn resolve_should_return_none_for_unknown_name() {
    let store = NameStore::new();
    assert_eq!(store.resolve("nobody@anywhere"), None);
}

#[test]
fn get_and_delete_round_trip() {
    let mut store = NameStore::new();
    let key = random_seed();
    let claim = NameClaim::new(&key, "dave").unwrap();
    store.upsert(&claim).unwrap();
    assert_eq!(store.get("dave").unwrap().sequence, 1);
    store.delete("dave");
    assert!(store.get("dave").is_none());
    assert_eq!(store.count(), 0);
}

#[test]
fn claims_in_scope_should_filter_correctly() {
    let mut store = NameStore::new();
    let key = random_seed();

    store.upsert(&NameClaim::new(&key, "a@forum").unwrap()).unwrap();
    store.upsert(&NameClaim::new(&key, "b@forum").unwrap()).unwrap();
    store.upsert(&NameClaim::new(&key, "c@blog").unwrap()).unwrap();

    let forum_claims = store.claims_in_scope("forum");
    assert_eq!(forum_claims.len(), 2);
    assert!(forum_claims.iter().all(|c| c.scope() == Some("forum")));
}

#[test]
fn names_for_pubkey_should_return_all_owned_names() {
    let mut store = NameStore::new();
    let key = random_seed();

    store.upsert(&NameClaim::new(&key, "x@forum").unwrap()).unwrap();
    store.upsert(&NameClaim::new(&key, "x@blog").unwrap()).unwrap();
    store.upsert(&NameClaim::new(&key, "x").unwrap()).unwrap();

    let pubkey = hex::encode(SigningKey::from_bytes(&key).verifying_key().to_bytes());
    let names = store.names_for_pubkey(&pubkey);
    assert_eq!(names.len(), 3);
}

#[test]
fn all_lists_claims_in_name_order() {
    let mut store = NameStore::new();
    let key = random_seed();
    for n in ["zeta", "alpha", "mid@x", "beta"] {
        store.upsert(&NameClaim::new(&key, n).unwrap()).unwrap();
    }
    let names: Vec<String> = store.all().into_iter().map(|c| c.name).collect();
    assert_eq!(names, vec!["alpha", "beta", "mid@x", "zeta"]);
    assert_eq!(store.count(), 4);
}

#[test]
fn claims_in_scope_uses_the_text_after_the_first_at() {
    let seed = random_seed();
    let mut store = NameStore::new();
    store.upsert(&NameClaim::new(&seed, "a@forum").unwrap()).unwrap();
    let mut odd = NameClaim::new(&seed, "x").unwrap();
    odd.name = "x@y@forum".to_string();
    resign(&mut odd, &seed);
    assert!(odd.verify().is_ok());
    store.upsert(&odd).unwrap();
    let forum = store.claims_in_scope("forum");
    assert_eq!(forum.len(), 1);
    assert_eq!(forum[0].name, "a@forum");
    assert_eq!(store.claims_in_scope("y@forum").len(), 1);
}

#[test]
fn try_update_refuses_only_an_exhausted_sequence_of_the_owner() {
    let owner = random_seed();
    let other = random_seed();
    let claim = NameClaim::new(&owner, "chiko").unwrap();
    let next = claim.clone().try_update(&owner).unwrap().unwrap();
    assert_eq!(next.sequence, 2);
    assert!(next.verify().is_ok());
    let mut last = claim.clone();
    last.sequence = u64::MAX;
    resign(&mut last, &owner);
    assert!(last.clone().try_update(&owner).is_none());
    assert!(matches!(last.try_update(&other), Some(Err(ClaimError::KeyMismatch))));
}
