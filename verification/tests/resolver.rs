use ed25519_dalek::SigningKey;
use sisi::error::SisiError;
use sisi::names::claim::NameClaim;
use sisi::names::store::NameStore;
use sisi::pointer::signed::create_pointer;
use sisi::pointer::store::PointerStore;
use sisi::resolver::{
    is_human_name, is_pubkey_hex, looks_like_name_chars, parse_and_resolve,
    resolve_to_gateway_url, strip_address,
};

fn random_key() -> [u8; 32] {
    let mut seed = [0u8; 32];
    getrandom::fill(&mut seed).unwrap();
    seed
}

#[test]
fn is_human_name_should_detect_scoped_name() {
    assert!(is_human_name("chiko@forum"));
}

#[test]
fn is_human_name_should_detect_unscoped_short_name() {
    assert!(is_human_name("chiko"));
}

#[test]
fn is_human_name_should_reject_pubkey_hex() {
    let pubkey = "a".repeat(64);
    assert!(!is_human_name(&pubkey));
}

#[test]
fn is_human_name_should_reject_bafy_hash() {
    assert!(!is_human_name("bafyreic3n7fa4qx"));
}

#[test]
fn is_human_name_should_reject_long_base32_hash() {
    // Typical iroh-blobs CID: 59 base32 chars starting with bafy
    assert!(!is_human_name(
        "bafkreib4zn5okmvk5lrjvulcgdhu7sfc7yqzxgq6x4xqoqlv4lhyms7m4"
    ));
}

#[test]
fn is_human_name_should_reject_uppercase_string() {
    assert!(!is_human_name("MyBlog"));
}

#[test]
fn is_human_name_should_reject_long_name() {
    // Over 32 chars — shouldn't be treated as a name
    assert!(!is_human_name(
        "this-is-a-very-long-name-that-exceeds-the-limit"
    ));
}

#[test]
fn is_pubkey_hex_should_accept_64_char_hex() {
    let pubkey = "ab".repeat(32); // 64 chars
    assert!(is_pubkey_hex(&pubkey));
}

#[test]
fn is_pubkey_hex_should_reject_short_string() {
    assert!(!is_pubkey_hex("abc123"));
}

#[test]
fn is_pubkey_hex_rejects_upper_case_and_non_hex() {
    assert!(!is_pubkey_hex(&"AB".repeat(32)));
    assert!(!is_pubkey_hex(&"zz".repeat(32)));
    assert!(!is_pubkey_hex(&"ab".repeat(33)));
}

#[test]
fn looks_like_name_chars_edges() {
    assert!(!looks_like_name_chars(""));
    assert!(looks_like_name_chars("a_b-c@d9"));
    assert!(!looks_like_name_chars("a.b"));
}

#[test]
fn strip_address_removes_scheme_whitespace_and_slashes() {
    assert_eq!(strip_address("  sisi://chiko@forum//  "), "chiko@forum");
    assert_eq!(strip_address("sisi://sisi://abc/"), "abc");
    assert_eq!(strip_address("\tbafyabc\n"), "bafyabc");
}

#[test]
fn parse_and_resolve_follows_name_then_pointer() {
    let key = random_key();
    let mut names = NameStore::new();
    let mut pointers = PointerStore::new();
    let claim = NameClaim::new(&key, "chiko@forum").unwrap();
    names.upsert(&claim).unwrap();

    // Known name, no pointer yet.
    match parse_and_resolve(&names, &pointers, "sisi://chiko@forum/") {
        Err(SisiError::ManifestNotFound(m)) => {
            assert_eq!(m, format!("no pointer found for pubkey {}", &claim.pubkey[..8]))
        }
        other => panic!("unexpected {:?}", other),
    }

    let p = create_pointer(&key, "bafysitehash", 1, Some("forum")).unwrap();
    pointers.upsert(p).unwrap();
    assert_eq!(
        parse_and_resolve(&names, &pointers, "chiko@forum").unwrap(),
        "bafysitehash"
    );
    // The pubkey itself resolves through the pointer store.
    assert_eq!(
        parse_and_resolve(&names, &pointers, &claim.pubkey).unwrap(),
        "bafysitehash"
    );
    assert_eq!(
        resolve_to_gateway_url(&names, &pointers, "chiko@forum").unwrap(),
        "http://127.0.0.1:7777/site/bafysitehash/index.html"
    );
}

#[test]
fn parse_and_resolve_unknown_name_and_passthrough() {
    let names = NameStore::new();
    let pointers = PointerStore::new();
    match parse_and_resolve(&names, &pointers, "nobody") {
        Err(SisiError::InvalidAddress(m)) => assert_eq!(
            m,
            "name 'nobody' is not in your local index — subscribe to the relevant topic to discover it"
        ),
        other => panic!("unexpected {:?}", other),
    }
    let pk = hex::encode(SigningKey::from_bytes(&random_key()).verifying_key().to_bytes());
    assert_eq!(parse_and_resolve(&names, &pointers, &pk).unwrap(), pk);
    assert_eq!(
        parse_and_resolve(&names, &pointers, "bafyreic3n7fa4qx").unwrap(),
        "bafyreic3n7fa4qx"
    );
}

#[test]
fn is_human_name_needs_both_sides_of_the_at() {
    assert!(!is_human_name("@forum"));
    assert!(!is_human_name("chiko@"));
    assert!(!is_human_name("@"));
    assert!(is_human_name("a@b"));
    assert!(is_human_name("a@b@c"));
}
