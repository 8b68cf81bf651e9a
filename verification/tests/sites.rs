use ed25519_dalek::SigningKey;
use sisi::error::SisiError;
use sisi::gateway::{find_site_file, manifest_file, site_lookup_path};
use sisi::manifest::{canonical_files, sign_manifest, verify_manifest, ManifestBuilder};
use sisi::names::claim::{ClaimError, NameClaim};
use sisi::names::store::NameStore;
use sisi::names::validate::NameError;
use sisi::pointer::signed::create_pointer;
use sisi::pointer::store::PointerStore;
use sisi::publisher::{
    pointer_scope, record_publication, site_path, unsigned_manifest_for, PublishError, PublishResponse,
    PublishedIndex,
};
use sisi::signing::VerifyError;
use sisi::site::{SiteFile, SiteManifest, SiteMeta};

fn random_seed() -> [u8; 32] {
    let mut seed = [0u8; 32];
    getrandom::fill(&mut seed).unwrap();
    seed
}

fn pubkey(seed: &[u8; 32]) -> Vec<u8> {
    SigningKey::from_bytes(seed).verifying_key().to_bytes().to_vec()
}

fn file(path: &str, size: u64) -> SiteFile {
    SiteFile { path: path.to_string(), hash: format!("h{size}"), mime: "text/html".to_string(), size }
}

fn manifest(name: &str, owner: Vec<u8>, files: Vec<SiteFile>) -> SiteManifest {
    SiteManifest {
        name: name.to_string(),
        files,
        owner_pubkey: owner,
        signature: vec![],
        created_at: 5,
        updated_at: 9,
        version: 1,
    }
}

fn paths(v: &[SiteFile]) -> Vec<String> {
    v.iter().map(|f| f.path.clone()).collect()
}

#[test]
fn meta_counts_files_and_sums_sizes() {
    let m = manifest("blog", vec![1; 32], vec![file("/a", 10), file("/b", 32)]);
    let meta = SiteMeta::from_manifest(&m, "hash1");
    assert_eq!(meta.name, "blog");
    assert_eq!(meta.hash, "hash1");
    assert_eq!(meta.file_count, 2);
    assert_eq!(meta.total_size, 42);
    assert_eq!(meta.updated_at, 9);
}

#[test]
fn builder_keeps_one_file_per_path_in_path_order() {
    let b = ManifestBuilder::new("blog", vec![7; 32])
        .add_file(file("/index.html", 1))
        .add_file(file("/about.html", 2))
        .add_file(file("/index.html", 3));
    let m = b.build_unsigned_with_version(4).unwrap();
    assert_eq!(paths(&m.files), vec!["/about.html", "/index.html"]);
    assert_eq!(m.files[1].size, 3);
    assert_eq!(m.version, 4);
    assert_eq!(m.name, "blog");
    assert_eq!(m.owner_pubkey, vec![7; 32]);
    assert!(m.signature.is_empty());
    assert_eq!(m.created_at, m.updated_at);
}

#[test]
fn builder_starts_at_version_one() {
    let m = ManifestBuilder::new("blog", vec![]).build_unsigned().unwrap();
    assert_eq!(m.version, 1);
    assert!(m.files.is_empty());
}

#[test]
fn canonical_files_sorts_and_keeps_the_last_entry_for_a_path() {
    let m = manifest("s", vec![], vec![file("/z", 1), file("/a", 2), file("/m", 3), file("/a", 4)]);
    let c = canonical_files(&m);
    assert_eq!(paths(&c), vec!["/a", "/m", "/z"]);
    assert_eq!(c[0].size, 4);
}

#[test]
fn canonical_files_do_not_depend_on_the_given_order() {
    let a = manifest("s", vec![], vec![file("/x", 1), file("/y", 2), file("/w", 3)]);
    let b = manifest("s", vec![], vec![file("/w", 3), file("/x", 1), file("/y", 2)]);
    assert_eq!(paths(&canonical_files(&a)), paths(&canonical_files(&b)));
}

#[test]
fn signed_manifest_verifies_over_the_same_payload_only() {
    let seed = random_seed();
    let m = manifest("blog", vec![], vec![file("/a", 1)]);
    let payload = b"[[\"/a\",{}]]".to_vec();
    let signed = sign_manifest(m, &seed, &payload);
    assert_eq!(signed.owner_pubkey, pubkey(&seed));
    assert_eq!(signed.signature.len(), 64);
    assert_eq!(verify_manifest(&signed, &payload), Ok(()));
    assert_eq!(verify_manifest(&signed, b"other"), Err(VerifyError::BadSignature));
}

#[test]
fn manifest_with_bad_key_or_signature_length_is_refused() {
    let m = manifest("blog", vec![1, 2, 3], vec![]);
    assert_eq!(verify_manifest(&m, b"x"), Err(VerifyError::PubkeyLength));
    let seed = random_seed();
    let mut signed = sign_manifest(manifest("blog", vec![], vec![]), &seed, b"x");
    signed.signature.pop();
    assert_eq!(verify_manifest(&signed, b"x"), Err(VerifyError::SignatureLength));
}

#[test]
fn register_replaces_the_entry_of_the_same_owner() {
    let mut index = PublishedIndex::new();
    index.register_site("h1", &manifest("one", vec![1; 32], vec![]));
    index.register_site("h2", &manifest("two", vec![2; 32], vec![]));
    index.register_site("h3", &manifest("one-again", vec![1; 32], vec![file("/a", 5)]));
    let sites = index.list_local_sites();
    assert_eq!(sites.len(), 2);
    assert_eq!(sites[0].hash, "h3");
    assert_eq!(sites[0].name, "one-again");
    assert_eq!(sites[0].total_size, 5);
    assert_eq!(sites[1].hash, "h2");
}

#[test]
fn remove_site_drops_the_entry_or_reports_it_missing() {
    let mut index = PublishedIndex::new();
    index.register_site("h1", &manifest("one", vec![1; 32], vec![]));
    index.register_site("h2", &manifest("two", vec![2; 32], vec![]));
    assert!(index.remove_site("h1").is_ok());
    assert_eq!(index.sites.len(), 1);
    assert_eq!(index.sites[0].hash, "h2");
    match index.remove_site("h1") {
        Err(SisiError::ManifestNotFound(h)) => assert_eq!(h, "h1"),
        other => panic!("unexpected: {:?}", other),
    }
    assert_eq!(index.sites.len(), 1);
}

#[test]
fn site_paths_start_with_a_slash_and_use_forward_slashes() {
    assert_eq!(site_path("index.html"), "/index.html");
    assert_eq!(site_path("css\\main.css"), "/css/main.css");
    assert_eq!(site_path("a/b\\c"), "/a/b/c");
    assert_eq!(site_path(""), "/");
}

#[test]
fn pointer_scope_defaults_to_default() {
    assert_eq!(pointer_scope(None), "default");
    assert_eq!(pointer_scope(Some("forum")), "forum");
}

#[test]
fn record_publication_registers_points_and_claims() {
    let seed = random_seed();
    let owner_hex = hex::encode(pubkey(&seed));
    let mut index = PublishedIndex::new();
    let mut pointers = PointerStore::new();
    let mut names = NameStore::new();
    let mut m = manifest("blog", pubkey(&seed), vec![file("/a", 3), file("/b", 4)]);
    m.version = 2;
    let res = record_publication(
        &mut index,
        &mut pointers,
        &mut names,
        &seed,
        "sitehash",
        &m,
        Some("forum"),
        Some("chiko@forum"),
    )
    .unwrap();
    assert_eq!(res.site_hash, "sitehash");
    assert_eq!(res.permanent_address, owner_hex);
    assert_eq!(res.version, 2);
    assert_eq!(res.scope.as_deref(), Some("forum"));
    assert_eq!(res.meta.total_size, 7);
    assert_eq!(res.name_claim.as_ref().unwrap().name, "chiko@forum");
    assert_eq!(index.sites.len(), 1);
    let p = pointers.get(&owner_hex).unwrap();
    assert_eq!(p.hash, "sitehash");
    assert_eq!(p.version, 2);
    assert_eq!(p.scope.as_deref(), Some("forum"));
    assert_eq!(names.resolve("chiko@forum"), Some(owner_hex.clone()));
    assert_eq!(pointers.next_version(&owner_hex), 3);

    let response = PublishResponse::from_result(res);
    assert_eq!(response.hash, "sitehash");
    assert_eq!(response.version, 2);
    assert_eq!(response.claimed_name.as_deref(), Some("chiko@forum"));
}

#[test]
fn record_publication_without_scope_uses_default_pointer_scope() {
    let seed = random_seed();
    let owner_hex = hex::encode(pubkey(&seed));
    let mut index = PublishedIndex::new();
    let mut pointers = PointerStore::new();
    let mut names = NameStore::new();
    let m = manifest("blog", pubkey(&seed), vec![]);
    let res = record_publication(&mut index, &mut pointers, &mut names, &seed, "h", &m, None, None).unwrap();
    assert!(res.scope.is_none());
    assert!(res.name_claim.is_none());
    assert_eq!(pointers.get(&owner_hex).unwrap().scope.as_deref(), Some("default"));
    assert_eq!(names.count(), 0);
}

#[test]
fn record_publication_reports_a_bad_name() {
    let seed = random_seed();
    let mut index = PublishedIndex::new();
    let mut pointers = PointerStore::new();
    let mut names = NameStore::new();
    let m = manifest("blog", pubkey(&seed), vec![]);
    let r = record_publication(&mut index, &mut pointers, &mut names, &seed, "h", &m, None, Some("Bad Name"));
    assert!(matches!(r, Err(PublishError::Claim(ClaimError::InvalidName(NameError::InvalidCharacters(_))))));
    assert_eq!(index.sites.len(), 1);
    assert_eq!(names.count(), 0);
}

#[test]
fn claim_made_by_publication_is_a_normal_claim() {
    let seed = random_seed();
    let claim = NameClaim::new(&seed, "chiko").unwrap();
    assert!(claim.verify().is_ok());
}

#[test]
fn gateway_finds_files_by_path_without_leading_slashes() {
    assert_eq!(site_lookup_path("index.html"), "/index.html");
    assert_eq!(site_lookup_path("///css/a.css"), "/css/a.css");
    assert_eq!(site_lookup_path(""), "/");
    let m = manifest("s", vec![], vec![file("/index.html", 1), file("/css/a.css", 2), file("/index.html", 3)]);
    assert_eq!(find_site_file(&m, "index.html").unwrap().size, 3);
    assert_eq!(find_site_file(&m, "/css/a.css").unwrap().size, 2);
    assert!(find_site_file(&m, "missing.html").is_none());
    assert!(manifest_file(&m, "css/a.css").is_none());
}

#[test]
fn unsigned_manifest_takes_the_next_pointer_version() {
    let seed = random_seed();
    let owner_hex = hex::encode(pubkey(&seed));
    let mut pointers = PointerStore::new();
    let first = unsigned_manifest_for(&pointers, ManifestBuilder::new("blog", pubkey(&seed)), &owner_hex).unwrap();
    assert_eq!(first.version, 1);
    let p = create_pointer(&seed, "h", 4, None).unwrap();
    pointers.upsert(p).unwrap();
    let next = unsigned_manifest_for(
        &pointers,
        ManifestBuilder::new("blog", pubkey(&seed)).add_file(file("/a", 1)),
        &owner_hex,
    )
    .unwrap();
    assert_eq!(next.version, 5);
    assert_eq!(paths(&next.files), vec!["/a"]);
}

#[test]
fn update_by_another_key_is_refused_even_at_the_last_sequence() {
    let owner = random_seed();
    let other = random_seed();
    let mut claim = NameClaim::new(&owner, "chiko").unwrap();
    claim.sequence = u64::MAX;
    assert!(matches!(claim.update(&other), Err(ClaimError::KeyMismatch)));
}
