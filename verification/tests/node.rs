use sisi::daemon::{dispatch, DaemonAction, DaemonCommand, DaemonResponse, PinSet};
use sisi::identity::{identity_seed, public_address, IdentityError};
use sisi::index::{merge_record, record_from_manifest, record_from_row, SiteManifestJson, SiteRecord};
use sisi::node::{assemble_stats, read_metrics, NodeConfig};

fn metrics(pairs: &[(&str, u64)]) -> Vec<(String, u64)> {
    pairs.iter().map(|(n, v)| (n.to_string(), *v)).collect()
}

#[test]
fn custom_config_sets_all_three_services() {
    let c = NodeConfig::custom("https://relay", "https://pkarr", "dns.example");
    assert_eq!(c.relay_url.as_deref(), Some("https://relay"));
    assert_eq!(c.pkarr_url.as_deref(), Some("https://pkarr"));
    assert_eq!(c.dns_origin.as_deref(), Some("dns.example"));
    let d = NodeConfig::default();
    assert!(d.relay_url.is_none() && d.pkarr_url.is_none() && d.dns_origin.is_none());
}

#[test]
fn settings_give_a_custom_config_only_when_all_are_present() {
    let c = NodeConfig::from_settings(Some("r"), Some("p"), Some("d"));
    assert_eq!(c.relay_url.as_deref(), Some("r"));
    let d = NodeConfig::from_settings(Some("r"), None, Some("d"));
    assert!(d.relay_url.is_none() && d.pkarr_url.is_none() && d.dns_origin.is_none());
}

#[test]
fn metrics_sum_bytes_over_transports() {
    let m = metrics(&[
        ("socket/send_ipv4", 10),
        ("socket/send_ipv6", 5),
        ("socket/send_relay", 1),
        ("socket/recv_data_ipv4", 7),
        ("socket/recv_data_relay", 3),
        ("socket/num_conns_opened", 9),
        ("socket/num_conns_closed", 4),
        ("net/other", 1000),
    ]);
    assert_eq!(read_metrics(&m), (16, 10, 5));
}

#[test]
fn metrics_saturate_and_never_count_negative_peers() {
    let m = metrics(&[
        ("socket/send_ipv4", u64::MAX - 1),
        ("socket/send_relay", 5),
        ("socket/num_conns_opened", 2),
        ("socket/num_conns_closed", 3),
    ]);
    assert_eq!(read_metrics(&m), (u64::MAX, 0, 0));
    assert_eq!(read_metrics(&Vec::new()), (0, 0, 0));
}

#[test]
fn later_connection_counters_replace_earlier_ones() {
    let m = metrics(&[("socket/num_conns_opened", 2), ("socket/num_conns_opened", 8)]);
    assert_eq!(read_metrics(&m), (0, 0, 8));
}

#[test]
fn stats_are_online_with_a_relay() {
    let m = metrics(&[("socket/send_ipv4", 3)]);
    let s = assemble_stats("node1".to_string(), &m, Some("https://relay".to_string()), 2);
    assert_eq!(s.node_id, "node1");
    assert_eq!(s.bytes_sent, 3);
    assert_eq!(s.hosted_sites, 2);
    assert!(s.is_online);
    let off = assemble_stats("node1".to_string(), &m, None, 0);
    assert!(!off.is_online);
}

fn manifest_json(name: Option<&str>) -> SiteManifestJson {
    SiteManifestJson {
        sisifo: Some("1".to_string()),
        name: name.map(|s| s.to_string()),
        short_name: Some("B".to_string()),
        description: Some("a blog".to_string()),
        keywords: None,
        icon: Some("/icon.png".to_string()),
        accent_color: None,
        author_pubkey: None,
        lang: Some("en".to_string()),
        category: Some("blog".to_string()),
    }
}

#[test]
fn manifest_with_a_name_becomes_a_record() {
    let r = record_from_manifest("abc", "http://127.0.0.1:7777", manifest_json(Some("Blog")), 77).unwrap();
    assert_eq!(r.hash, "abc");
    assert_eq!(r.name, "Blog");
    assert_eq!(r.icon_url.as_deref(), Some("http://127.0.0.1:7777/site/abc/icon.png"));
    assert!(r.keywords.is_empty());
    assert_eq!(r.indexed_at, 77);
    assert_eq!(r.visit_count, 1);
    assert_eq!(r.lang.as_deref(), Some("en"));
}

#[test]
fn manifest_without_a_name_is_not_indexed() {
    assert!(record_from_manifest("abc", "http://g", manifest_json(None), 1).is_none());
    assert!(record_from_manifest("abc", "http://g", manifest_json(Some("")), 1).is_none());
}

fn record(name: &str, visits: u64) -> SiteRecord {
    SiteRecord {
        hash: "abc".to_string(),
        name: name.to_string(),
        short_name: Some("short".to_string()),
        description: None,
        keywords: vec!["k".to_string()],
        icon_url: None,
        author_pubkey: Some("pk".to_string()),
        category: Some("cat".to_string()),
        lang: None,
        accent_color: None,
        indexed_at: 1,
        visit_count: visits,
    }
}

#[test]
fn reindexing_updates_some_fields_and_counts_a_visit() {
    let old = record("Old", 4);
    let mut new = record("New", 1);
    new.short_name = Some("ignored".to_string());
    new.indexed_at = 9;
    new.keywords = vec![];
    let merged = merge_record(Some(&old), &new);
    assert_eq!(merged.name, "New");
    assert_eq!(merged.short_name.as_deref(), Some("short"));
    assert!(merged.keywords.is_empty());
    assert_eq!(merged.indexed_at, 9);
    assert_eq!(merged.visit_count, 5);
    let first = merge_record(None, &new);
    assert_eq!(first.visit_count, 1);
    assert_eq!(first.short_name.as_deref(), Some("ignored"));
}

#[test]
fn daemon_pins_lists_and_unpins() {
    let mut pins = PinSet::new();
    match dispatch(&mut pins, DaemonCommand::Pin { hash: "b".to_string() }) {
        DaemonAction::PersistThenReply(DaemonResponse::Pinned { hash }) => assert_eq!(hash, "b"),
        other => panic!("unexpected: {:?}", other),
    }
    dispatch(&mut pins, DaemonCommand::Pin { hash: "a".to_string() });
    dispatch(&mut pins, DaemonCommand::Pin { hash: "a".to_string() });
    match dispatch(&mut pins, DaemonCommand::List) {
        DaemonAction::Reply(DaemonResponse::List { hashes }) => assert_eq!(hashes, vec!["a", "b"]),
        other => panic!("unexpected: {:?}", other),
    }
    match dispatch(&mut pins, DaemonCommand::Status) {
        DaemonAction::ReportStatus { pinned } => assert_eq!(pinned, 2),
        other => panic!("unexpected: {:?}", other),
    }
    match dispatch(&mut pins, DaemonCommand::Unpin { hash: "a".to_string() }) {
        DaemonAction::PersistThenReply(DaemonResponse::Unpinned { hash }) => assert_eq!(hash, "a"),
        other => panic!("unexpected: {:?}", other),
    }
    assert!(!pins.contains("a"));
    assert!(pins.contains("b"));
    assert!(matches!(dispatch(&mut pins, DaemonCommand::Shutdown), DaemonAction::Shutdown));
}

#[test]
fn status_response_reports_no_peers_yet() {
    match DaemonResponse::status(3, "id".to_string()) {
        DaemonResponse::Status { peer_count, pinned, node_id } => {
            assert_eq!((peer_count, pinned, node_id.as_str()), (0, 3, "id"));
        }
        other => panic!("unexpected: {:?}", other),
    }
}

#[test]
fn identity_uses_a_32_byte_key_file_or_makes_a_fresh_seed() {
    let stored = [5u8; 32];
    assert_eq!(identity_seed(Some(&stored)), Ok((stored, false)));
    assert_eq!(identity_seed(Some(&[1u8; 31])), Err(IdentityError::CorruptKeyFile));
    let (seed, fresh) = identity_seed(None).unwrap();
    assert!(fresh);
    let (seed2, _) = identity_seed(None).unwrap();
    assert_ne!(seed, seed2);
}

#[test]
fn public_address_is_the_hex_of_the_public_key() {
    let seed = [9u8; 32];
    let expected = hex::encode(ed25519_dalek::SigningKey::from_bytes(&seed).verifying_key().to_bytes());
    assert_eq!(public_address(&seed), expected);
    assert_eq!(expected.len(), 64);
}

#[test]
fn rows_become_records_with_decoded_keywords() {
    let r = record_from_row(
        "h".to_string(),
        "Blog".to_string(),
        None,
        Some("d".to_string()),
        "[\"a\",\"b\"]",
        None,
        None,
        Some("cat".to_string()),
        None,
        None,
        12,
        3,
    );
    assert_eq!(r.keywords, vec!["a".to_string(), "b".to_string()]);
    assert_eq!((r.indexed_at, r.visit_count), (12, 3));
    assert_eq!(r.category.as_deref(), Some("cat"));
    let bad = record_from_row(
        "h".to_string(), "B".to_string(), None, None, "not json", None, None, None, None, None, 0, 0,
    );
    assert!(bad.keywords.is_empty());
}
