//! The node: its configuration, and the statistics it reports, read from
//! the transport's metric counters.

use vstd::prelude::*;

use crate::site::NodeStats;
use crate::text::str_eq;

verus! {

/// Where the node finds its relay, its pkarr server and its DNS origin;
/// `None` everywhere means the network's defaults.
#[derive(Debug, Clone)]
pub struct NodeConfig {
    pub relay_url: Option<String>,
    pub pkarr_url: Option<String>,
    pub dns_origin: Option<String>,
}

impl NodeConfig {
    /// A configuration with all three services given.
    pub fn custom(relay_url: &str, pkarr_url: &str, dns_origin: &str) -> (r: NodeConfig)
        ensures
            r.relay_url matches Some(u) && u@ == relay_url@,
            r.pkarr_url matches Some(u) && u@ == pkarr_url@,
            r.dns_origin matches Some(u) && u@ == dns_origin@,
    {
        NodeConfig {
            relay_url: Some(relay_url.to_string()),
            pkarr_url: Some(pkarr_url.to_string()),
            dns_origin: Some(dns_origin.to_string()),
        }
    }
}

impl NodeConfig {
    /// The configuration from the three settings: the custom one when all
    /// three are given, the defaults otherwise.
    pub fn from_settings(relay_url: Option<&str>, pkarr_url: Option<&str>, dns_origin: Option<&str>) -> (r:
        NodeConfig)
        ensures
            match (relay_url, pkarr_url, dns_origin) {
                (Some(a), Some(b), Some(c)) => {
                    &&& r.relay_url matches Some(u) && u@ == a@
                    &&& r.pkarr_url matches Some(u) && u@ == b@
                    &&& r.dns_origin matches Some(u) && u@ == c@
                },
                _ => r.relay_url is None && r.pkarr_url is None && r.dns_origin is None,
            },
    {
        match (relay_url, pkarr_url, dns_origin) {
            (Some(a), Some(b), Some(c)) => NodeConfig::custom(a, b, c),
            _ => NodeConfig::default(),
        }
    }
}

impl Default for NodeConfig {
    fn default() -> (r: NodeConfig)
        ensures
            r.relay_url is None,
            r.pkarr_url is None,
            r.dns_origin is None,
    {
        NodeConfig { relay_url: None, pkarr_url: None, dns_origin: None }
    }
}

/// The process-wide node. Its lifecycle (start, lookup, shutdown) drives
/// the network stack and is run by the application around this library.
pub struct SisiNode;

/// The names and values of the transport's metrics, `group/metric`.
pub open spec fn metric_views(metrics: Seq<(String, u64)>) -> Seq<(Seq<char>, u64)> {
    metrics.map_values(|m: (String, u64)| (m.0@, m.1))
}

/// Counters of bytes sent, one per transport.
pub open spec fn is_sent_metric(n: Seq<char>) -> bool {
    n == "socket/send_ipv4"@ || n == "socket/send_ipv6"@ || n == "socket/send_relay"@
}

/// Counters of bytes received, one per transport.
pub open spec fn is_recv_metric(n: Seq<char>) -> bool {
    n == "socket/recv_data_ipv4"@ || n == "socket/recv_data_ipv6"@ || n == "socket/recv_data_relay"@
}

/// The sum of the values of the metrics whose name `sel` picks.
pub open spec fn metric_total(s: Seq<(Seq<char>, u64)>, sel: spec_fn(Seq<char>) -> bool) -> nat
    decreases s.len(),
{
    if s.len() == 0 {
        0
    } else {
        metric_total(s.drop_last(), sel) + if sel(s.last().0) {
            s.last().1 as nat
        } else {
            0
        }
    }
}

/// The value of the last metric named `name`, or 0 when there is none.
pub open spec fn last_metric(s: Seq<(Seq<char>, u64)>, name: Seq<char>) -> u64
    decreases s.len(),
{
    if s.len() == 0 {
        0
    } else if s.last().0 == name {
        s.last().1
    } else {
        last_metric(s.drop_last(), name)
    }
}

/// `n`, or `u64::MAX` when `n` is larger.
pub open spec fn capped(n: nat) -> u64 {
    if n <= u64::MAX {
        n as u64
    } else {
        u64::MAX
    }
}

/// Bytes sent, bytes received and live connections, as the metrics give
/// them: the byte counters summed over all transports (stopping at
/// `u64::MAX`), and connections opened less connections closed (0 when
/// more were closed).
pub open spec fn metrics_summary(s: Seq<(Seq<char>, u64)>) -> (u64, u64, u64) {
    let opened = last_metric(s, "socket/num_conns_opened"@);
    let closed = last_metric(s, "socket/num_conns_closed"@);
    (
        capped(metric_total(s, |n: Seq<char>| is_sent_metric(n))),
        capped(metric_total(s, |n: Seq<char>| is_recv_metric(n))),
        if opened >= closed {
            (opened - closed) as u64
        } else {
            0
        },
    )
}

/// The metric names that are read are all different.
proof fn lemma_metric_names_distinct()
    ensures
        forall|n: Seq<char>| #[trigger] is_sent_metric(n) ==> !is_recv_metric(n),
        forall|n: Seq<char>|
            #[trigger] is_sent_metric(n) ==> n != "socket/num_conns_opened"@ && n != "socket/num_conns_closed"@,
        forall|n: Seq<char>|
            #[trigger] is_recv_metric(n) ==> n != "socket/num_conns_opened"@ && n != "socket/num_conns_closed"@,
        "socket/num_conns_opened"@ != "socket/num_conns_closed"@,
{
    reveal_strlit("socket/send_ipv4");
    reveal_strlit("socket/send_ipv6");
    reveal_strlit("socket/send_relay");
    reveal_strlit("socket/recv_data_ipv4");
    reveal_strlit("socket/recv_data_ipv6");
    reveal_strlit("socket/recv_data_relay");
    reveal_strlit("socket/num_conns_opened");
    reveal_strlit("socket/num_conns_closed");
    assert("socket/num_conns_opened"@[17] != "socket/num_conns_closed"@[17]);
    assert("socket/send_ipv4"@.len() == 16);
    assert("socket/send_ipv6"@.len() == 16);
    assert("socket/send_relay"@.len() == 17);
    assert("socket/recv_data_ipv4"@.len() == 21);
    assert("socket/recv_data_ipv6"@.len() == 21);
    assert("socket/recv_data_relay"@.len() == 22);
    assert("socket/num_conns_opened"@.len() == 23);
    assert("socket/num_conns_closed"@.len() == 23);
}

/// Summarise the transport's metrics (`group/metric` name and value):
/// bytes sent, bytes received, and the number of live connections.
pub fn read_metrics(metrics: &Vec<(String, u64)>) -> (r: (u64, u64, usize))
    ensures
        r.0 == metrics_summary(metric_views(metrics@)).0,
        r.1 == metrics_summary(metric_views(metrics@)).1,
        r.2 == metrics_summary(metric_views(metrics@)).2 as usize,
{
    let ghost s = metric_views(metrics@);
    let ghost sent_sel = |n: Seq<char>| is_sent_metric(n);
    let ghost recv_sel = |n: Seq<char>| is_recv_metric(n);
    let mut sent: u64 = 0;
    let mut recv: u64 = 0;
    let mut conns_opened: u64 = 0;
    let mut conns_closed: u64 = 0;
    let n = metrics.len();
    let mut i: usize = 0;
    while i < n
        invariant
            n == metrics@.len(),
            s == metric_views(metrics@),
            i <= n,
            sent_sel == (|n: Seq<char>| is_sent_metric(n)),
            recv_sel == (|n: Seq<char>| is_recv_metric(n)),
            sent == capped(metric_total(s.take(i as int), sent_sel)),
            recv == capped(metric_total(s.take(i as int), recv_sel)),
            conns_opened == last_metric(s.take(i as int), "socket/num_conns_opened"@),
            conns_closed == last_metric(s.take(i as int), "socket/num_conns_closed"@),
        decreases n - i,
    {
        proof {
            lemma_metric_names_distinct();
            assert(s.take(i + 1).drop_last() =~= s.take(i as int));
            assert(s.take(i + 1).last() == s[i as int]);
        }
        let name = metrics[i].0.as_str();
        let value = metrics[i].1;
        assert(s[i as int] == (name@, value));
        if str_eq(name, "socket/send_ipv4") || str_eq(name, "socket/send_ipv6") || str_eq(
            name,
            "socket/send_relay",
        ) {
            sent = sent.saturating_add(value);
        } else if str_eq(name, "socket/recv_data_ipv4") || str_eq(name, "socket/recv_data_ipv6")
            || str_eq(name, "socket/recv_data_relay") {
            recv = recv.saturating_add(value);
        } else if str_eq(name, "socket/num_conns_opened") {
            conns_opened = value;
        } else if str_eq(name, "socket/num_conns_closed") {
            conns_closed = value;
        }
        i = i + 1;
    }
    assert(s.take(n as int) =~= s);
    let peer_count = conns_opened.saturating_sub(conns_closed) as usize;
    (sent, recv, peer_count)
}

/// The statistics of a node with id `node_id`, whose transport reports
/// `metrics`, whose home relay is `relay_url` (the node counts as online
/// when it has one), and which hosts `hosted_sites` sites.
pub fn assemble_stats(node_id: String, metrics: &Vec<(String, u64)>, relay_url: Option<String>, hosted_sites: usize) -> (r:
    NodeStats)
    ensures
        r.node_id == node_id,
        r.bytes_sent == metrics_summary(metric_views(metrics@)).0,
        r.bytes_recv == metrics_summary(metric_views(metrics@)).1,
        r.peer_count == metrics_summary(metric_views(metrics@)).2 as usize,
        r.hosted_sites == hosted_sites,
        r.relay_url == relay_url,
        r.is_online == relay_url is Some,
{
    let (bytes_sent, bytes_recv, peer_count) = read_metrics(metrics);
    let is_online = relay_url.is_some();
    NodeStats { node_id, peer_count, bytes_sent, bytes_recv, hosted_sites, relay_url, is_online }
}


/// No metrics give nothing sent, nothing received and no peers.
pub proof fn law_no_metrics_no_traffic()
    ensures
        metrics_summary(Seq::<(Seq<char>, u64)>::empty()) == (0u64, 0u64, 0u64),
{
}

/// One more metric adds its value to the bytes sent exactly when it is one
/// of the three send counters (`socket/send_ipv4`, `socket/send_ipv6`,
/// `socket/send_relay`), and to the bytes received exactly when it is one of
/// the three receive counters (`socket/recv_data_ipv4`,
/// `socket/recv_data_ipv6`, `socket/recv_data_relay`), the totals stopping at
/// `u64::MAX`; any other metric leaves both totals as they were.
pub proof fn law_byte_counters_add_up(s: Seq<(Seq<char>, u64)>, name: Seq<char>, value: u64)
    ensures
        metrics_summary(s.push((name, value))).0 == (if name == "socket/send_ipv4"@ || name
            == "socket/send_ipv6"@ || name == "socket/send_relay"@ {
            if metrics_summary(s).0 + value <= u64::MAX {
                (metrics_summary(s).0 + value) as u64
            } else {
                u64::MAX
            }
        } else {
            metrics_summary(s).0
        }),
        metrics_summary(s.push((name, value))).1 == (if name == "socket/recv_data_ipv4"@ || name
            == "socket/recv_data_ipv6"@ || name == "socket/recv_data_relay"@ {
            if metrics_summary(s).1 + value <= u64::MAX {
                (metrics_summary(s).1 + value) as u64
            } else {
                u64::MAX
            }
        } else {
            metrics_summary(s).1
        }),
{
    let t = s.push((name, value));
    assert(t.drop_last() =~= s);
    assert(t.last() == (name, value));
}

} // verus!
