use rieko::domain::{
    Channel, ChannelId, ChannelSnapshot, ChannelStatus, FeePolicy, ForwardEvent,
    LiquidityProfile, Node, NodeId, NodeStatus, PaymentEvent,
};
use rieko::graph::{GraphError, GraphStore, GraphView, InMemoryGraph};
use rieko::history::{HistoryView, InMemoryHistory};
use rieko::path::{channel_cost, find_path, Path};
use rieko::ratio::Ratio;
use rieko::time::Timestamp;

fn now() -> Timestamp {
    let t = chrono::Utc::now();
    Timestamp { secs: t.timestamp(), nanos: t.timestamp_subsec_nanos() }
}

fn ratio(r: f64) -> Ratio {
    Ratio { bits: r.to_bits() }
}

fn snap(id: &str, r: f64) -> ChannelSnapshot {
    let capacity = 1_000_000u64;
    let local = (r * capacity as f64) as u64;
    ChannelSnapshot {
        node_id: Some("local-node".into()),
        network: None,
        state_digest: None,
        channel_id: id.to_string(),
        local_ratio: ratio(r),
        local_balance_msat: local,
        remote_balance_msat: capacity - local,
        capacity_msat: capacity,
        status: ChannelStatus::Active,
        ts: now(),
        spendable_outbound_msat: 0,
        spendable_inbound_msat: 0,
    }
}

fn ch(id: &str, peer: &str, capacity: u64, local: u64, base_fee: u64, rate: u64) -> Channel {
    between(id, "alice", peer, capacity, local, base_fee, rate)
}

fn between(
    id: &str,
    node: &str,
    peer: &str,
    capacity: u64,
    local: u64,
    base_fee: u64,
    rate: u64,
) -> Channel {
    Channel {
        id: ChannelId::new(id),
        node: NodeId::new(node),
        peer: NodeId::new(peer),
        channel_point: format!("{id}:0"),
        capacity_msat: capacity,
        fee_policy: FeePolicy {
            base_fee_msat: base_fee,
            fee_rate_ppm: rate,
            min_htlc_msat: 1,
            max_htlc_msat: None,
            cltv_delta: 40,
        },
        status: ChannelStatus::Active,
        liquidity: LiquidityProfile::compute(capacity, local, capacity - local),
        last_seen: now(),
        opening_height: None,
        local_reserve_msat: None,
        remote_reserve_msat: None,
        is_private: false,
        is_initiator: true,
        total_sent_msat: None,
        total_received_msat: None,
    }
}

fn channel(id: &str, peer: &str, local: u64, remote: u64) -> Channel {
    let capacity = local + remote;
    Channel {
        id: ChannelId::new(id),
        node: NodeId::new("local-node"),
        peer: NodeId::new(peer),
        capacity_msat: capacity,
        fee_policy: FeePolicy::default(),
        status: ChannelStatus::Active,
        liquidity: LiquidityProfile::compute(capacity, local, remote),
        last_seen: now(),
        opening_height: Some(100),
        channel_point: "tx:0".into(),
        local_reserve_msat: None,
        remote_reserve_msat: None,
        is_private: false,
        is_initiator: true,
        total_sent_msat: None,
        total_received_msat: None,
    }
}

#[test]
fn returns_newest_first_and_respects_limit() {
    let mut h = InMemoryHistory::new(100);
    for r in [0.5, 0.4, 0.3] {
        h.push(snap("c1", r));
    }
    let got = h.recent_channel_snapshots(&ChannelId::new("c1"), 2);
    assert_eq!(got.len(), 2);
    assert_eq!(got[0].local_ratio, ratio(0.3));
    assert_eq!(got[1].local_ratio, ratio(0.4));
}

#[test]
fn bounds_per_channel() {
    let mut h = InMemoryHistory::new(3);
    for r in [0.9, 0.8, 0.7, 0.6, 0.5] {
        h.push(snap("c1", r));
    }
    let got = h.recent_channel_snapshots(&ChannelId::new("c1"), 10);
    assert_eq!(got.len(), 3);
    assert_eq!(got[got.len() - 1].local_ratio, ratio(0.7));
}

#[test]
fn push_channels_records_all() {
    let mut h = InMemoryHistory::new(10);
    let mut one = channel("c1", "p", 40_000, 60_000);
    one.opening_height = None;
    let channels: Vec<Channel> = vec![one];
    h.push_channels(&channels, now());
    assert_eq!(h.len(), 1);
    assert!(!h.is_empty());
}

#[test]
fn channels_of_a_history_do_not_mix() {
    let mut h = InMemoryHistory::new(2);
    assert!(h.is_empty());
    h.push(snap("c1", 0.5));
    h.push(snap("c2", 0.4));
    h.push(snap("c2", 0.3));
    h.push(snap("c2", 0.2));
    assert_eq!(h.len(), 3);
    assert_eq!(h.recent_channel_snapshots(&ChannelId::new("c1"), 10).len(), 1);
    let got = h.recent_channel_snapshots(&ChannelId::new("c2"), 10);
    assert_eq!(got[0].local_ratio, ratio(0.2));
    assert_eq!(got[1].local_ratio, ratio(0.3));
    assert!(h.recent_channel_snapshots(&ChannelId::new("c3"), 10).is_empty());
}

#[test]
fn direct_channel_path() {
    let alice = NodeId::new("alice");
    let bob = NodeId::new("bob");
    let cs = vec![ch("c1", "bob", 1_000_000, 500_000, 1000, 1)];
    let path = find_path(&alice, &bob, 100_000, &cs).unwrap();
    assert_eq!(path.hops.len(), 1);
    assert_eq!(path.hops[0].channel_id, ChannelId::new("c1"));
}

#[test]
fn two_hop_path() {
    let alice = NodeId::new("alice");
    let carol = NodeId::new("carol");
    let cs = vec![ch("c1", "bob", 1_000_000, 500_000, 1000, 1)];
    assert!(find_path(&alice, &carol, 100_000, &cs).is_none());
}

#[test]
fn self_path_is_zero_cost() {
    let alice = NodeId::new("alice");
    let path = find_path(&alice, &alice, 100_000, &vec![]).unwrap();
    assert!(path.hops.is_empty());
    assert_eq!(path.total_cost_msat, 0);
}

#[test]
fn fee_cost_is_base_plus_rate_portion() {
    let c = ch("c1", "bob", 1_000_000, 500_000, 1000, 500);
    assert_eq!(channel_cost(&c, 100_000), 1050);
    assert_eq!(channel_cost(&c, 1_000_000), 1500);
}

#[test]
fn the_cheapest_of_several_paths_is_found() {
    let cs = vec![
        between("dear", "alice", "carol", 1_000_000, 500_000, 5000, 0),
        between("ab", "alice", "bob", 1_000_000, 500_000, 1000, 0),
        between("bc", "bob", "carol", 1_000_000, 500_000, 1500, 0),
    ];
    let path = find_path(&NodeId::new("alice"), &NodeId::new("carol"), 100_000, &cs).unwrap();
    assert_eq!(path.total_cost_msat, 2500);
    assert_eq!(path.hops.len(), 2);
    assert_eq!(path.hops[0].channel_id, ChannelId::new("ab"));
    assert_eq!(path.hops[0].cost_msat, 1000);
    assert_eq!(path.hops[1].channel_id, ChannelId::new("bc"));
}

#[test]
fn upsert_is_idempotent_and_replaces() {
    let mut g = InMemoryGraph::new();
    g.upsert_channel(channel("c1", "peer1", 40_000, 60_000)).unwrap();
    g.upsert_channel(channel("c1", "peer1", 10_000, 90_000)).unwrap();
    let c = g.channel(&ChannelId::new("c1")).unwrap();
    assert_eq!(c.liquidity.local_balance_msat, 10_000);
    assert_eq!(g.channels().len(), 1);
    assert_eq!(g.channels_for_peer(&NodeId::new("peer1")).len(), 1);
    assert_eq!(g.total_capacity_with_peer(&NodeId::new("peer1")), 100_000);
    assert_eq!(g.channel_count_with_peer(&NodeId::new("peer1")), 1);
}

#[test]
fn upserting_channel_creates_peer_node() {
    let mut g = InMemoryGraph::new();
    g.upsert_channel(channel("c1", "peer9", 50_000, 50_000)).unwrap();
    assert!(g.node(&NodeId::new("peer9")).is_some());
}

#[test]
fn source_ledger_tracks_last_seen() {
    let mut g = InMemoryGraph::new();
    let t1 = now();
    g.mark_source_seen("lnd", t1);
    assert_eq!(g.source_last_seen("lnd"), Some(t1));
    assert_eq!(g.source_last_seen("core"), None);
}

#[test]
fn nodes_and_events_are_kept() {
    let mut g = InMemoryGraph::new();
    assert!(g.is_empty());
    let node = Node {
        id: NodeId::new("n1"),
        alias: Some("one".into()),
        version: None,
        status: NodeStatus::Online,
        last_seen: now(),
    };
    g.upsert_node(node.clone()).unwrap();
    g.upsert_node(Node { alias: Some("uno".into()), ..node }).unwrap();
    assert_eq!(g.nodes().len(), 1);
    assert_eq!(g.node(&NodeId::new("n1")).unwrap().alias.as_deref(), Some("uno"));
    for i in 0..3u64 {
        g.record_forward(ForwardEvent {
            id: format!("f{i}"),
            channel_in: ChannelId::new("a"),
            channel_out: ChannelId::new("b"),
            amount_msat: i,
            fee_msat: 1,
            timestamp: now(),
        });
        g.record_payment(PaymentEvent {
            id: format!("p{i}"),
            amount_msat: i,
            fee_msat: 0,
            timestamp: now(),
        });
    }
    let forwards: Vec<&str> = g.recent_forwards(2).iter().map(|f| f.id.as_str()).collect();
    assert_eq!(forwards, vec!["f2", "f1"]);
    let payments: Vec<&str> = g.recent_payments(9).iter().map(|p| p.id.as_str()).collect();
    assert_eq!(payments, vec!["p2", "p1", "p0"]);
    assert_eq!(g.len(), (1, 0));
}

#[test]
fn graph_errors_name_what_is_missing() {
    assert_eq!(
        GraphError::NodeNotFound(NodeId::new("n")).to_text(),
        "node n not found"
    );
    assert_eq!(
        GraphError::ChannelNotFound(ChannelId::new("c")).to_text(),
        "channel c not found"
    );
}

#[test]
fn graphs_and_histories_start_empty_and_are_copied_whole() {
    let mut g = InMemoryGraph::default();
    assert!(g.is_empty());
    g.upsert_channel(ch("c1", "bob", 1_000, 500, 0, 0)).unwrap();
    let copy = g.clone();
    g.upsert_channel(ch("c2", "carol", 1_000, 500, 0, 0)).unwrap();
    assert_eq!((copy.len(), g.len()), ((1, 1), (2, 2)));
    let mut h = InMemoryHistory::default();
    h.push(snap("c1", 0.5));
    assert_eq!(h.len(), 0);
    let mut h = InMemoryHistory::new(1);
    h.push(snap("c1", 0.5));
    let copy = h.clone();
    h.push(snap("c2", 0.5));
    assert_eq!((copy.len(), h.len()), (1, 2));
}

#[test]
fn routes_start_empty_and_are_copied_whole() {
    let none = Path::default();
    assert!(none.hops.is_empty() && none.total_cost_msat == 0);
    let channels = vec![ch("c1", "bob", 1_000_000, 500_000, 7, 0)];
    let path = find_path(&NodeId::new("alice"), &NodeId::new("bob"), 1, &channels).unwrap();
    assert_eq!(path.clone(), path);
    assert_ne!(path, none);
}
