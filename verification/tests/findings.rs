use rieko::action::{Action, ActionStage, ActionType};
use rieko::domain::{
    BitcoinNetwork, Channel, ChannelId, ChannelSnapshot, ChannelStatus, FeePolicy,
    LiquidityProfile, NodeId,
};
use rieko::finding::{
    ChannelSnapshotReference, Evidence, Finding, FindingLifecycle, FindingProvenance,
    ObservationReference, ObservationSource, ProducerRole, ProducerVersion, Severity,
    FINDING_SCHEMA_VERSION,
};
use rieko::identity::{
    action_identity, canonical_evidence, channel_snapshot_state_digest, channel_state_digest,
    finding_identity,
};
use rieko::json::{Json, Params};
use rieko::ratio::Ratio;
use rieko::time::Timestamp;

fn at(secs: i64) -> Timestamp {
    Timestamp { secs, nanos: 0 }
}

fn number(key: &str, value: f64) -> Evidence {
    Evidence::number(key, value.to_bits(), &serde_json::Value::from(value).to_string())
}

fn finding(severity: Severity, provenance: Option<FindingProvenance>) -> Finding {
    let now = at(1_700_000_000);
    Finding {
        id: "finding-id".into(),
        detector: "channel_liquidity".into(),
        detector_version: "2".into(),
        schema_version: FINDING_SCHEMA_VERSION,
        severity,
        node: Some("node-a".into()),
        channel: Some("channel-a".into()),
        evidence: vec![number("local_ratio", 0.02)],
        provenance,
        explanation: None,
        timestamp: now,
        first_seen_at: now,
        last_seen_at: now,
        lifecycle: FindingLifecycle::Active,
    }
}

fn provenance() -> FindingProvenance {
    FindingProvenance {
        network: Some(BitcoinNetwork::Signet),
        source: ObservationSource::Lnd {
            redacted_endpoint: "https://lnd.example:8080".into(),
            configured_node: "node-a".into(),
        },
        producers: vec![ProducerVersion {
            name: "channel_liquidity".into(),
            version: "2".into(),
            role: ProducerRole::Detector,
        }],
        observation: ObservationReference::ChannelWindow {
            channel_id: "channel-a".into(),
            snapshots: vec![ChannelSnapshotReference {
                network: Some(BitcoinNetwork::Signet),
                observed_at: at(1_700_000_000),
                state_digest: "abc123".into(),
            }],
        },
    }
}

fn channel(last_seen: Timestamp) -> Channel {
    Channel {
        id: ChannelId::new("c1"),
        node: NodeId::new("node1"),
        peer: NodeId::new("peer1"),
        channel_point: "txid:0".into(),
        capacity_msat: 1_000_000,
        fee_policy: FeePolicy::default(),
        status: ChannelStatus::Active,
        liquidity: LiquidityProfile::compute(1_000_000, 200_000, 800_000),
        last_seen,
        opening_height: Some(800_000),
        local_reserve_msat: Some(10_000),
        remote_reserve_msat: Some(20_000),
        is_private: false,
        is_initiator: true,
        total_sent_msat: Some(50_000),
        total_received_msat: Some(60_000),
    }
}

#[test]
fn dedup_key_excludes_severity_and_provenance() {
    let warning = finding(Severity::Warning, None);
    let critical = finding(Severity::Critical, Some(provenance()));

    assert_eq!(warning.dedup_key(), critical.dedup_key());
    assert_eq!(warning.dedup_key(), "channel_liquidity|2|node-a|channel-a");
}

#[test]
fn identity_stable_across_construction() {
    let a = finding_identity("channel_liquidity", "1", None, Some("node1"), Some("chan-abc"));
    let b = finding_identity("channel_liquidity", "1", None, Some("node1"), Some("chan-abc"));
    assert_eq!(a, b);
    assert!(a.starts_with("finding-"));
}

#[test]
fn identity_distinguishes_detector_version() {
    let v1 = finding_identity("channel_liquidity", "1", None, Some("node1"), Some("c1"));
    let v2 = finding_identity("channel_liquidity", "2", None, Some("node1"), Some("c1"));
    assert_ne!(v1, v2);
}

#[test]
fn identity_distinguishes_entity_changes() {
    let a = finding_identity("channel_liquidity", "1", None, Some("node1"), Some("c1"));
    let b = finding_identity("channel_liquidity", "1", None, Some("node1"), Some("c2"));
    let c = finding_identity("channel_liquidity", "1", None, Some("node2"), Some("c1"));
    assert_ne!(a, b);
    assert_ne!(a, c);
}

#[test]
fn identity_distinguishes_networks() {
    let mainnet = finding_identity(
        "channel_liquidity",
        "1",
        Some(BitcoinNetwork::Mainnet),
        Some("node1"),
        Some("c1"),
    );
    let regtest = finding_identity(
        "channel_liquidity",
        "1",
        Some(BitcoinNetwork::Regtest),
        Some("node1"),
        Some("c1"),
    );
    assert_ne!(mainnet, regtest);
}

#[test]
fn identity_distinguishes_absent_and_empty_entity_parts() {
    assert_ne!(
        finding_identity("detector", "1", None, None, Some("c1")),
        finding_identity("detector", "1", None, Some(""), Some("c1"))
    );
}

#[test]
fn channel_digest_excludes_observation_timestamp() {
    let first = channel(at(1_700_000_000));
    let later = Channel { last_seen: at(1_800_000_000), ..first.clone() };

    assert_eq!(channel_state_digest(&first), channel_state_digest(&later));
}

#[test]
fn channel_digest_changes_with_explicit_state() {
    let original = channel(at(1_700_000_000));
    let changed = Channel { capacity_msat: original.capacity_msat + 1, ..original.clone() };

    assert_ne!(channel_state_digest(&original), channel_state_digest(&changed));
    assert_eq!(channel_state_digest(&original).len(), 64);
}

#[test]
fn snapshot_digest_excludes_observation_timestamp_but_includes_state() {
    let channel = channel(at(1_700_000_000));
    let original =
        ChannelSnapshot::from_channel(&channel, channel.last_seen, BitcoinNetwork::Signet);
    let later = ChannelSnapshot { ts: at(1_800_000_000), ..original.clone() };
    let changed = ChannelSnapshot {
        local_balance_msat: original.local_balance_msat + 1,
        ..original.clone()
    };

    assert_eq!(
        channel_snapshot_state_digest(&original),
        channel_snapshot_state_digest(&later)
    );
    assert_ne!(
        channel_snapshot_state_digest(&original),
        channel_snapshot_state_digest(&changed)
    );
    let different_network = ChannelSnapshot {
        network: Some(BitcoinNetwork::Regtest),
        ..original.clone()
    };
    assert_ne!(
        channel_snapshot_state_digest(&original),
        channel_snapshot_state_digest(&different_network)
    );
    let digest_field_changed = ChannelSnapshot {
        state_digest: Some("stored-digest".into()),
        ..original.clone()
    };
    assert_eq!(
        channel_snapshot_state_digest(&original),
        channel_snapshot_state_digest(&digest_field_changed)
    );
}

#[test]
fn action_identity_derives_from_finding_and_kind() {
    let a = action_identity("finding-x", ActionType::RebalanceChannel, Some("c1"));
    let b = action_identity("finding-x", ActionType::RebalanceChannel, Some("c1"));
    let c = action_identity("finding-x", ActionType::UpdateFeePolicy, Some("c1"));
    let d = action_identity("finding-y", ActionType::RebalanceChannel, Some("c1"));
    assert_eq!(a, b);
    assert_ne!(a, c);
    assert_ne!(a, d);
    assert!(a.starts_with("action-"));
}

#[test]
fn finding_identities_keep_their_value() {
    assert_eq!(
        finding_identity(
            "channel_liquidity",
            "1",
            Some(BitcoinNetwork::Regtest),
            Some("node1"),
            None
        ),
        "finding-10775d716f4cc50fcff2ba41532f9ad3fac4775e7c9e5ed4e049fbd65ebadb68"
    );
}

#[test]
fn action_identities_keep_their_value() {
    assert_eq!(
        action_identity("finding-x", ActionType::RebalanceChannel, Some("c1")),
        "action-f5e7201362014b19004e7b0ce0761c6555030837a4257559fe312ae7bbf6a31c"
    );
}

#[test]
fn snapshot_digests_keep_their_value() {
    let snapshot = ChannelSnapshot {
        node_id: Some("node1".into()),
        network: Some(BitcoinNetwork::Signet),
        state_digest: None,
        channel_id: "c1".into(),
        local_ratio: Ratio::of(200_000, 1_000_000),
        local_balance_msat: 200_000,
        remote_balance_msat: 800_000,
        capacity_msat: 1_000_000,
        status: ChannelStatus::Active,
        ts: at(0),
        spendable_outbound_msat: 190_000,
        spendable_inbound_msat: 780_000,
    };
    assert_eq!(
        channel_snapshot_state_digest(&snapshot),
        "d2d0817e9a1cff91b774c1519955eaf156030ed54766242471d5ed01cc979fff"
    );
}

#[test]
fn evidence_is_encoded_in_the_order_of_its_keys() {
    let a = Evidence::text("b", "two");
    let b = number("a", 0.5);
    let c = Evidence { key: "c".into(), value: Json::Bool(true) };
    let expected = b"a\x000.5\xffb\x00two\xffc\x00\x01\xff".to_vec();
    assert_eq!(canonical_evidence(&vec![a.clone(), b.clone(), c.clone()]), expected);
    assert_eq!(canonical_evidence(&vec![c, b, a]), expected);
}

#[test]
fn evidence_is_found_by_its_key() {
    let f = finding(Severity::Info, None);
    assert_eq!(
        f.evidence_value("local_ratio"),
        Some(&Json::Real { bits: 0.02f64.to_bits(), text: "0.02".into() })
    );
    assert_eq!(f.evidence_value("missing"), None);
}

#[test]
fn severities_are_ordered() {
    assert!(Severity::Info < Severity::Warning);
    assert!(Severity::Warning < Severity::Critical);
}

#[test]
fn recommended_actions_are_named_after_their_finding() {
    let action = Action::for_recommendation(
        "finding-x",
        ActionType::RebalanceChannel,
        Some("c1".into()),
        Params::Object(vec![]),
        "Rebalance",
    );
    assert_eq!(
        action.id,
        action_identity("finding-x", ActionType::RebalanceChannel, Some("c1"))
    );
    assert_eq!(action.stage, ActionStage::Recommended);
    assert_eq!(action.created_at, action.updated_at);
    assert!(action.created_at.secs > 1_700_000_000);
}

#[test]
fn evidence_that_shares_a_key_is_ordered_by_its_bytes() {
    let a = Evidence::text("k", "two");
    let b = Evidence::text("k", "one");
    let c = number("k", 0.5);
    let d = Evidence::text("j", "z");
    let expected = b"j\x00z\xffk\x000.5\xffk\x00one\xffk\x00two\xff".to_vec();
    let all = [a, b, c, d];
    for order in [[0, 1, 2, 3], [3, 2, 1, 0], [2, 0, 3, 1], [1, 3, 0, 2]] {
        let list: Vec<Evidence> = order.iter().map(|i: &usize| all[*i].clone()).collect();
        assert_eq!(canonical_evidence(&list), expected);
    }
    let twice = vec![all[0].clone(), all[0].clone()];
    assert_eq!(canonical_evidence(&twice), b"k\x00two\xffk\x00two\xff".to_vec());
}

fn is_lower_hex(s: &str) -> bool {
    s.len() == 64 && s.chars().all(|c| c.is_ascii_digit() || ('a'..='f').contains(&c))
}

#[test]
fn identities_end_in_a_digest() {
    let id = finding_identity("detector", "1", None, None, Some("c1"));
    assert!(id.starts_with("finding-") && is_lower_hex(&id[8..]));
    let id = action_identity("f1", ActionType::Custom, None);
    assert!(id.starts_with("action-") && is_lower_hex(&id[7..]));
}

#[test]
fn identities_tell_neighbouring_parts_apart() {
    assert_ne!(
        finding_identity("ab", "c", None, None, None),
        finding_identity("a", "bc", None, None, None)
    );
}

#[test]
fn evidence_of_no_finite_number_is_null() {
    for value in [f64::NAN, f64::INFINITY, f64::NEG_INFINITY] {
        assert_eq!(number("k", value).value, Json::Null);
        assert_eq!(serde_json::Value::from(value), serde_json::Value::Null);
    }
    for value in [0.0, -0.0, f64::MAX, f64::MIN, -1.5] {
        assert!(matches!(number("k", value).value, Json::Real { .. }));
    }
}

#[test]
fn actions_are_told_apart_by_finding_type_and_target() {
    let id = action_identity("f1", ActionType::Custom, Some("c1"));
    assert_ne!(id, action_identity("f2", ActionType::Custom, Some("c1")));
    assert_ne!(id, action_identity("f1", ActionType::RestartService, Some("c1")));
    assert_ne!(id, action_identity("f1", ActionType::Custom, Some("c2")));
    assert_eq!(
        action_identity("f1", ActionType::Custom, None),
        action_identity("f1", ActionType::Custom, Some(""))
    );
}
