use rieko::action::{
    Action, ActionStage, ActionType, Actionability, AuditEntry, Rationale, Recommendation,
};
use rieko::domain::{BitcoinNetwork, ChannelSnapshot, ChannelStatus};
use rieko::finding::{
    ChannelSnapshotReference, Evidence, Finding, FindingCycleScope, FindingLifecycle,
    FindingLifecycleFilter, FindingProvenance, ObservationReference, ObservationSource,
    ProducerRole, ProducerVersion, Severity, FINDING_SCHEMA_VERSION,
};
use rieko::ingest::{InvoiceExpiredEvent, NodeEvent};
use rieko::json::{Json, Member, Params};
use rieko::memory_storage::MemoryStorage;
use rieko::ratio::Ratio;
use rieko::records::{
    AlertState, DeliveryStatus, SimulationEvent, SimulationRecord, StorageCounts, StorageError,
    CURRENT_SCHEMA_VERSION,
};
use rieko::retention::RetentionPolicy;
use rieko::simulator::{Simulation, SimulationProjection};
use rieko::status::{ComponentState, OperationalState, SourceState};
use rieko::time::{Period, Timestamp};
use sha2::{Digest, Sha256};

const DAY: i64 = 24 * 3600;

fn now() -> Timestamp {
    let t = chrono::Utc::now();
    Timestamp { secs: t.timestamp(), nanos: t.timestamp_subsec_nanos() }
}

fn shift(t: Timestamp, secs: i64) -> Timestamp {
    Timestamp { secs: t.secs + secs, nanos: t.nanos }
}

fn ratio(r: f64) -> Ratio {
    Ratio { bits: r.to_bits() }
}

fn number(key: &str, value: f64) -> Evidence {
    Evidence::number(key, value.to_bits(), &serde_json::Value::from(value).to_string())
}

fn half() -> Params {
    Params::Object(vec![Member {
        key: "desired_ratio".into(),
        value: Json::Real { bits: 0.5f64.to_bits(), text: "0.5".into() },
    }])
}

fn test_rec(finding_id: &str, action: Action) -> Recommendation {
    Recommendation { finding_id: finding_id.into(), action, rationale: Rationale::default() }
}

fn sample_finding() -> Finding {
    let now = now();
    Finding {
        id: "f1".into(),
        detector: "channel_liquidity".into(),
        detector_version: "1".into(),
        schema_version: FINDING_SCHEMA_VERSION,
        severity: Severity::Critical,
        node: Some("local-node".into()),
        channel: Some("c1".into()),
        evidence: vec![number("local_ratio", 0.02)],
        provenance: Some(FindingProvenance {
            network: Some(BitcoinNetwork::Regtest),
            source: ObservationSource::Fixture {
                redacted_hash: "fixture-hash".into(),
                configured_node: "node-1".into(),
            },
            producers: vec![ProducerVersion {
                name: "channel_liquidity".into(),
                version: "1".into(),
                role: ProducerRole::Detector,
            }],
            observation: ObservationReference::ChannelState {
                channel_id: "c1".into(),
                snapshot: ChannelSnapshotReference {
                    network: Some(BitcoinNetwork::Regtest),
                    observed_at: now,
                    state_digest: "state-hash".into(),
                },
            },
        }),
        explanation: None,
        timestamp: now,
        first_seen_at: now,
        last_seen_at: now,
        lifecycle: FindingLifecycle::Active,
    }
}

fn snapshot_at(id: &str, status: ChannelStatus, ts: Timestamp) -> ChannelSnapshot {
    ChannelSnapshot {
        node_id: Some("local-node".into()),
        network: Some(BitcoinNetwork::Regtest),
        state_digest: Some(format!("digest-{id}")),
        channel_id: id.to_string(),
        local_ratio: ratio(0.5),
        local_balance_msat: 500_000,
        remote_balance_msat: 500_000,
        capacity_msat: 1_000_000,
        status,
        ts,
        spendable_outbound_msat: 0,
        spendable_inbound_msat: 0,
    }
}

fn save_cycle(
    storage: &mut MemoryStorage,
    snapshot: &ChannelSnapshot,
    finding: &Finding,
    recommendation: &Recommendation,
    audit: &AuditEntry,
) {
    storage.save_channel_snapshot(snapshot).unwrap();
    storage.save_finding(finding).unwrap();
    storage.save_recommendation(recommendation).unwrap();
    storage.append_audit(audit).unwrap();
}

fn assert_cycle_rows(storage: &mut MemoryStorage, expected: usize) {
    assert_eq!(
        storage.recent_channel_snapshots("c1", 10).unwrap().len(),
        expected
    );
    assert_eq!(storage.latest_findings(10).unwrap().len(), expected);
    assert_eq!(storage.latest_recommendations(10).unwrap().len(), expected);
    assert_eq!(storage.recent_audit(10).unwrap().len(), expected);
}

fn finding_by_id(storage: &mut MemoryStorage, id: &str) -> Finding {
    storage.latest_findings(100).unwrap().into_iter().find(|finding| finding.id == id).unwrap()
}

const CANONICAL: &str = r#"{"action_type":"RebalanceChannel","destination_snapshot":{"capacity_msat":1000000,"channel_id":"c2","local_balance_msat":700000,"local_ratio":0.7,"node_id":"local-node","remote_balance_msat":300000,"spendable_inbound_msat":290000,"spendable_outbound_msat":690000,"status":"Active","ts":"2023-11-14T22:13:20Z"},"finding_channel":"c1","finding_id":"f1","model_id":"liquidity-redistribution","model_version":"2","node_id":"local-node","parameters":{"amount_msat":50000,"destination_channel":"c2","source_channel":"c1"},"provenance":{"observation":{"channel_id":"c1","kind":"channel_state","snapshot":{"observed_at":"2023-11-14T22:13:20Z","state_digest":"state-hash"}},"producers":[],"source":{"kind":"fixture","redacted_hash":"fixture-hash"}},"recommendation_id":"a1","recommendation_target":"c1","source_snapshot":{"capacity_msat":1000000,"channel_id":"c1","local_balance_msat":200000,"local_ratio":0.2,"node_id":"local-node","remote_balance_msat":800000,"spendable_inbound_msat":790000,"spendable_outbound_msat":190000,"status":"Active","ts":"2023-11-14T22:13:20Z"}}"#;

const PROJECTION: &str = r#"{"assumptions":[],"baseline":{"capacity_msat":1000000,"local_balance_msat":200000,"local_ratio":0.2,"remote_balance_msat":800000},"confidence":"medium","deltas":[],"input_hash":"HASH","model_id":"liquidity-redistribution","model_version":"2","projected":{"capacity_msat":1000000,"local_balance_msat":150000,"local_ratio":0.15,"remote_balance_msat":850000},"warnings":[]}"#;

fn simulation_record(id: &str) -> SimulationRecord {
    let mut hash = Sha256::new();
    hash.update(b"rieko-simulation-input-v3");
    hash.update((CANONICAL.len() as u64).to_be_bytes());
    hash.update(CANONICAL.as_bytes());
    let input_hash = hex::encode(hash.finalize());
    SimulationRecord {
        id: id.into(),
        action_id: "a1".into(),
        finding_id: "f1".into(),
        action_type: "rebalance_channel".into(),
        status: "completed".into(),
        model_id: "liquidity-redistribution".into(),
        model_version: "2".into(),
        input_hash: input_hash.clone(),
        confidence: "medium".into(),
        assumptions: Json::Compound("[]".into()),
        warnings: Json::Compound("[]".into()),
        explanation: String::new(),
        canonical_input: Json::Compound(CANONICAL.into()),
        projection: Json::Compound(PROJECTION.replace("HASH", &input_hash)),
        source_observed_at: Some("2023-11-14T22:13:20Z".into()),
        requested_at: "2023-11-14T22:14:20Z".into(),
        completed_at: Some("2023-11-14T22:14:20Z".into()),
        error_code: None,
        created_at: "2023-11-14T22:14:20Z".into(),
    }
}

#[test]
fn roundtrips_findings_recommendations_audit() {
    let mut s = MemoryStorage::new();
    let finding = sample_finding();
    s.save_finding(&finding).unwrap();

    let rec = test_rec(
        "f1",
        Action::new(
            ActionType::RebalanceChannel,
            ActionStage::Recommended,
            Some("c1".into()),
            half(),
            "Rebalance channel c1 to 50/50",
        ),
    );
    let mut rec = rec;
    rec.rationale = Rationale {
        evidence: vec!["local_ratio=0.1".into()],
        preconditions: vec!["confirm intent".into()],
        expected_effect: "informed decision".into(),
        risks: vec!["fees".into()],
        limitations: vec!["single snapshot".into()],
        actionability: Actionability::OperatorActionable,
    };
    s.save_recommendation(&rec).unwrap();

    let audit = AuditEntry::from_action(&rec.action, "system", Json::Compound("{}".into()));
    s.append_audit(&audit).unwrap();

    let findings = s.latest_findings(10).unwrap();
    assert_eq!(findings.len(), 1);
    assert_eq!(findings[0].id, "f1");
    assert_eq!(findings[0].severity, Severity::Critical);
    assert_eq!(findings[0].detector_version, "1");
    assert_eq!(
        findings[0].schema_version,
        FINDING_SCHEMA_VERSION
    );
    assert_eq!(findings[0].lifecycle, FindingLifecycle::Active);
    assert_eq!(findings[0].first_seen_at, findings[0].last_seen_at);
    assert_eq!(findings[0].provenance, finding.provenance);

    let recs = s.latest_recommendations(10).unwrap();
    assert_eq!(recs.len(), 1);
    assert_eq!(recs[0].action.action_type, ActionType::RebalanceChannel);
    assert_eq!(recs[0].action.stage, ActionStage::Recommended);
    assert_eq!(
        recs[0].rationale, rec.rationale,
        "rationale must survive the roundtrip"
    );

    let audit_rows = s.recent_audit(10).unwrap();
    assert_eq!(audit_rows.len(), 1);
    assert_eq!(audit_rows[0].action_id, rec.action.id);
    assert_eq!(
        audit_rows[0].previous_stage, None,
        "creation audit entry has no previous stage"
    );
}

#[test]
fn action_stage_can_be_fetched_and_transitioned() {
    let mut s = MemoryStorage::new();
    let rec = test_rec(
        "f1",
        Action::new(
            ActionType::RebalanceChannel,
            ActionStage::Recommended,
            Some("c1".into()),
            half(),
            "rebalance c1",
        ),
    );
    s.save_recommendation(&rec).unwrap();

    let fetched = s
        .recommendation_for_action(&rec.action.id)
        .unwrap()
        .unwrap();
    assert_eq!(fetched.action.stage, ActionStage::Recommended);

    s.set_action_stage(&rec.action.id, ActionStage::Simulated)
        .unwrap();
    let after = s
        .recommendation_for_action(&rec.action.id)
        .unwrap()
        .unwrap();
    assert_eq!(after.action.stage, ActionStage::Simulated);
    assert!(!after.action.updated_at.is_before(&after.action.created_at));

    assert!(s.recommendation_for_action("nope").unwrap().is_none());
}

#[test]
fn replayable_simulation_and_events_roundtrip_atomically() {
    let mut storage = MemoryStorage::new();
    let record = simulation_record("sim-v2");
    let event = SimulationEvent {
        id: "event-1".into(),
        simulation_id: record.id.clone(),
        status: "completed".into(),
        error_code: None,
        timestamp: record.requested_at.clone(),
    };
    let before = storage.counts().unwrap();
    storage.begin_transaction().unwrap();
    storage.save_simulation_v2(&record).unwrap();
    storage.append_simulation_event(&event).unwrap();
    storage.commit_transaction().unwrap();

    assert_eq!(
        storage.simulation_v2_by_id(&record.id).unwrap(),
        Some(record.clone())
    );
    assert_eq!(
        storage
            .simulation_v2_by_input_hash(&record.input_hash)
            .unwrap(),
        Some(record.clone())
    );
    assert_eq!(storage.simulation_events(&record.id).unwrap(), vec![event]);
    let after = storage.counts().unwrap();
    assert_eq!(after.findings, before.findings);
    assert_eq!(after.recommendations, before.recommendations);
    assert_eq!(after.audit, before.audit);
    assert_eq!(after.simulations, before.simulations + 1);
}

#[test]
fn completed_simulations_are_immutable_and_input_unique() {
    let mut storage = MemoryStorage::new();
    let record = simulation_record("sim-v2");
    storage.save_simulation_v2(&record).unwrap();

    let mut changed = record.clone();
    changed.status = "failed".into();
    assert!(storage.save_simulation_v2(&changed).is_err());

    let mut duplicate_input = record.clone();
    duplicate_input.id = "different-run".into();
    assert!(storage.save_simulation_v2(&duplicate_input).is_err());
}

#[test]
fn simulation_record_and_lifecycle_events_roll_back_together() {
    let mut storage = MemoryStorage::new();
    let record = simulation_record("sim-v2");
    storage.begin_transaction().unwrap();
    storage.save_simulation_v2(&record).unwrap();
    storage
        .append_simulation_event(&SimulationEvent {
            id: "event-1".into(),
            simulation_id: record.id.clone(),
            status: "completed".into(),
            error_code: None,
            timestamp: record.requested_at.clone(),
        })
        .unwrap();
    storage.rollback_transaction().unwrap();

    assert!(storage.simulation_v2_by_id(&record.id).unwrap().is_none());
    assert!(storage.simulation_events(&record.id).unwrap().is_empty());
}

#[test]
fn replayable_queries_filter_legacy_rows_before_limit_in_both_backends() {
    let mut storage = MemoryStorage::new();
    let replayable = simulation_record("replayable");
    storage.save_simulation_v2(&replayable).unwrap();

    let mut legacy = replayable.clone();
    legacy.id = "legacy".into();
    legacy.canonical_input = Json::Null;
    legacy.source_observed_at = None;
    legacy.created_at = "2023-11-14T22:15:20Z".into();
    legacy.requested_at = legacy.created_at.clone();
    legacy.completed_at = Some(legacy.created_at.clone());
    storage.save_simulation_v2(&legacy).unwrap();

    assert_eq!(storage.recent_simulations_v2(1).unwrap()[0].id, "legacy");
    assert_eq!(
        storage.recent_replayable_simulations_v2(1).unwrap(),
        vec![replayable.clone()]
    );
    assert!(storage
        .replayable_simulation_v2_by_id("legacy")
        .unwrap()
        .is_none());
    assert_eq!(storage.simulation_v2_by_id("legacy").unwrap(), Some(legacy));
    assert_eq!(
        storage
            .simulation_v2_by_input_hash(&replayable.input_hash)
            .unwrap(),
        Some(replayable)
    );
}

#[test]
fn simulation_input_survives_snapshot_retention() {
    let mut storage = MemoryStorage::new();
    let record = simulation_record("sim-v2");
    storage.save_simulation_v2(&record).unwrap();
    let old = snapshot_at(
        "c1",
        ChannelStatus::Active,
        shift(now(), -(60) * DAY),
    );
    storage.save_channel_snapshot(&old).unwrap();
    storage
        .prune_channel_snapshots(&RetentionPolicy::default(), now())
        .unwrap();

    assert!(storage
        .recent_channel_snapshots("c1", 1)
        .unwrap()
        .is_empty());
    assert_eq!(
        storage
            .simulation_v2_by_id("sim-v2")
            .unwrap()
            .unwrap()
            .canonical_input,
        record.canonical_input
    );
}

#[test]
fn memory_storage_works() {
    let mut s = MemoryStorage::new();
    s.save_finding(&sample_finding()).unwrap();
    assert_eq!(s.latest_findings(10).unwrap().len(), 1);
    assert_eq!(s.findings_for_channel("c1", 10).unwrap().len(), 1);
    assert_eq!(s.findings_for_channel("c2", 10).unwrap().len(), 0);
}

#[test]
fn findings_for_channel_is_bounded() {
    let mut s = MemoryStorage::new();
    for i in 0..100 {
        let mut f = sample_finding();
        f.id = format!("f-{i}");
        s.save_finding(&f).unwrap();
    }
    assert_eq!(s.findings_for_channel("c1", 1).unwrap().len(), 1);
    assert_eq!(s.findings_for_channel("c1", 50).unwrap().len(), 50);
    assert_eq!(s.findings_for_channel("c1", 10_000).unwrap().len(), 100);
}

#[test]
fn retention_removes_old_snapshots_and_keeps_recent() {
    let mut s = MemoryStorage::new();
    let now = now();
    for days in [0, 2, 40] {
        s.save_channel_snapshot(&snapshot_at(
            "c1",
            ChannelStatus::Active,
            shift(now, -(days) * DAY),
        ))
        .unwrap();
    }
    let policy = RetentionPolicy {
        snapshot_max_age: Period::from_secs(30 * 24 * 3600),
        ..Default::default()
    };
    let summary = s.prune_channel_snapshots(&policy, now).unwrap();
    assert_eq!(summary.deleted_snapshots, 1, "only the 40-day row expires");
    let kept = s.recent_channel_snapshots("c1", 10).unwrap();
    assert_eq!(kept.len(), 2, "recent snapshots remain");
}

#[test]
fn retention_handles_closed_channels_with_shorter_grace() {
    let mut s = MemoryStorage::new();
    let now = now();
    s.save_channel_snapshot(&snapshot_at(
        "open",
        ChannelStatus::Active,
        shift(now, -(10) * DAY),
    ))
    .unwrap();
    s.save_channel_snapshot(&snapshot_at(
        "closed",
        ChannelStatus::Closed,
        shift(now, -(10) * DAY),
    ))
    .unwrap();
    s.save_channel_snapshot(&snapshot_at(
        "closed",
        ChannelStatus::Closed,
        shift(now, -(1) * 3600),
    ))
    .unwrap();
    let policy = RetentionPolicy {
        snapshot_max_age: Period::from_secs(30 * 24 * 3600),
        closed_channel_max_age: Period::from_secs(3 * 24 * 3600),
        ..Default::default()
    };
    let summary = s.prune_channel_snapshots(&policy, now).unwrap();
    assert_eq!(summary.deleted_snapshots, 1);
    assert_eq!(s.recent_channel_snapshots("open", 10).unwrap().len(), 1);
    assert_eq!(s.recent_channel_snapshots("closed", 10).unwrap().len(), 1);
}

#[test]
fn retention_caps_snapshots_per_channel() {
    let mut s = MemoryStorage::new();
    let now = now();
    for i in 0..10 {
        s.save_channel_snapshot(&snapshot_at(
            "c1",
            ChannelStatus::Active,
            shift(now, -(i as i64) * 60),
        ))
        .unwrap();
    }
    let policy = RetentionPolicy {
        max_snapshots_per_channel: Some(3),
        snapshot_max_age: Period::from_secs(30 * 24 * 3600),
        ..Default::default()
    };
    let summary = s.prune_channel_snapshots(&policy, now).unwrap();
    assert_eq!(summary.deleted_snapshots, 7);
    assert_eq!(s.recent_channel_snapshots("c1", 100).unwrap().len(), 3);
}

#[test]
fn retention_caps_total_snapshots() {
    let mut s = MemoryStorage::new();
    let now = now();
    for (id, days) in [("c1", 0i64), ("c1", 1), ("c2", 0), ("c2", 1), ("c2", 2)] {
        s.save_channel_snapshot(&snapshot_at(
            id,
            ChannelStatus::Active,
            shift(now, -(days) * DAY),
        ))
        .unwrap();
    }
    let policy = RetentionPolicy {
        max_total_snapshots: Some(2),
        snapshot_max_age: Period::from_secs(30 * 24 * 3600),
        ..Default::default()
    };
    let summary = s.prune_channel_snapshots(&policy, now).unwrap();
    assert_eq!(summary.deleted_snapshots, 3, "only the newest two survive");
    assert_eq!(
        s.counts().unwrap().channel_snapshots,
        2,
        "absolute cap respected"
    );
}

#[test]
fn cleanup_never_touches_findings_or_recommendations() {
    let mut s = MemoryStorage::new();
    let now = now();
    s.save_finding(&sample_finding()).unwrap();
    s.save_channel_snapshot(&snapshot_at(
        "c1",
        ChannelStatus::Active,
        shift(now, -(100) * DAY),
    ))
    .unwrap();
    let policy = RetentionPolicy {
        snapshot_max_age: Period::from_secs(30 * 24 * 3600),
        ..Default::default()
    };
    s.prune_channel_snapshots(&policy, now).unwrap();
    assert_eq!(s.recent_channel_snapshots("c1", 10).unwrap().len(), 0);
    assert_eq!(s.latest_findings(10).unwrap().len(), 1);
}

#[test]
fn large_cleanup_is_chunked_and_completes() {
    let mut s = MemoryStorage::new();
    let now = now();
    for i in 0..5000 {
        s.save_channel_snapshot(&snapshot_at(
            if i % 2 == 0 { "c1" } else { "c2" },
            ChannelStatus::Active,
            shift(now, -60 * DAY - i as i64),
        ))
        .unwrap();
    }
    let policy = RetentionPolicy {
        snapshot_max_age: Period::from_secs(30 * 24 * 3600),
        ..Default::default()
    };
    let start = std::time::Instant::now();
    let summary = s.prune_channel_snapshots(&policy, now).unwrap();
    assert_eq!(summary.deleted_snapshots, 5000);
    assert_eq!(s.counts().unwrap().channel_snapshots, 0);
    assert!(start.elapsed() < std::time::Duration::from_secs(10));
}

#[test]
fn channel_snapshots_roundtrip() {

    let mut s = MemoryStorage::new();
    let ts = now();
    let snap = ChannelSnapshot {
        node_id: Some("local-node".into()),
        network: Some(BitcoinNetwork::Signet),
        state_digest: Some("state-digest".into()),
        channel_id: "c1".into(),
        local_ratio: ratio(0.42),
        local_balance_msat: 420_000,
        remote_balance_msat: 580_000,
        capacity_msat: 1_000_000,
        status: ChannelStatus::Active,
        ts,
        spendable_outbound_msat: 0,
        spendable_inbound_msat: 0,
    };
    s.save_channel_snapshot(&snap).unwrap();
    s.save_channel_snapshot(&ChannelSnapshot {
        channel_id: "c1".into(),
        local_ratio: ratio(0.30),
        ts: shift(ts, (60) * 1),
        ..snap.clone()
    })
    .unwrap();

    let got = s.recent_channel_snapshots("c1", 10).unwrap();
    assert_eq!(got.len(), 2);
    assert_eq!(got[0].local_ratio, ratio(0.30));
    assert_eq!(got[0].status, ChannelStatus::Active);
    assert_eq!(got[0].network, Some(BitcoinNetwork::Signet));
    assert_eq!(got[0].state_digest.as_deref(), Some("state-digest"));
    assert_eq!(got[1].local_ratio, ratio(0.42));
    assert_eq!(s.recent_channel_snapshots("other", 10).unwrap().len(), 0);
}

#[test]
fn same_channel_snapshot_is_isolated_by_node() {
    let timestamp = now();
    let mut storage = MemoryStorage::new();
    let first = ChannelSnapshot {
        node_id: Some("node-a".into()),
        network: Some(BitcoinNetwork::Regtest),
        state_digest: Some("node-a-state".into()),
        channel_id: "c1".into(),
        local_ratio: ratio(0.2),
        local_balance_msat: 200_000,
        remote_balance_msat: 800_000,
        capacity_msat: 1_000_000,
        status: ChannelStatus::Active,
        ts: timestamp,
        spendable_outbound_msat: 190_000,
        spendable_inbound_msat: 790_000,
    };
    let second = ChannelSnapshot {
        node_id: Some("node-b".into()),
        local_ratio: ratio(0.8),
        local_balance_msat: 800_000,
        remote_balance_msat: 200_000,
        spendable_outbound_msat: 790_000,
        spendable_inbound_msat: 190_000,
        ..first.clone()
    };
    storage.save_channel_snapshot(&first).unwrap();
    storage.save_channel_snapshot(&second).unwrap();

    assert_eq!(
        storage
            .recent_channel_snapshots_for_node("node-a", "c1", 1)
            .unwrap()[0]
            .local_ratio,
        ratio(0.2)
    );
    assert_eq!(
        storage
            .recent_channel_snapshots_for_node("node-b", "c1", 1)
            .unwrap()[0]
            .local_ratio,
        ratio(0.8)
    );
}

#[test]
fn same_snapshot_identity_is_isolated_by_network() {
    let timestamp = now();
    let mut storage = MemoryStorage::new();
    let regtest = ChannelSnapshot {
        node_id: Some("node-a".into()),
        network: Some(BitcoinNetwork::Regtest),
        state_digest: Some("regtest-state".into()),
        channel_id: "c1".into(),
        local_ratio: ratio(0.2),
        local_balance_msat: 200_000,
        remote_balance_msat: 800_000,
        capacity_msat: 1_000_000,
        status: ChannelStatus::Active,
        ts: timestamp,
        spendable_outbound_msat: 190_000,
        spendable_inbound_msat: 790_000,
    };
    let mainnet = ChannelSnapshot {
        network: Some(BitcoinNetwork::Mainnet),
        state_digest: Some("mainnet-state".into()),
        local_ratio: ratio(0.8),
        local_balance_msat: 800_000,
        remote_balance_msat: 200_000,
        ..regtest.clone()
    };
    storage.save_channel_snapshot(&regtest).unwrap();
    storage.save_channel_snapshot(&mainnet).unwrap();

    let regtest_history = storage
        .recent_channel_snapshots_for_network(
            BitcoinNetwork::Regtest,
            Some("node-a"),
            "c1",
            10,
        )
        .unwrap();
    assert_eq!(regtest_history.len(), 1);
    assert_eq!(
        regtest_history[0].state_digest.as_deref(),
        Some("regtest-state")
    );

    assert_eq!(
        storage
            .channel_snapshot_at(BitcoinNetwork::Regtest, "node-a", "c1", timestamp)
            .unwrap()
            .unwrap()
            .state_digest
            .as_deref(),
        Some("regtest-state")
    );
    assert_eq!(
        storage
            .channel_snapshot_at(BitcoinNetwork::Mainnet, "node-a", "c1", timestamp)
            .unwrap()
            .unwrap()
            .state_digest
            .as_deref(),
        Some("mainnet-state")
    );
}

#[test]
fn rollback_leaves_no_half_written_state() {
    let mut s = MemoryStorage::new();
    let f = sample_finding();
    let rec = test_rec(
        &f.id,
        Action::new(
            ActionType::RebalanceChannel,
            ActionStage::Recommended,
            f.channel.clone(),
            Params::Object(vec![]),
            "rebalance",
        ),
    );
    let audit = AuditEntry::from_action(&rec.action, "system", Json::Compound("{}".into()));
    let snapshot = snapshot_at("c1", ChannelStatus::Active, now());

    let result = (|| -> Result<(), StorageError> {
        s.begin_transaction()?;
        save_cycle(&mut s, &snapshot, &f, &rec, &audit);
        Err(StorageError::Backend("mid-cycle failure".into()))
    })();
    assert!(result.is_err());
    s.rollback_transaction().unwrap();

    assert_cycle_rows(&mut s, 0);
}

#[test]
fn transaction_cannot_be_nested_or_orphan_committed() {
    let mut s = MemoryStorage::new();
    s.begin_transaction().unwrap();
    assert!(s.begin_transaction().is_err(), "nested begin must fail");
    s.commit_transaction().unwrap();
    assert!(
        s.commit_transaction().is_err(),
        "commit with no open transaction must fail"
    );
    assert!(
        s.rollback_transaction().is_err(),
        "rollback with no open transaction must fail"
    );
}

#[test]
fn memory_transaction_commits_and_rolls_back_complete_cycles() {
    let mut s = MemoryStorage::new();
    let f = sample_finding();
    let rec = test_rec(
        &f.id,
        Action::new(
            ActionType::RebalanceChannel,
            ActionStage::Recommended,
            f.channel.clone(),
            Params::Object(vec![]),
            "rebalance",
        ),
    );
    let audit = AuditEntry::from_action(&rec.action, "system", Json::Compound("{}".into()));
    let snapshot = snapshot_at("c1", ChannelStatus::Active, now());

    s.begin_transaction().unwrap();
    save_cycle(&mut s, &snapshot, &f, &rec, &audit);
    s.rollback_transaction().unwrap();
    assert_cycle_rows(&mut s, 0);

    s.begin_transaction().unwrap();
    save_cycle(&mut s, &snapshot, &f, &rec, &audit);
    s.commit_transaction().unwrap();
    assert_cycle_rows(&mut s, 1);

    let mut changed_finding = f.clone();
    changed_finding.explanation = Some("transactional update".into());
    let approved = Action {
        stage: ActionStage::Approved,
        ..rec.action.clone()
    };
    let changed_audit = AuditEntry::from_transition(
        &approved,
        ActionStage::Recommended,
        "operator",
        Json::Compound("{}".into()),
    );
    let changed_snapshot = snapshot_at(
        "c1",
        ChannelStatus::Inactive,
        shift(snapshot.ts, (1) * 1),
    );

    s.begin_transaction().unwrap();
    s.save_channel_snapshot(&changed_snapshot).unwrap();
    s.save_finding(&changed_finding).unwrap();
    s.set_action_stage(&rec.action.id, ActionStage::Approved)
        .unwrap();
    s.append_audit(&changed_audit).unwrap();
    s.rollback_transaction().unwrap();

    assert_cycle_rows(&mut s, 1);
    assert_eq!(s.latest_findings(1).unwrap()[0].explanation, None);
    assert_eq!(
        s.recommendation_for_action(&rec.action.id)
            .unwrap()
            .unwrap()
            .action
            .stage,
        ActionStage::Recommended
    );
    assert_eq!(
        s.recent_channel_snapshots("c1", 1).unwrap()[0].status,
        ChannelStatus::Active
    );
}

#[test]
fn memory_transaction_rejects_nested_and_orphan_operations() {
    let mut s = MemoryStorage::new();
    assert!(s.commit_transaction().is_err());
    assert!(s.rollback_transaction().is_err());
    s.begin_transaction().unwrap();
    assert!(s.begin_transaction().is_err());
    s.rollback_transaction().unwrap();
}

#[test]
fn active_finding_updates_last_seen_and_preserves_first_seen() {
    let mut s = MemoryStorage::new();
    let mut f = sample_finding();
    f.lifecycle = FindingLifecycle::Active;

    s.save_finding(&f).unwrap();
    let later = shift(f.last_seen_at, (60) * 1);
    let mut updated = f.clone();
    updated.last_seen_at = later;
    updated.timestamp = later;
    s.save_finding(&updated).unwrap();

    let got = s.latest_findings(10).unwrap();
    assert_eq!(got.len(), 1);
    assert_eq!(
        got[0].first_seen_at, f.first_seen_at,
        "first_seen preserved"
    );
    assert_eq!(got[0].last_seen_at, later, "last_seen advanced");
    assert_eq!(got[0].lifecycle, FindingLifecycle::Active);
}

#[test]
fn resolving_finding_retains_evidence_history() {
    let mut s = MemoryStorage::new();
    let f = sample_finding();
    let evidence = f.evidence.clone();
    s.save_finding(&f).unwrap();
    s.resolve_findings_for_scope(&FindingCycleScope {
        detector: f.detector.clone(),
        network: f.provenance.as_ref().and_then(|p| p.network),
        node: f.node.clone(),
        complete: true,
    })
    .unwrap();
    s.resolve_findings_for_scope(&FindingCycleScope {
        detector: f.detector.clone(),
        network: f.provenance.as_ref().and_then(|p| p.network),
        node: f.node.clone(),
        complete: true,
    })
    .unwrap();
    s.resolve_findings_for_scope(&FindingCycleScope {
        detector: f.detector.clone(),
        network: f.provenance.as_ref().and_then(|p| p.network),
        node: f.node.clone(),
        complete: true,
    })
    .unwrap();

    let got = s.latest_findings(10).unwrap();
    assert_eq!(got.len(), 1);
    assert_eq!(got[0].lifecycle, FindingLifecycle::Resolved);
    assert_eq!(got[0].evidence, evidence, "evidence retained on resolve");
    assert_eq!(got[0].first_seen_at, f.first_seen_at);
}

#[test]
fn stable_updates_ignore_older_replay_and_reactivate_recurrence() {
    let mut storage = MemoryStorage::new();
    let original = sample_finding();
    storage.save_finding(&original).unwrap();
    storage
        .resolve_findings_for_scope(&FindingCycleScope {
            detector: original.detector.clone(),
            network: original.provenance.as_ref().and_then(|p| p.network),
            node: original.node.clone(),
            complete: true,
        })
        .unwrap();

    let later = shift(original.last_seen_at, (1) * 60);
    let mut recurrence = original.clone();
    recurrence.severity = Severity::Warning;
    recurrence.evidence = vec![number("local_ratio", 0.15)];
    recurrence.provenance = Some(FindingProvenance {
        network: Some(BitcoinNetwork::Regtest),
        source: ObservationSource::Fixture {
            redacted_hash: "new-fixture-hash".into(),
            configured_node: "node-1".into(),
        },
        producers: vec![ProducerVersion {
            name: "channel_liquidity".into(),
            version: "1".into(),
            role: ProducerRole::Detector,
        }],
        observation: ObservationReference::ChannelWindow {
            channel_id: "c1".into(),
            snapshots: Vec::new(),
        },
    });
    recurrence.explanation = Some("new evidence".into());
    recurrence.timestamp = later;
    recurrence.last_seen_at = later;
    recurrence.lifecycle = FindingLifecycle::Resolved;
    storage.save_finding(&recurrence).unwrap();

    let mut replay = original.clone();
    replay.severity = Severity::Info;
    replay.evidence = vec![number("local_ratio", 0.99)];
    replay.provenance = None;
    replay.explanation = Some("stale".into());
    replay.timestamp = shift(replay.timestamp, -1 * 60);
    replay.last_seen_at = shift(replay.last_seen_at, -1 * 60);
    replay.first_seen_at = shift(replay.first_seen_at, -2 * 60);
    storage.save_finding(&replay).unwrap();

    let stored = finding_by_id(&mut storage, &original.id);
    assert_eq!(stored.lifecycle, FindingLifecycle::Active);
    assert_eq!(stored.severity, Severity::Warning);
    assert_eq!(stored.evidence, recurrence.evidence);
    assert_eq!(stored.provenance, recurrence.provenance);
    assert_eq!(stored.explanation, recurrence.explanation);
    assert_eq!(stored.timestamp, recurrence.timestamp);
    assert_eq!(stored.last_seen_at, recurrence.last_seen_at);
    assert_eq!(stored.first_seen_at, replay.first_seen_at);
}

#[test]
fn reconciliation_is_complete_cycle_and_scope_isolated() {
    let mut storage = MemoryStorage::new();
    let target = sample_finding();
    let mut other_node = target.clone();
    other_node.id = "other-node".into();
    other_node.node = Some("other".into());
    let mut node_less = target.clone();
    node_less.id = "node-less".into();
    node_less.node = None;
    let mut other_detector = target.clone();
    other_detector.id = "other-detector".into();
    other_detector.detector = "drift".into();
    for finding in [&target, &other_node, &node_less, &other_detector] {
        storage.save_finding(finding).unwrap();
    }

    let mut scope = FindingCycleScope {
        detector: target.detector.clone(),
        network: target.provenance.as_ref().and_then(|p| p.network),
        node: target.node.clone(),
        complete: false,
    };
    storage.resolve_findings_for_scope(&scope).unwrap();
    assert_eq!(
        finding_by_id(&mut storage, &target.id).lifecycle,
        FindingLifecycle::Active
    );

    scope.complete = true;
    storage.resolve_findings_for_scope(&scope).unwrap();
    storage.resolve_findings_for_scope(&scope).unwrap();
    storage.resolve_findings_for_scope(&scope).unwrap();
    assert_eq!(
        finding_by_id(&mut storage, &target.id).lifecycle,
        FindingLifecycle::Resolved
    );
    for id in ["other-node", "node-less", "other-detector"] {
        assert_eq!(
            finding_by_id(&mut storage, id).lifecycle,
            FindingLifecycle::Active
        );
    }
}

#[test]
fn reconciliation_is_network_isolated() {
    let mut storage = MemoryStorage::new();
    let regtest = sample_finding();
    let mut mainnet = regtest.clone();
    mainnet.id = "mainnet-finding".into();
    let provenance = mainnet.provenance.as_mut().unwrap();
    provenance.network = Some(BitcoinNetwork::Mainnet);
    if let ObservationReference::ChannelState { snapshot, .. } = &mut provenance.observation
    {
        snapshot.network = Some(BitcoinNetwork::Mainnet);
    }
    storage.save_finding(&regtest).unwrap();
    storage.save_finding(&mainnet).unwrap();

    for _ in 0..3 {
        storage
            .resolve_findings_for_scope(&FindingCycleScope {
                detector: regtest.detector.clone(),
                network: Some(BitcoinNetwork::Regtest),
                node: regtest.node.clone(),
                complete: true,
            })
            .unwrap();
    }
    assert_eq!(
        finding_by_id(&mut storage, &regtest.id).lifecycle,
        FindingLifecycle::Resolved
    );
    assert_eq!(
        finding_by_id(&mut storage, &mainnet.id).lifecycle,
        FindingLifecycle::Active
    );
}

#[test]
fn complete_cycle_supersedes_prior_detector_version() {
    let mut storage = MemoryStorage::new();
    let old = sample_finding();
    storage.save_finding(&old).unwrap();
    for _ in 0..3 {
        storage
            .resolve_findings_for_scope(&FindingCycleScope {
                detector: old.detector.clone(),
                network: old.provenance.as_ref().and_then(|p| p.network),
                node: old.node.clone(),
                complete: true,
            })
            .unwrap();
    }
    let mut new = old.clone();
    new.id = "version-2".into();
    new.detector_version = "2".into();
    new.last_seen_at = shift(new.last_seen_at, 1 * 60);
    new.timestamp = new.last_seen_at;
    storage.save_finding(&new).unwrap();

    assert_eq!(
        finding_by_id(&mut storage, &old.id).lifecycle,
        FindingLifecycle::Resolved
    );
    assert_eq!(
        finding_by_id(&mut storage, &new.id).lifecycle,
        FindingLifecycle::Active
    );
}

#[test]
fn reconciliation_rolls_back_in_both_backends() {
    let mut storage = MemoryStorage::new();
    let finding = sample_finding();
    storage.save_finding(&finding).unwrap();
    storage.begin_transaction().unwrap();
    storage
        .resolve_findings_for_scope(&FindingCycleScope {
            detector: finding.detector.clone(),
            network: finding.provenance.as_ref().and_then(|p| p.network),
            node: finding.node.clone(),
            complete: true,
        })
        .unwrap();
    storage.rollback_transaction().unwrap();
    assert_eq!(
        finding_by_id(&mut storage, &finding.id).lifecycle,
        FindingLifecycle::Active
    );
}

#[test]
fn simulations_roundtrip() {
    let mut s = MemoryStorage::new();
    let sim = Simulation {
        id: "sim1".into(),
        action_id: "a1".into(),
        finding_id: "f1".into(),
        action_type: ActionType::RebalanceChannel,
        projection: SimulationProjection {
            local_ratio_before: ratio(0.1),
            local_ratio_after: ratio(0.5),
            local_balance_msat_after: 50_000,
            remote_balance_msat_after: 50_000,
            delta_msat: 40_000,
            clears_finding: true,
            summary: "balanced".into(),
        },
        created_at: now(),
    };
    s.save_simulation(&sim).unwrap();
    let got = s.recent_simulations(10).unwrap();
    assert_eq!(got.len(), 1);
    assert_eq!(got[0].id, "sim1");
    assert!(got[0].projection.clears_finding);
    assert_eq!(s.simulations_for_action("a1").unwrap().len(), 1);
    assert_eq!(s.simulations_for_action("zz").unwrap().len(), 0);
}

#[test]
fn operational_state_roundtrips_in_sqlite_and_memory() {
    let state = OperationalState {
        source: SourceState::LndRest { connected: true },
        last_ingestion_attempt: Some(now()),
        last_ingestion_success: Some(now()),
        last_cycle_attempt: Some(now()),
        last_cycle_success: Some(now()),
        last_persist_success: Some(now()),
        source_data_at: Some(now()),
        llm: ComponentState::Configured,
        alert_sink: ComponentState::Failing,
        cleanup: ComponentState::Healthy,
        last_cleanup_attempt: Some(now()),
        last_cleanup_success: Some(now()),
    };
    let row = rieko::codec::encode_operational_state(&state);
    assert_eq!(rieko::codec::decode_operational_state(row).unwrap(), state);

    let mut mem = MemoryStorage::new();
    assert!(mem.read_operational_state().unwrap().is_none());
    mem.write_operational_state(&state).unwrap();
    assert_eq!(mem.read_operational_state().unwrap().unwrap(), state);
    mem.write_operational_state(&OperationalState {
        llm: ComponentState::NotConfigured,
        ..state
    })
    .unwrap();
    let again = mem.read_operational_state().unwrap().unwrap();
    assert_eq!(again.llm, ComponentState::NotConfigured);
}

#[test]
fn alert_state_roundtrips_through_sqlite() {
    let mut s = MemoryStorage::new();
    assert_eq!(s.read("k1").unwrap(), None, "unknown key reads as None");
    let state = AlertState {
        last_sent_at: Some(now()),
        last_severity: Some(Severity::Critical),
        last_status: DeliveryStatus::Success,
    };
    s.write("k1", &state).unwrap();
    let got = s.read("k1").unwrap().unwrap();
    assert_eq!(got.last_severity, Some(Severity::Critical));
    assert_eq!(got.last_status, DeliveryStatus::Success);
    assert!(got.last_sent_at.is_some());
    let row = rieko::codec::encode_alert(&state);
    assert_eq!(rieko::codec::decode_alert(row).unwrap(), state);
}

#[test]
fn alert_state_survives_reopen() {
    let mut s = MemoryStorage::new();
    s.write(
        "k1",
        &AlertState {
            last_sent_at: Some(now()),
            last_severity: Some(Severity::Critical),
            last_status: DeliveryStatus::Success,
        },
    )
    .unwrap();
    assert_eq!(s.read("k1").unwrap().unwrap().last_severity, Some(Severity::Critical));
    let older = AlertState {
        last_sent_at: Some(shift(now(), -7200)),
        last_severity: Some(Severity::Warning),
        last_status: DeliveryStatus::Skipped,
    };
    s.write("k1", &older).unwrap();
    let got = s.read("k1").unwrap().unwrap();
    assert_eq!(got.last_severity, Some(Severity::Warning));
    assert_eq!(got.last_status, DeliveryStatus::Skipped);
}

fn approval() -> (Recommendation, AuditEntry) {
    let rec = test_rec(
        "f1",
        Action::new(
            ActionType::RebalanceChannel,
            ActionStage::Recommended,
            Some("c1".into()),
            Params::Object(vec![]),
            "rebalance c1",
        ),
    );
    let approved = Action { stage: ActionStage::Approved, ..rec.action.clone() };
    let audit = AuditEntry::from_transition(
        &approved,
        ActionStage::Recommended,
        "alice",
        Json::Compound("{}".into()),
    );
    (rec, audit)
}

#[test]
fn audit_state_transition_and_entry_commit_together() {
    let mut s = MemoryStorage::new();
    let (rec, entry) = approval();
    s.save_recommendation(&rec).unwrap();
    let action_id = rec.action.id.clone();
    assert_eq!(
        s.recommendation_for_action(&action_id).unwrap().unwrap().action.stage,
        ActionStage::Recommended
    );
    assert!(s.recent_audit(10).unwrap().is_empty());

    s.begin_transaction().unwrap();
    s.set_action_stage(&action_id, ActionStage::Approved).unwrap();
    s.append_audit(&entry).unwrap();
    s.commit_transaction().unwrap();

    assert_eq!(
        s.recommendation_for_action(&action_id).unwrap().unwrap().action.stage,
        ActionStage::Approved
    );
    let audit = s.recent_audit(10).unwrap();
    assert_eq!(audit.len(), 1);
    assert_eq!(audit[0].action_id, action_id);
    assert_eq!(audit[0].previous_stage, Some(ActionStage::Recommended));
    assert_eq!(audit[0].stage, ActionStage::Approved);
}

#[test]
fn failed_transition_commits_neither_state_nor_audit() {
    let mut s = MemoryStorage::new();
    let (rec, _) = approval();
    s.save_recommendation(&rec).unwrap();
    let action_id = rec.action.id.clone();

    s.begin_transaction().unwrap();
    s.set_action_stage(&action_id, ActionStage::Approved).unwrap();
    s.rollback_transaction().unwrap();

    assert_eq!(
        s.recommendation_for_action(&action_id).unwrap().unwrap().action.stage,
        ActionStage::Recommended,
        "stage must remain Recommended after rollback"
    );
    assert!(s.recent_audit(10).unwrap().is_empty());
}

#[test]
fn saving_a_finding_twice_changes_nothing() {
    let mut s = MemoryStorage::new();
    let f = sample_finding();
    s.save_finding(&f).unwrap();
    let once = s.latest_findings(10).unwrap();
    s.save_finding(&f).unwrap();
    assert_eq!(s.latest_findings(10).unwrap(), once);
}

#[test]
fn first_sightings_carry_over_to_what_is_the_same_thing() {
    let mut s = MemoryStorage::new();
    let f = sample_finding();
    s.save_finding(&f).unwrap();
    let mut later = f.clone();
    later.id = "f2".into();
    later.first_seen_at = shift(f.first_seen_at, 60);
    s.save_finding(&later).unwrap();
    assert_eq!(s.finding_by_id("f2").unwrap().unwrap().first_seen_at, f.first_seen_at);
    assert_eq!(s.finding_by_id("f3").unwrap(), None);
}

#[test]
fn findings_of_another_schema_are_refused() {
    let mut s = MemoryStorage::new();
    let mut f = sample_finding();
    f.schema_version = 3;
    assert_eq!(
        s.save_finding(&f),
        Err(StorageError::Corrupt("unsupported finding schema version 3".into()))
    );
    assert!(s.latest_findings(10).unwrap().is_empty());
}

#[test]
fn findings_are_filtered_by_lifecycle() {
    let mut s = MemoryStorage::new();
    let f = sample_finding();
    s.save_finding(&f).unwrap();
    s.resolve_findings_for_scope(&FindingCycleScope {
        detector: f.detector.clone(),
        network: Some(BitcoinNetwork::Regtest),
        node: f.node.clone(),
        complete: true,
    })
    .unwrap();
    let mut g = f.clone();
    g.id = "g".into();
    s.save_finding(&g).unwrap();
    let ids = |filter| -> Vec<String> {
        s.latest_findings_by_lifecycle(10, filter).unwrap().into_iter().map(|f| f.id).collect()
    };
    assert_eq!(ids(FindingLifecycleFilter::Active), vec!["g"]);
    assert_eq!(ids(FindingLifecycleFilter::Resolved), vec!["f1"]);
    assert_eq!(ids(FindingLifecycleFilter::All), vec!["g", "f1"]);
    assert_eq!(
        s.findings_for_channel_by_lifecycle("c1", 1, FindingLifecycleFilter::All).unwrap()[0].id,
        "g"
    );
}

#[test]
fn saved_recommendations_only_take_over_when_they_changed() {
    let mut s = MemoryStorage::new();
    let (mut rec, _) = approval();
    s.save_recommendation(&rec).unwrap();
    rec.action.summary = "something else".into();
    rec.action.updated_at = shift(rec.action.updated_at, 5);
    s.save_recommendation(&rec).unwrap();
    let got = s.recommendation_for_action(&rec.action.id).unwrap().unwrap();
    assert_eq!(got.action.summary, "rebalance c1");
    assert_eq!(got.action.updated_at, rec.action.updated_at);
}

#[test]
fn counts_are_taken_of_every_table() {
    let mut s = MemoryStorage::default();
    s.save_finding(&sample_finding()).unwrap();
    s.save_simulation_v2(&simulation_record("a")).unwrap();
    s.save_channel_snapshot(&snapshot_at("c1", ChannelStatus::Active, now())).unwrap();
    assert_eq!(
        s.counts().unwrap(),
        StorageCounts {
            findings: 1,
            recommendations: 0,
            simulations: 1,
            audit: 0,
            channel_snapshots: 1
        }
    );
    assert_eq!(s.schema_version().unwrap(), CURRENT_SCHEMA_VERSION);
    assert!(s.integrity_check().is_ok());
}

#[test]
fn duplicate_simulation_events_are_refused() {
    let mut s = MemoryStorage::new();
    let event = SimulationEvent {
        id: "e".into(),
        simulation_id: "s".into(),
        status: "completed".into(),
        error_code: None,
        timestamp: "2023-11-14T22:14:20Z".into(),
    };
    s.append_simulation_event(&event).unwrap();
    assert_eq!(
        s.append_simulation_event(&event),
        Err(StorageError::Backend("duplicate simulation event e".into()))
    );
}

#[test]
fn the_latest_run_with_an_input_is_found() {
    let mut s = MemoryStorage::new();
    let mut refused = simulation_record("refused");
    refused.status = "stale".into();
    refused.projection = Json::Null;
    s.save_simulation_v2(&refused).unwrap();
    let mut done = simulation_record("done");
    done.created_at = "2023-11-14T22:14:30Z".into();
    s.save_simulation_v2(&done).unwrap();
    assert_eq!(
        s.simulation_v2_by_input_hash(&done.input_hash).unwrap().unwrap().id,
        "done"
    );
    assert_eq!(s.simulation_v2_by_input_hash("").unwrap(), None);
    assert_eq!(s.simulations_v2_for_action("a1").unwrap().len(), 2);
    let err = s.save_simulation_v2(&simulation_record("again")).unwrap_err();
    assert_eq!(
        err,
        StorageError::Backend(format!("simulation input {} already exists", done.input_hash))
    );
}

fn event() -> NodeEvent {
    NodeEvent::InvoiceExpired(InvoiceExpiredEvent {
        id: "invoice-1".into(),
        store_id: Some("store-1".into()),
        amount_msat: None,
        timestamp: Timestamp { secs: 1_700_000_000, nanos: 0 },
    })
}

#[test]
fn normalized_webhook_event_survives_reopen_until_processed() {
    let accepted_at = Timestamp { secs: 1_700_000_001, nanos: 0 };

    let mut reopened = MemoryStorage::new();
    {
        let storage = &mut reopened;
        assert_eq!(storage.schema_version().unwrap(), CURRENT_SCHEMA_VERSION);
        storage
            .enqueue_webhook_event(
                "delivery-1",
                Some("webhook-1"),
                Some("InvoiceExpired"),
                &event(),
                accepted_at,
            )
            .unwrap();
    }

    let pending = reopened.pending_webhook_events(10).unwrap();
    assert_eq!(pending.len(), 1);
    assert_eq!(pending[0].delivery_id, "delivery-1");
    assert_eq!(pending[0].event, event());
    assert_eq!(pending[0].accepted_at, accepted_at);

    reopened.begin_transaction().unwrap();
    reopened
        .mark_webhook_event_processed("delivery-1", now())
        .unwrap();
    reopened.rollback_transaction().unwrap();
    assert_eq!(reopened.pending_webhook_events(10).unwrap().len(), 1);

    reopened.begin_transaction().unwrap();
    reopened
        .mark_webhook_event_processed("delivery-1", now())
        .unwrap();
    reopened.commit_transaction().unwrap();
    assert!(reopened.pending_webhook_events(10).unwrap().is_empty());
}

#[test]
fn duplicate_enqueue_preserves_the_original_normalized_event() {
    let mut storage = MemoryStorage::new();
    let accepted_at = Timestamp { secs: 1_700_000_001, nanos: 0 };
    storage
        .enqueue_webhook_event(
            "delivery-1",
            Some("webhook-1"),
            Some("InvoiceExpired"),
            &event(),
            accepted_at,
        )
        .unwrap();
    let replacement = NodeEvent::InvoiceExpired(InvoiceExpiredEvent {
        id: "different-invoice".into(),
        store_id: Some("store-1".into()),
        amount_msat: None,
        timestamp: accepted_at,
    });
    storage
        .enqueue_webhook_event(
            "delivery-1",
            Some("webhook-1"),
            Some("InvoiceExpired"),
            &replacement,
            now(),
        )
        .unwrap();

    let pending = storage.pending_webhook_events(10).unwrap();
    assert_eq!(pending.len(), 1);
    assert_eq!(pending[0].event, event());
    assert_eq!(pending[0].accepted_at, accepted_at);
}

#[test]
fn processed_history_returns_the_latest_events_in_acceptance_order() {
    let mut storage = MemoryStorage::new();
    for index in 0..4 {
        let delivery_id = format!("delivery-{index}");
        let accepted_at = Timestamp { secs: 1_700_000_000 + index, nanos: 0 };
        let event = NodeEvent::InvoiceExpired(InvoiceExpiredEvent {
            id: format!("invoice-{index}"),
            store_id: Some("store-1".into()),
            amount_msat: None,
            timestamp: accepted_at,
        });
        storage
            .enqueue_webhook_event(
                &delivery_id,
                Some("webhook-1"),
                Some("InvoiceExpired"),
                &event,
                accepted_at,
            )
            .unwrap();
        storage
            .mark_webhook_event_processed(&delivery_id, accepted_at)
            .unwrap();
    }

    let history = storage.recent_processed_webhook_events(2).unwrap();
    assert_eq!(
        history
            .iter()
            .map(|record| record.delivery_id.as_str())
            .collect::<Vec<_>>(),
        ["delivery-2", "delivery-3"]
    );
    assert!(history.iter().all(|record| record.processed_at.is_some()));
}

#[test]
fn legacy_row_does_not_bridge_first_seen_across_unknown_network() {
    let mut storage = MemoryStorage::new();
    let mut legacy = sample_finding();
    legacy.id = "legacy-id".into();
    legacy.schema_version = 1;
    legacy.provenance = None;
    legacy.timestamp = Timestamp { secs: 1_577_836_800, nanos: 0 };
    legacy.first_seen_at = legacy.timestamp;
    legacy.last_seen_at = legacy.timestamp;
    storage.save_finding(&legacy).unwrap();

    let mut current = sample_finding();
    current.id = "stable-v2-id".into();
    storage.save_finding(&current).unwrap();
    let legacy = finding_by_id(&mut storage, "legacy-id");
    let bridged = finding_by_id(&mut storage, "stable-v2-id");
    assert_eq!(legacy.provenance, None);
    assert_eq!(legacy.schema_version, 1);
    assert_eq!(bridged.first_seen_at, current.first_seen_at);
    assert_ne!(bridged.first_seen_at, legacy.first_seen_at);
    assert_eq!(bridged.provenance, current.provenance);
}
