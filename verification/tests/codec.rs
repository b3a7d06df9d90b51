use rieko::action::{
    Action, ActionStage, ActionType, AuditEntry, Rationale, Recommendation,
};
use rieko::codec::{
    count_absence, decode_alert, decode_audit, decode_finding, decode_operational_state,
    decode_recommendation, decode_simulation, decode_simulation_event, decode_simulation_record,
    decode_snapshot, encode_audit, encode_finding, encode_operational_state,
    encode_recommendation, encode_simulation, encode_snapshot, parse_component,
    parse_delivery_status, parse_source, severity_from_int, severity_to_int, status_from_i64,
    validate_rfc3339, validate_simulation_event, validate_simulation_record,
    validate_simulation_status, AlertRow, AuditRow, FindingRow, RecommendationRow, RecordRow,
    SimulationRow, SnapshotRow,
};
use rieko::domain::{BitcoinNetwork, ChannelSnapshot, ChannelStatus};
use rieko::finding::{
    ChannelSnapshotReference, Evidence, Finding, FindingLifecycle, FindingProvenance,
    ObservationReference, ObservationSource, Severity, FINDING_SCHEMA_VERSION,
};
use rieko::json::{Json, Params};
use rieko::ratio::Ratio;
use rieko::records::{
    count_simulations, SimulationEvent, SimulationRecord, StatusCount, StorageError,
};
use rieko::simulator::{Simulation, SimulationProjection};
use rieko::status::{ComponentState, OperationalState, SourceState};
use rieko::time::Timestamp;
use sha2::{Digest, Sha256};

fn at(secs: i64) -> Timestamp {
    Timestamp { secs, nanos: 123_456_789 }
}

fn ratio(r: f64) -> Ratio {
    Ratio { bits: r.to_bits() }
}

fn sample_finding() -> Finding {
    let now = at(1_700_000_000);
    Finding {
        id: "f1".into(),
        detector: "channel_liquidity".into(),
        detector_version: "1".into(),
        schema_version: FINDING_SCHEMA_VERSION,
        severity: Severity::Critical,
        node: Some("local-node".into()),
        channel: Some("c1".into()),
        evidence: vec![Evidence::number("local_ratio", 0.02f64.to_bits(), "0.02")],
        provenance: Some(FindingProvenance {
            network: Some(BitcoinNetwork::Regtest),
            source: ObservationSource::Fixture {
                redacted_hash: "fixture-hash".into(),
                configured_node: "node-1".into(),
            },
            producers: vec![],
            observation: ObservationReference::ChannelState {
                channel_id: "c1".into(),
                snapshot: ChannelSnapshotReference {
                    network: Some(BitcoinNetwork::Regtest),
                    observed_at: now,
                    state_digest: "state-hash".into(),
                },
            },
        }),
        explanation: None,
        timestamp: now,
        first_seen_at: now,
        last_seen_at: now,
        lifecycle: FindingLifecycle::Active,
    }
}

fn finding_row() -> FindingRow {
    let f = sample_finding();
    let provenance = f.provenance.clone();
    let mut row = encode_finding(&f, Some("{}".into()));
    row.evidence = Ok(f.evidence);
    row.provenance_read = Ok(provenance);
    row
}

fn recommendation() -> Recommendation {
    Recommendation {
        finding_id: "f1".into(),
        action: Action::made_at(
            "a1".into(),
            ActionType::RebalanceChannel,
            ActionStage::Recommended,
            Some("c1".into()),
            Params::Object(vec![]),
            "rebalance",
            at(1_700_000_000),
        ),
        rationale: Rationale::default(),
    }
}

fn recommendation_row() -> RecommendationRow {
    encode_recommendation(&recommendation())
}

fn audit_row() -> AuditRow {
    AuditRow {
        id: "audit".into(),
        action_id: "action".into(),
        action_type: "rebalance_channel".into(),
        previous_stage: Some("Recommended".into()),
        stage: "Approved".into(),
        actor: "operator".into(),
        details: Ok(Json::Compound("{}".into())),
        ts: "2023-11-14T22:15:20Z".into(),
    }
}

fn snapshot() -> ChannelSnapshot {
    ChannelSnapshot {
        node_id: Some("local-node".into()),
        network: Some(BitcoinNetwork::Regtest),
        state_digest: Some("digest-c1".into()),
        channel_id: "c1".into(),
        local_ratio: ratio(0.5),
        local_balance_msat: 500_000,
        remote_balance_msat: 500_000,
        capacity_msat: 1_000_000,
        status: ChannelStatus::Active,
        ts: at(1_700_000_000),
        spendable_outbound_msat: 0,
        spendable_inbound_msat: 0,
    }
}

fn snapshot_row() -> SnapshotRow {
    encode_snapshot(&snapshot())
}

const CANONICAL: &str = r#"{"action_type":"RebalanceChannel","destination_snapshot":{"capacity_msat":1000000,"channel_id":"c2","local_balance_msat":700000,"local_ratio":0.7,"node_id":"local-node","remote_balance_msat":300000,"spendable_inbound_msat":290000,"spendable_outbound_msat":690000,"status":"Active","ts":"2023-11-14T22:13:20Z"},"finding_channel":"c1","finding_id":"f1","model_id":"liquidity-redistribution","model_version":"2","node_id":"local-node","parameters":{"amount_msat":50000,"destination_channel":"c2","source_channel":"c1"},"provenance":{"observation":{"channel_id":"c1","kind":"channel_state","snapshot":{"observed_at":"2023-11-14T22:13:20Z","state_digest":"state-hash"}},"producers":[],"source":{"kind":"fixture","redacted_hash":"fixture-hash"}},"recommendation_id":"a1","recommendation_target":"c1","source_snapshot":{"capacity_msat":1000000,"channel_id":"c1","local_balance_msat":200000,"local_ratio":0.2,"node_id":"local-node","remote_balance_msat":800000,"spendable_inbound_msat":790000,"spendable_outbound_msat":190000,"status":"Active","ts":"2023-11-14T22:13:20Z"}}"#;

const PROJECTION: &str = r#"{"assumptions":[],"baseline":{"capacity_msat":1000000,"local_balance_msat":200000,"local_ratio":0.2,"remote_balance_msat":800000},"confidence":"medium","deltas":[],"input_hash":"HASH","model_id":"liquidity-redistribution","model_version":"2","projected":{"capacity_msat":1000000,"local_balance_msat":150000,"local_ratio":0.15,"remote_balance_msat":850000},"warnings":[]}"#;

fn simulation_record(id: &str) -> SimulationRecord {
    let mut hash = Sha256::new();
    hash.update(b"rieko-simulation-input-v3");
    hash.update((CANONICAL.len() as u64).to_be_bytes());
    hash.update(CANONICAL.as_bytes());
    let input_hash = hex::encode(hash.finalize());
    SimulationRecord {
        id: id.into(),
        action_id: "a1".into(),
        finding_id: "f1".into(),
        action_type: "rebalance_channel".into(),
        status: "completed".into(),
        model_id: "liquidity-redistribution".into(),
        model_version: "2".into(),
        input_hash: input_hash.clone(),
        confidence: "medium".into(),
        assumptions: Json::Compound("[]".into()),
        warnings: Json::Compound("[]".into()),
        explanation: String::new(),
        canonical_input: Json::Compound(CANONICAL.into()),
        projection: Json::Compound(PROJECTION.replace("HASH", &input_hash)),
        source_observed_at: Some("2023-11-14T22:13:20Z".into()),
        requested_at: "2023-11-14T22:14:20Z".into(),
        completed_at: Some("2023-11-14T22:14:20Z".into()),
        error_code: None,
        created_at: "2023-11-14T22:14:20Z".into(),
    }
}

fn record_row() -> RecordRow {
    let r = simulation_record("sim-v2");
    RecordRow {
        id: r.id,
        action_id: r.action_id,
        finding_id: r.finding_id,
        action_type: r.action_type,
        status: r.status,
        model_id: r.model_id,
        model_version: r.model_version,
        input_hash: r.input_hash,
        confidence: r.confidence,
        assumptions: Ok(r.assumptions),
        warnings: Ok(r.warnings),
        explanation: r.explanation,
        projection: Ok(r.projection),
        created_at: r.created_at,
        canonical_input: Ok(r.canonical_input),
        source_observed_at: r.source_observed_at,
        requested_at: r.requested_at,
        completed_at: r.completed_at,
        error_code: r.error_code,
    }
}

#[test]
fn component_state_decodes_configured() {
    assert_eq!(parse_component("configured").unwrap(), ComponentState::Configured);
    assert!(parse_component("unknown").is_err());
}

#[test]
fn corrupt_simulation_json_hash_and_timestamp_fail_loudly() {
    assert_eq!(decode_simulation_record(record_row()).unwrap(), simulation_record("sim-v2"));

    let mut row = record_row();
    row.canonical_input = Err("expected ident".into());
    assert!(decode_simulation_record(row).is_err(), "canonical_input decoded silently");
    let mut row = record_row();
    row.projection = Err("expected ident".into());
    assert!(decode_simulation_record(row).is_err(), "projection decoded silently");
    let mut row = record_row();
    row.input_hash = "abcd".into();
    assert!(decode_simulation_record(row).is_err(), "input_hash decoded silently");
    let mut row = record_row();
    row.requested_at = "not-a-time".into();
    assert!(decode_simulation_record(row).is_err(), "requested_at decoded silently");
    let mut row = record_row();
    row.status = "executed".into();
    assert!(decode_simulation_record(row).is_err(), "status decoded silently");
}

#[test]
fn malformed_recommendation_fields_return_corrupt() {
    assert_eq!(decode_recommendation(recommendation_row()).unwrap(), recommendation());
    let mut rows = vec![];
    let mut row = recommendation_row();
    row.stage = "unknown".into();
    rows.push(row);
    let mut row = recommendation_row();
    row.action_type = "unknown".into();
    rows.push(row);
    let mut row = recommendation_row();
    row.params = Err("not json".into());
    rows.push(row);
    let mut row = recommendation_row();
    row.rationale = Err("not json".into());
    rows.push(row);
    let mut row = recommendation_row();
    row.created_at = "not-a-time".into();
    rows.push(row);
    let mut row = recommendation_row();
    row.updated_at = "not-a-time".into();
    rows.push(row);
    for row in rows {
        let error = decode_recommendation(row).unwrap_err();
        assert!(matches!(error.into_storage_error(), StorageError::Corrupt(_)));
    }
}

#[test]
fn malformed_audit_fields_return_corrupt() {
    let entry = decode_audit(audit_row()).unwrap();
    assert_eq!(entry.previous_stage, Some(ActionStage::Recommended));
    assert_eq!(entry.timestamp, Timestamp { secs: 1_700_000_120, nanos: 0 });
    for column in ["stage", "previous_stage", "action_type", "details", "ts"] {
        let mut row = audit_row();
        match column {
            "stage" => row.stage = "unknown".into(),
            "previous_stage" => row.previous_stage = Some("unknown".into()),
            "action_type" => row.action_type = "unknown".into(),
            "details" => row.details = Err("not json".into()),
            _ => row.ts = "not-a-time".into(),
        }
        let error = decode_audit(row).unwrap_err();
        assert!(matches!(error.into_storage_error(), StorageError::Corrupt(_)));
    }
}

#[test]
fn malformed_snapshot_identity_and_status_return_corrupt() {
    assert_eq!(decode_snapshot(snapshot_row()).unwrap(), snapshot());
    let mut row = snapshot_row();
    row.network_id = Some("unknown-network".into());
    assert!(matches!(
        decode_snapshot(row).unwrap_err().into_storage_error(),
        StorageError::Corrupt(_)
    ));
    let mut row = snapshot_row();
    row.status_int = 99;
    assert!(matches!(
        decode_snapshot(row).unwrap_err().into_storage_error(),
        StorageError::Corrupt(_)
    ));
}

#[test]
fn malformed_operational_timestamp_fails_loudly() {
    let mut row = encode_operational_state(&OperationalState::default());
    row.last_ingestion_attempt = Some("not-a-timestamp".into());
    assert!(decode_operational_state(row).is_err());
}

#[test]
fn malformed_alert_timestamp_fails_loudly() {
    let row = AlertRow {
        last_sent_at: Some("not-a-timestamp".into()),
        last_severity: None,
        last_status: "none".into(),
    };
    assert!(decode_alert(row).is_err());
}

#[test]
fn malformed_finding_enums_schema_and_provenance_fail_loudly() {
    assert_eq!(decode_finding(finding_row()).unwrap(), sample_finding());
    let mut row = finding_row();
    row.severity = 99;
    assert!(decode_finding(row).is_err(), "severity decoded silently");
    let mut row = finding_row();
    row.lifecycle = "unknown".into();
    assert!(decode_finding(row).is_err(), "lifecycle decoded silently");
    let mut row = finding_row();
    row.schema_version = 3;
    assert!(decode_finding(row).is_err(), "schema_version decoded silently");
    let mut row = finding_row();
    row.provenance_read = Err("not json".into());
    assert!(decode_finding(row).is_err(), "provenance decoded silently");
}

#[test]
fn malformed_evidence_fails_loudly_none_serialized_empty() {
    let mut row = finding_row();
    row.evidence = Err("not json".into());
    let error = decode_finding(row).unwrap_err().into_storage_error();
    assert!(matches!(error, StorageError::Backend(_) | StorageError::Corrupt(_)));
}

#[test]
fn malformed_timestamp_fails_loudly() {
    let mut row = finding_row();
    row.ts = "not-a-timestamp".into();
    let error = decode_finding(row).unwrap_err().into_storage_error();
    assert!(
        matches!(error, StorageError::Backend(_) | StorageError::Corrupt(_)),
        "invalid persisted timestamp must error, not fall back to the present"
    );
}

#[test]
fn rows_read_back_what_was_written() {
    let entry = AuditEntry {
        id: "e".into(),
        action_id: "a".into(),
        action_type: ActionType::Custom,
        previous_stage: None,
        stage: ActionStage::Failed,
        actor: "system".into(),
        details: Json::Compound("{}".into()),
        timestamp: at(0),
    };
    assert_eq!(decode_audit(encode_audit(&entry)).unwrap(), entry);
    let sim = Simulation {
        id: "sim1".into(),
        action_id: "a1".into(),
        finding_id: "f1".into(),
        action_type: ActionType::RebalanceChannel,
        projection: SimulationProjection {
            local_ratio_before: ratio(0.1),
            local_ratio_after: ratio(0.5),
            local_balance_msat_after: 50_000,
            remote_balance_msat_after: 50_000,
            delta_msat: 40_000,
            clears_finding: true,
            summary: "balanced".into(),
        },
        created_at: at(1_700_000_000),
    };
    let row: SimulationRow = encode_simulation(&sim);
    assert_eq!(decode_simulation(row).unwrap(), sim);
}

#[test]
fn times_from_the_year_zero_to_the_year_9999_read_back() {
    for secs in [-62_167_219_200, -2_208_988_801, -1, 0, 253_402_300_799] {
        let written = ChannelSnapshot { ts: at(secs), ..snapshot() };
        let read = decode_snapshot(encode_snapshot(&written)).unwrap();
        assert_eq!(read.ts, at(secs));
    }
    for secs in [-62_167_219_201, 253_402_300_800] {
        let written = ChannelSnapshot { ts: at(secs), ..snapshot() };
        assert!(decode_snapshot(encode_snapshot(&written)).is_err());
    }
}

#[test]
fn simulations_from_before_inputs_were_stored_can_be_read() {
    let mut row = record_row();
    row.model_id = "legacy".into();
    row.model_version = "0".into();
    row.input_hash = String::new();
    row.confidence = "unknown".into();
    row.canonical_input = Ok(Json::Null);
    row.source_observed_at = None;
    let bridged = decode_simulation_record(row).unwrap();
    assert_eq!(bridged.model_id, "legacy");
    assert!(bridged.canonical_input.is_null());
}

#[test]
fn stored_simulations_must_agree_with_themselves() {
    let good = simulation_record("sim");
    assert!(validate_simulation_record(&good).is_ok());
    let mut bad = simulation_record("sim");
    bad.action_id = "other".into();
    assert_eq!(
        validate_simulation_record(&bad),
        Err(StorageError::Corrupt(
            "canonical simulation input recommendation_id disagrees with record".into()
        ))
    );
    let mut bad = simulation_record("sim");
    bad.confidence = "low".into();
    assert_eq!(
        validate_simulation_record(&bad),
        Err(StorageError::Corrupt("simulation projection metadata disagrees with record".into()))
    );
    let mut bad = simulation_record("sim");
    bad.source_observed_at = Some("2023-11-14T22:13:21Z".into());
    assert_eq!(
        validate_simulation_record(&bad),
        Err(StorageError::Corrupt(
            "simulation source timestamp 2023-11-14 22:13:21 +00:00 disagrees with canonical input 2023-11-14 22:13:20 +00:00".into()
        ))
    );
    let mut bad = simulation_record("sim");
    bad.projection = Json::Null;
    assert_eq!(
        validate_simulation_record(&bad),
        Err(StorageError::Corrupt(
            "completed simulation has no deterministic projection".into()
        ))
    );
    let mut bad = simulation_record("sim");
    bad.status = "failed".into();
    assert_eq!(
        validate_simulation_record(&bad),
        Err(StorageError::Corrupt("failed simulation must not contain a projection".into()))
    );
}

#[test]
fn events_must_have_a_status_and_a_time() {
    let mut event = SimulationEvent {
        id: "e".into(),
        simulation_id: "s".into(),
        status: "completed".into(),
        error_code: None,
        timestamp: "2023-11-14T22:14:20Z".into(),
    };
    assert!(validate_simulation_event(&event).is_ok());
    assert_eq!(decode_simulation_event(event.clone()).unwrap(), event);
    event.timestamp = "soon".into();
    assert!(validate_simulation_event(&event).is_err());
    event.timestamp = "2023-11-14T22:14:20Z".into();
    event.status = "executed".into();
    assert!(validate_simulation_event(&event).is_err());
    assert!(validate_simulation_status("executed").is_err());
}

#[test]
fn numbers_stand_for_severities_and_statuses() {
    for severity in [Severity::Info, Severity::Warning, Severity::Critical] {
        assert_eq!(severity_from_int(severity_to_int(severity)), Ok(severity));
    }
    assert!(severity_from_int(3).is_err());
    assert_eq!(status_from_i64(1), Ok(ChannelStatus::Active));
    assert!(status_from_i64(9).is_err());
    assert!(parse_delivery_status("none").is_ok());
    assert!(parse_delivery_status("lost").is_err());
}

#[test]
fn sources_are_read_with_their_connection() {
    assert_eq!(parse_source("fixture", None), Ok(SourceState::Fixture));
    assert_eq!(parse_source("lnd_rest", Some(1)), Ok(SourceState::LndRest { connected: true }));
    assert_eq!(parse_source("lnd_rest", Some(0)), Ok(SourceState::LndRest { connected: false }));
    assert!(parse_source("carrier pigeon", None).is_err());
}

#[test]
fn times_are_told_from_other_texts() {
    assert!(validate_rfc3339("x", "2023-11-14T22:13:20Z").is_ok());
    assert_eq!(
        validate_rfc3339("x", "no"),
        Err(StorageError::Corrupt(
            "invalid x \"no\": premature end of input".into()
        ))
    );
}

#[test]
fn the_third_absence_resolves() {
    assert_eq!(count_absence(0), (FindingLifecycle::Active, 1));
    assert_eq!(count_absence(1), (FindingLifecycle::Active, 2));
    assert_eq!(count_absence(2), (FindingLifecycle::Resolved, 0));
    assert_eq!(count_absence(7), (FindingLifecycle::Resolved, 0));
}

#[test]
fn simulations_are_counted_by_their_status() {
    let rows = [("completed", 3u64), ("failed", 2), ("stale", 1), ("unsupported", 4), ("requested", 5)]
        .iter()
        .map(|(status, count)| StatusCount { status: status.to_string(), count: *count })
        .collect();
    let counts = count_simulations(&rows);
    assert_eq!(
        (counts.completed, counts.failed, counts.stale, counts.other),
        (3, 6, 1, 5)
    );
}

#[test]
fn leap_seconds_read_back() {
    let leap = Timestamp { secs: 1_483_228_799, nanos: 1_123_456_789 };
    let state = OperationalState {
        last_ingestion_attempt: Some(leap),
        source_data_at: Some(Timestamp { nanos: 1_000_000_000, ..leap }),
        ..OperationalState::default()
    };
    let row = encode_operational_state(&state);
    assert_eq!(decode_operational_state(row).unwrap(), state);
    let written = ChannelSnapshot { ts: leap, ..snapshot() };
    let row = encode_snapshot(&written);
    assert_eq!(row.ts, "2016-12-31T23:59:60.123456789+00:00");
    assert_eq!(decode_snapshot(row).unwrap().ts, leap);
    assert!(rieko::codec::is_writable(&leap));
    assert!(!rieko::codec::is_writable(&Timestamp { secs: 0, nanos: 1_000_000_000 }));
    assert!(!rieko::codec::is_writable(&Timestamp { nanos: 2_000_000_000, ..leap }));
}
