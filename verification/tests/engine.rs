use rieko::action::{ActionStage, ActionType, Actionability};
use rieko::engine::{
    evidence_refs, validate_common, RecommendationEngine, RecommendationEngineError,
};
use rieko::finding::{Evidence, Finding, FindingLifecycle, Severity, FINDING_SCHEMA_VERSION};
use rieko::json::{Json, Params};
use rieko::time::Timestamp;

fn double(value: f64) -> Json {
    Json::Real { bits: value.to_bits(), text: serde_json::Value::from(value).to_string() }
}

fn number(key: &str, value: f64) -> Evidence {
    Evidence::number(key, value.to_bits(), &serde_json::Value::from(value).to_string())
}

fn now() -> Timestamp {
    Timestamp { secs: 1_700_000_000, nanos: 0 }
}

fn finding(channel: &str, direction: &str, severity: Severity) -> Finding {
    Finding {
        id: "f1".into(),
        detector: "channel_liquidity".into(),
        detector_version: "1".into(),
        schema_version: FINDING_SCHEMA_VERSION,
        severity,
        node: Some("local-node".into()),
        channel: Some(channel.into()),
        evidence: vec![
            Evidence::text("direction", direction),
            number("local_ratio", 0.1),
            number("local_balance_msat", 100_000.0),
            number("remote_balance_msat", 900_000.0),
            number("capacity_msat", 1_000_000.0),
            Evidence::text("peer", "peer-1"),
        ],
        provenance: None,
        explanation: None,
        timestamp: now(),
        first_seen_at: now(),
        last_seen_at: now(),
        lifecycle: FindingLifecycle::Active,
    }
}

fn trend_finding() -> Finding {
    Finding {
        id: "f2".into(),
        detector: "liquidity_trend".into(),
        detector_version: "2".into(),
        schema_version: FINDING_SCHEMA_VERSION,
        severity: Severity::Warning,
        node: Some("local-node".into()),
        channel: Some("c2".into()),
        evidence: vec![
            Evidence::text("direction", "draining"),
            number("start_ratio", 0.35),
            number("current_ratio", 0.24),
            number("decline", 0.11),
            number("min_in_window", 0.24),
            number("window", 12.0),
            Evidence::text("peer", "peer-1"),
        ],
        provenance: None,
        explanation: None,
        timestamp: now(),
        first_seen_at: now(),
        last_seen_at: now(),
        lifecycle: FindingLifecycle::Active,
    }
}

fn set_evidence(finding: &mut Finding, key: &str, value: Json) {
    finding.evidence.iter_mut().find(|e| e.key == key).unwrap().value = value;
}

#[test]
fn outbound_suggests_a_modest_rebalance_review() {
    let engine = RecommendationEngine;
    let recs = engine.recommend(&finding("c1", "outbound", Severity::Warning)).unwrap();
    assert_eq!(recs.len(), 1);
    assert_eq!(recs[0].action.action_type, ActionType::RebalanceChannel);
    assert_eq!(recs[0].action.stage, ActionStage::Recommended);
    assert_eq!(recs[0].action.target.as_deref(), Some("c1"));
}

#[test]
fn inbound_suggests_fee_review_and_rebalance_review() {
    let engine = RecommendationEngine;
    let recs = engine.recommend(&finding("c1", "inbound", Severity::Warning)).unwrap();
    assert_eq!(recs.len(), 2);
    assert_eq!(recs[0].action.action_type, ActionType::UpdateFeePolicy);
    assert_eq!(recs[1].action.action_type, ActionType::RebalanceChannel);
}

#[test]
fn unknown_detector_is_rejected() {
    let engine = RecommendationEngine;
    let mut f = finding("c1", "outbound", Severity::Warning);
    f.detector = "magic".into();
    assert!(matches!(
        engine.recommend(&f),
        Err(RecommendationEngineError::UnsupportedDetector { detector, .. })
            if detector == "magic"
    ));
}

#[test]
fn all_supported_typed_paths_produce_actions() {
    let engine = RecommendationEngine;
    for version in ["1", "2"] {
        for direction in ["outbound", "inbound"] {
            for severity in [Severity::Warning, Severity::Critical] {
                let mut f = finding("c1", direction, severity);
                f.detector_version = version.into();
                if version == "2" {
                    f.evidence.push(number("severity_threshold", 0.05));
                }
                assert!(!engine.recommend(&f).unwrap().is_empty());
            }
        }

        for severity in [Severity::Warning, Severity::Critical] {
            let mut f = trend_finding();
            f.detector_version = version.into();
            f.severity = severity;
            assert!(!engine.recommend(&f).unwrap().is_empty());
        }
    }
}

#[test]
fn v1_liquidity_evidence_remains_compatible() {
    let f = finding("c1", "outbound", Severity::Warning);
    assert_eq!(f.detector_version, "1");
    assert!(f.evidence_value("severity_threshold").is_none());
    assert_eq!(RecommendationEngine.recommend(&f).unwrap().len(), 1);
}

#[test]
fn v2_liquidity_requires_its_added_evidence() {
    let mut f = finding("c1", "outbound", Severity::Warning);
    f.detector_version = "2".into();
    assert!(matches!(
        RecommendationEngine.recommend(&f),
        Err(RecommendationEngineError::MissingEvidence { key: "severity_threshold", .. })
    ));
    f.evidence.push(number("severity_threshold", 0.05));
    assert!(!RecommendationEngine.recommend(&f).unwrap().is_empty());
}

#[test]
fn unsupported_versions_and_ineligible_findings_are_rejected() {
    let engine = RecommendationEngine;
    let base = finding("c1", "outbound", Severity::Warning);

    let mut f = base.clone();
    f.detector_version = "3".into();
    assert!(matches!(
        engine.recommend(&f),
        Err(RecommendationEngineError::UnsupportedDetectorVersion { .. })
    ));

    for schema_version in [0, FINDING_SCHEMA_VERSION + 1] {
        let mut f = base.clone();
        f.schema_version = schema_version;
        assert!(matches!(
            engine.recommend(&f),
            Err(RecommendationEngineError::UnsupportedSchemaVersion { .. })
        ));
    }

    let mut f = base.clone();
    f.lifecycle = FindingLifecycle::Resolved;
    assert!(matches!(
        engine.recommend(&f),
        Err(RecommendationEngineError::InactiveFinding { .. })
    ));

    let mut f = base;
    f.severity = Severity::Info;
    assert!(matches!(
        engine.recommend(&f),
        Err(RecommendationEngineError::UnsupportedSeverity { .. })
    ));
}

#[test]
fn missing_or_empty_channel_is_rejected() {
    let engine = RecommendationEngine;
    let mut f = finding("c1", "outbound", Severity::Warning);
    f.channel = None;
    assert!(matches!(
        engine.recommend(&f),
        Err(RecommendationEngineError::MissingChannel { .. })
    ));

    f.channel = Some("  ".into());
    assert!(matches!(
        engine.recommend(&f),
        Err(RecommendationEngineError::EmptyChannel { .. })
    ));
}

#[test]
fn evidence_keys_must_be_nonempty_and_unique() {
    let engine = RecommendationEngine;
    let mut f = finding("c1", "outbound", Severity::Warning);
    f.evidence.push(Evidence::text(" ", "value"));
    assert!(matches!(
        engine.recommend(&f),
        Err(RecommendationEngineError::EmptyEvidenceKey { .. })
    ));

    let mut f = finding("c1", "outbound", Severity::Warning);
    f.evidence.push(Evidence::text("direction", "inbound"));
    assert!(matches!(
        engine.recommend(&f),
        Err(RecommendationEngineError::DuplicateEvidenceKey { key, .. })
            if key == "direction"
    ));
}

#[test]
fn liquidity_required_evidence_is_fail_closed() {
    let required = [
        "direction",
        "local_ratio",
        "local_balance_msat",
        "remote_balance_msat",
        "capacity_msat",
        "peer",
    ];
    for key in required {
        let mut f = finding("c1", "outbound", Severity::Warning);
        f.evidence.retain(|e| e.key != key);
        assert!(matches!(
            RecommendationEngine.recommend(&f),
            Err(RecommendationEngineError::MissingEvidence { key: missing, .. })
                if missing == key
        ));
    }

    let mut f = finding("c1", "outbound", Severity::Warning);
    set_evidence(&mut f, "local_ratio", double(1.01));
    assert!(matches!(
        RecommendationEngine.recommend(&f),
        Err(RecommendationEngineError::InvalidEvidence { key: "local_ratio", .. })
    ));

    let mut f = finding("c1", "outbound", Severity::Warning);
    set_evidence(&mut f, "capacity_msat", Json::Unsigned(0));
    assert!(matches!(
        RecommendationEngine.recommend(&f),
        Err(RecommendationEngineError::InvalidEvidence { key: "capacity_msat", .. })
    ));

    let f = finding("c1", "sideways", Severity::Warning);
    assert!(matches!(
        RecommendationEngine.recommend(&f),
        Err(RecommendationEngineError::UnknownDirection { .. })
    ));
}

#[test]
fn trend_required_evidence_and_window_are_fail_closed() {
    let required = [
        "direction",
        "start_ratio",
        "current_ratio",
        "decline",
        "min_in_window",
        "window",
        "peer",
    ];
    for key in required {
        let mut f = trend_finding();
        f.evidence.retain(|e| e.key != key);
        assert!(matches!(
            RecommendationEngine.recommend(&f),
            Err(RecommendationEngineError::MissingEvidence { key: missing, .. })
                if missing == key
        ));
    }

    for invalid in [Json::Unsigned(0), Json::Negative(-1), double(1.5)] {
        let mut f = trend_finding();
        set_evidence(&mut f, "window", invalid);
        assert!(matches!(
            RecommendationEngine.recommend(&f),
            Err(RecommendationEngineError::InvalidEvidence { key: "window", .. })
        ));
    }

    let mut f = trend_finding();
    set_evidence(&mut f, "direction", Json::Text("growing".into()));
    assert!(matches!(
        RecommendationEngine.recommend(&f),
        Err(RecommendationEngineError::UnknownDirection { .. })
    ));

    let mut f = trend_finding();
    set_evidence(&mut f, "decline", Json::Text("0.11".into()));
    assert!(matches!(
        RecommendationEngine.recommend(&f),
        Err(RecommendationEngineError::InvalidEvidence { key: "decline", .. })
    ));
}

#[test]
fn same_finding_produces_same_recommendation() {
    let engine = RecommendationEngine;
    let f = finding("c1", "outbound", Severity::Warning);
    let a = engine.recommend(&f).unwrap();
    let b = engine.recommend(&f).unwrap();
    for (x, y) in a.iter().zip(b.iter()) {
        assert_eq!(x.action.id, y.action.id);
        assert_eq!(x.action.action_type, y.action.action_type);
        assert_eq!(x.action.target, y.action.target);
        assert_eq!(x.action.params, y.action.params);
        assert_eq!(x.action.summary, y.action.summary);
        assert_eq!(x.rationale, y.rationale);
    }
    assert_eq!(a.len(), b.len());
    assert_eq!(engine.recommend_at(&f, now()).unwrap(), engine.recommend_at(&f, now()).unwrap());
}

#[test]
fn no_unsupported_mutation_parameter_appears() {
    let engine = RecommendationEngine;
    let mut all_recommendations = Vec::new();
    for direction in ["outbound", "inbound"] {
        for severity in [Severity::Warning, Severity::Critical] {
            all_recommendations
                .extend(engine.recommend(&finding("c1", direction, severity)).unwrap());
        }
    }
    all_recommendations.extend(engine.recommend(&trend_finding()).unwrap());

    for rec in all_recommendations {
        let params = &rec.action.params;
        for banned in [
            "desired_ratio",
            "fee_rate_ppm",
            "base_fee_msat",
            "cltv_delta",
            "method",
            "chan_point",
        ] {
            assert!(
                params.get(banned).is_none(),
                "banned mutation parameter {banned} in {params:?}"
            );
        }
    }
}

#[test]
fn recommendation_preserves_finding_provenance() {
    let engine = RecommendationEngine;
    let f = finding("c1", "outbound", Severity::Warning);
    let recs = engine.recommend(&f).unwrap();
    for rec in recs {
        assert_eq!(rec.finding_id, f.id);
        assert_eq!(rec.action.stage, ActionStage::Recommended);
    }
}

#[test]
fn critical_severity_does_not_generate_executable_advice() {
    let engine = RecommendationEngine;
    let recs = engine.recommend(&finding("c1", "inbound", Severity::Critical)).unwrap();
    assert_eq!(recs.len(), 2);
    for rec in &recs {
        let params = &rec.action.params;
        let empty = match params {
            Params::Object(members) => members.is_empty(),
            Params::Other(_) => true,
        };
        assert!(empty || params.get_str("reason").is_some());
        assert!(params.get("desired_ratio").is_none() && params.get("fee_rate_ppm").is_none());
    }
}

#[test]
fn llm_disabled_yields_a_complete_structured_recommendation() {
    let engine = RecommendationEngine;
    let recs = engine.recommend(&finding("c1", "outbound", Severity::Warning)).unwrap();
    let r = &recs[0].rationale;
    assert!(!r.evidence.is_empty(), "evidence references required");
    assert!(!r.preconditions.is_empty(), "preconditions required");
    assert!(!r.expected_effect.is_empty(), "expected effect required");
    assert!(!r.risks.is_empty(), "risks required");
    assert!(!r.limitations.is_empty(), "limitations required");
    assert_eq!(
        r.actionability,
        Actionability::OperatorActionable,
        "modest advice is operator-actionable"
    );
}

#[test]
fn llm_text_cannot_alter_action_type_or_parameters() {
    let engine = RecommendationEngine;
    let mut with_explanation = finding("c1", "outbound", Severity::Warning);
    with_explanation.explanation = Some("the LLM says splice in and set fee 1".into());
    let recs = engine.recommend(&with_explanation).unwrap();
    assert_eq!(recs[0].action.action_type, ActionType::RebalanceChannel);
    assert!(
        recs[0].action.params.get("desired_ratio").is_none()
            && recs[0].action.params.get("fee_rate_ppm").is_none(),
        "LLM text must not smuggle in execution parameters"
    );
}

#[test]
fn drift_trend_produces_modest_investigation_recommendation() {
    let finding = trend_finding();
    let engine = RecommendationEngine;
    let recs = engine.recommend(&finding).unwrap();
    assert_eq!(recs.len(), 1);
    assert_eq!(recs[0].action.action_type, ActionType::RebalanceChannel);
    assert_eq!(recs[0].action.stage, ActionStage::Recommended);
    assert_eq!(recs[0].action.target.as_deref(), Some("c2"));
    let summary = &recs[0].action.summary;
    assert!(summary.contains("c2"), "summary must mention channel");
    assert!(summary.contains("0.35"), "summary must include start ratio");
    assert!(summary.contains("0.24"), "summary must include current ratio");
}

#[test]
fn settlement_reliability_produces_rebalance_recommendation() {
    let finding = Finding {
        id: "settlement-finding-1".into(),
        detector: "settlement_reliability".into(),
        detector_version: "1".into(),
        schema_version: FINDING_SCHEMA_VERSION,
        severity: Severity::Critical,
        node: Some("node-test".into()),
        channel: Some("chan-bottleneck".into()),
        evidence: vec![
            number("expired_invoices", 4.0),
            number("settled_invoices", 1.0),
            number("total_invoices", 5.0),
            number("failure_rate", 0.80),
            number("drained_channels_count", 1.0),
            number("inactive_channels_count", 0.0),
            Evidence::string("chain_synchronized", "true"),
            Evidence::string("diagnosis", "lightning_settlement_degraded"),
            Evidence::string("root_cause", "lightning_operational_degradation"),
        ],
        provenance: None,
        explanation: Some("Degraded settlement reliability".into()),
        timestamp: now(),
        first_seen_at: now(),
        last_seen_at: now(),
        lifecycle: FindingLifecycle::Active,
    };

    let engine = RecommendationEngine;
    let recs = engine.recommend(&finding).unwrap();
    assert_eq!(recs.len(), 1);
    let rec = &recs[0];
    assert_eq!(rec.action.action_type, ActionType::RebalanceChannel);
    assert_eq!(rec.action.stage, ActionStage::Recommended);
    assert_eq!(rec.action.target.as_deref(), Some("chan-bottleneck"));
    assert!(rec.action.summary.contains("chan-bottleneck"));
    assert!(rec.action.summary.contains("80.0% failure rate"));
    assert_eq!(rec.rationale.actionability, Actionability::OperatorActionable);
}

#[test]
fn failure_rates_are_shown_like_the_standard_library_does() {
    for rate in [0.0, 0.001, 0.0005, 0.12345, 0.3333333, 0.66666, 0.9995, 0.99949, 1.0] {
        let mut f = finding("c1", "outbound", Severity::Critical);
        f.detector = "settlement_reliability".into();
        f.evidence = vec![
            number("expired_invoices", 4.0),
            number("settled_invoices", 1.0),
            number("total_invoices", 5.0),
            number("failure_rate", rate),
            number("drained_channels_count", 1.0),
            number("inactive_channels_count", 0.0),
            Evidence::string("chain_synchronized", "true"),
            Evidence::string("diagnosis", "lightning_settlement_degraded"),
            Evidence::string("root_cause", "lightning_operational_degradation"),
        ];
        let recs = RecommendationEngine.recommend(&f).unwrap();
        let expected = format!("{:.1}% failure rate", rate * 100.0);
        assert!(
            recs[0].action.summary.contains(&expected),
            "{} does not hold {}",
            recs[0].action.summary,
            expected
        );
    }
}

#[test]
fn objections_read_well() {
    let mut f = finding("c1", "outbound", Severity::Warning);
    f.schema_version = 9;
    let error = validate_common(&f).unwrap_err();
    assert_eq!(
        error.to_text(),
        "cannot recommend for finding f1: unsupported finding schema version 9 (current 2)"
    );
    f.schema_version = 2;
    assert!(validate_common(&f).is_ok());
    assert_eq!(evidence_refs(&f).len(), 6);
}
