use rieko::finding::{Evidence, Finding, FindingLifecycle, Severity, FINDING_SCHEMA_VERSION};
use rieko::llm::{
    build_explanation_prompt, check_status, check_timeouts, explanation_from, request_body,
    settings_from_env, ExplainRequest, LlmClient, LlmError, NullClient, DEFAULT_CONNECT_SECS,
    DEFAULT_MODEL, DEFAULT_REQUEST_SECS,
};
use rieko::time::{Period, Timestamp};

fn number(key: &str, value: f64) -> Evidence {
    Evidence::number(key, value.to_bits(), &serde_json::Value::from(value).to_string())
}

fn finding() -> Finding {
    let now = Timestamp { secs: 1_700_000_000, nanos: 0 };
    Finding {
        id: "f".into(),
        detector: "channel_liquidity".into(),
        detector_version: "1".into(),
        schema_version: FINDING_SCHEMA_VERSION,
        severity: Severity::Critical,
        node: Some("local".into()),
        channel: Some("c1".into()),
        evidence: vec![Evidence::text("direction", "outbound"), number("local_ratio", 0.02)],
        provenance: None,
        explanation: None,
        timestamp: now,
        first_seen_at: now,
        last_seen_at: now,
        lifecycle: FindingLifecycle::Active,
    }
}

#[test]
fn null_client_returns_none() {
    let c = NullClient;
    let f = finding();
    let req = ExplainRequest { finding: &f, context: None };
    assert_eq!(c.explain(&req).unwrap(), None);
}

#[test]
fn prompt_includes_evidence_and_asks_for_structure() {
    let p = build_explanation_prompt(&finding(), Some("lnd 0.18.5"));
    assert!(p.contains("channel_liquidity"));
    assert!(p.contains("local_ratio"));
    assert!(p.contains("0.02"));
    assert!(p.contains("lnd 0.18.5"));
}

#[test]
fn prompts_keep_their_wording() {
    assert_eq!(
        build_explanation_prompt(&finding(), Some("lnd 0.18.5")),
        "A detector named `channel_liquidity` raised a Critical finding.\n\
         Context: lnd 0.18.5\n\
         Evidence:\n- direction: \"outbound\"\n- local_ratio: 0.02\n\
         Write a 2-3 sentence explanation for a node operator. Start with what \
         is abnormal, then the likely operational impact, then the recommended \
         next step. Cite the evidence numbers."
    );
}

#[test]
fn zero_timeouts_are_rejected() {
    let zero = Period { secs: 0, nanos: 0 };
    let error = check_timeouts(zero, Period::from_secs(1)).unwrap_err();
    assert!(error.to_text().contains("connect timeout"));

    let error = check_timeouts(Period::from_secs(1), zero).unwrap_err();
    assert!(error.to_text().contains("request timeout"));
}

#[test]
fn default_constructor_builds_a_client() {
    assert!(check_timeouts(
        Period::from_secs(DEFAULT_CONNECT_SECS),
        Period::from_secs(DEFAULT_REQUEST_SECS)
    )
    .is_ok());
}

#[test]
fn prompt_is_deterministic() {
    let mut f = finding();
    f.evidence = vec![number("local_ratio", 0.5)];
    let a = build_explanation_prompt(&f, Some("ctx"));
    let b = build_explanation_prompt(&f, Some("ctx"));
    assert_eq!(a, b);
}

#[test]
fn answers_are_read() {
    let body = r#"{"choices":[{"message":{"content":"  low on funds \n"}}]}"#;
    assert_eq!(explanation_from(body).unwrap().as_deref(), Some("  low on funds \n"));
    assert_eq!(
        explanation_from(r#"{"choices":[]}"#),
        Err(LlmError::Response("no choices/0/message/content".into()))
    );
    assert!(matches!(explanation_from("no json"), Err(LlmError::Transport(_))));
}

#[test]
fn bodies_are_documents() {
    let body = request_body("m", "say \"hi\"\n");
    let v: serde_json::Value = serde_json::from_str(&body).unwrap();
    assert_eq!(v["model"], "m");
    assert!(v["messages"].to_string().contains("say \\\"hi\\\"\\n"));
}

#[test]
fn statuses_are_judged() {
    assert!(check_status(200, "200 OK").is_ok());
    assert!(check_status(503, "503 Service Unavailable").is_err());
}

#[test]
fn settings_come_from_the_environment() {
    assert_eq!(settings_from_env(Ok(None), None, None).unwrap(), None);
    let settings =
        settings_from_env(Ok(Some("http://llm.example/v1".into())), Some("key".into()), None)
            .unwrap()
            .unwrap();
    assert_eq!(settings.endpoint, "http://llm.example/v1");
    assert_eq!(settings.api_key.as_deref(), Some("key"));
    assert_eq!(settings.model, DEFAULT_MODEL);
}
