use rieko::status::{
    assess, ComponentState, HealthPolicy, OperationalState, OperationalStateError, OverallState,
    SourceState,
};
use rieko::time::Timestamp;

fn now() -> Timestamp {
    let t = chrono::Utc::now();
    Timestamp { secs: t.timestamp(), nanos: t.timestamp_subsec_nanos() }
}

fn before(t: Timestamp, secs: i64) -> Timestamp {
    Timestamp { secs: t.secs - secs, nanos: t.nanos }
}

fn base() -> OperationalState {
    OperationalState::default()
}

#[test]
fn empty_fresh_db_is_not_initialized_not_healthy() {
    let policy = HealthPolicy::default();
    let now = now();
    assert_eq!(assess(&base(), &policy, now, true), OverallState::NotInitialized);
    assert_ne!(assess(&base(), &policy, now, true), OverallState::Healthy);
}

#[test]
fn healthy_after_successful_recent_ingestion() {
    let policy = HealthPolicy::default();
    let now = now();
    let mut s = base();
    s.source = SourceState::Fixture;
    s.last_ingestion_attempt = Some(before(now, 10));
    s.last_ingestion_success = Some(before(now, 10));
    s.source_data_at = Some(before(now, 5));
    assert_eq!(assess(&s, &policy, now, true), OverallState::Healthy);
}

#[test]
fn stale_data_is_degraded() {
    let policy = HealthPolicy::default();
    let now = now();
    let mut s = base();
    s.last_ingestion_success = Some(before(now, 10));
    s.source_data_at = Some(before(now, 10 * 3600));
    assert_eq!(assess(&s, &policy, now, true), OverallState::Degraded);
}

#[test]
fn latest_ingestion_failed_but_recent_data_is_degraded() {
    let policy = HealthPolicy::default();
    let now = now();
    let mut s = base();
    s.last_ingestion_success = Some(before(now, 60));
    s.last_ingestion_attempt = Some(before(now, 5));
    s.source_data_at = Some(before(now, 5));
    assert_eq!(assess(&s, &policy, now, true), OverallState::Degraded);
}

#[test]
fn database_failure_is_unhealthy() {
    let policy = HealthPolicy::default();
    let now = now();
    let mut s = base();
    s.last_ingestion_success = Some(before(now, 10));
    assert_eq!(assess(&s, &policy, now, false), OverallState::Unhealthy);
}

#[test]
fn llm_absent_by_choice_is_not_degraded() {
    let policy = HealthPolicy::default();
    let now = now();
    let mut s = base();
    s.last_ingestion_success = Some(before(now, 10));
    s.source_data_at = Some(before(now, 5));
    s.llm = ComponentState::NotConfigured;
    assert_eq!(assess(&s, &policy, now, true), OverallState::Healthy);
}

#[test]
fn configured_llm_failing_is_degraded() {
    let policy = HealthPolicy::default();
    let now = now();
    let mut s = base();
    s.last_ingestion_success = Some(before(now, 10));
    s.source_data_at = Some(before(now, 5));
    s.llm = ComponentState::Failing;
    assert_eq!(assess(&s, &policy, now, true), OverallState::Degraded);
}

#[test]
fn telegram_configured_and_failing_is_degraded() {
    let policy = HealthPolicy::default();
    let now = now();
    let mut s = base();
    s.last_ingestion_success = Some(before(now, 10));
    s.source_data_at = Some(before(now, 5));
    s.alert_sink = ComponentState::Failing;
    assert_eq!(assess(&s, &policy, now, true), OverallState::Degraded);
}

#[test]
fn never_connected_live_source_is_unhealthy() {
    let policy = HealthPolicy::default();
    let now = now();
    let mut s = base();
    s.source = SourceState::LndRest { connected: false };
    assert_eq!(assess(&s, &policy, now, true), OverallState::Unhealthy);
}

#[test]
fn data_is_fresh_up_to_the_limit() {
    let policy = HealthPolicy::default();
    let now = now();
    let mut s = base();
    s.last_ingestion_success = Some(before(now, 10));
    s.source_data_at = Some(before(now, 7200));
    assert_eq!(assess(&s, &policy, now, true), OverallState::Healthy);
    s.source_data_at = Some(before(now, 7201));
    assert_eq!(assess(&s, &policy, now, true), OverallState::Degraded);
}

#[test]
fn states_have_names() {
    assert_eq!(OverallState::NotInitialized.as_str(), "not_initialized");
    assert_eq!(ComponentState::Configured.as_str(), "configured");
    assert_eq!(SourceState::LndRest { connected: true }.as_str(), "lnd_rest");
    assert!(SourceState::LndRest { connected: true }.connected());
    assert!(!SourceState::LndRest { connected: false }.connected());
    assert!(OperationalStateError::Store("gone".into()).to_text().contains("gone"));
}
