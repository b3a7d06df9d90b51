//! What the pipeline knows of its own operation, and the verdict on it.
use crate::time::{Span, Timestamp};
use vstd::prelude::*;

verus! {

/// What kind of source feeds the pipeline, and whether it can be reached.
#[derive(Debug, Clone, Copy, PartialEq, Eq, Structural)]
pub enum SourceState {
    /// A file, which is always there once it was read.
    Fixture,
    /// A live LND node.
    LndRest { connected: bool },
    /// A live BTCPay server.
    BtcPayGreenfield { connected: bool },
}

impl Default for SourceState {
    fn default() -> (r: SourceState)
        ensures
            r == SourceState::Fixture,
    {
        SourceState::Fixture
    }
}

impl SourceState {
    /// Whether the source can be reached.
    pub open spec fn reached(self) -> bool {
        match self {
            SourceState::Fixture => true,
            SourceState::LndRest { connected } => connected,
            SourceState::BtcPayGreenfield { connected } => connected,
        }
    }

    /// Whether the source can be reached.
    pub fn connected(&self) -> (r: bool)
        ensures
            r == self.reached(),
    {
        match self {
            SourceState::Fixture => true,
            SourceState::LndRest { connected } => *connected,
            SourceState::BtcPayGreenfield { connected } => *connected,
        }
    }

    /// What the source is called.
    pub open spec fn name(self) -> Seq<char> {
        match self {
            SourceState::Fixture => "fixture"@,
            SourceState::LndRest { .. } => "lnd_rest"@,
            SourceState::BtcPayGreenfield { .. } => "btcpay_greenfield"@,
        }
    }

    /// What the source is called.
    pub fn as_str(&self) -> (r: &'static str)
        ensures
            r@ == self.name(),
    {
        match self {
            SourceState::Fixture => "fixture",
            SourceState::LndRest { .. } => "lnd_rest",
            SourceState::BtcPayGreenfield { .. } => "btcpay_greenfield",
        }
    }
}

/// The state of an optional component.
#[derive(Debug, Clone, Copy, PartialEq, Eq, Structural)]
pub enum ComponentState {
    /// Not set up, which is no problem.
    NotConfigured,
    /// Set up, but not tried yet.
    Configured,
    /// Set up and working.
    Healthy,
    /// Set up, but failing.
    Failing,
}

impl DeepView for ComponentState {
    type V = ComponentState;

    open spec fn deep_view(&self) -> ComponentState {
        *self
    }
}

impl ComponentState {
    /// What the state is called.
    pub open spec fn name(self) -> Seq<char> {
        match self {
            ComponentState::NotConfigured => "not_configured"@,
            ComponentState::Configured => "configured"@,
            ComponentState::Healthy => "healthy"@,
            ComponentState::Failing => "failing"@,
        }
    }

    /// What the state is called.
    pub fn as_str(&self) -> (r: &'static str)
        ensures
            r@ == self.name(),
    {
        match self {
            ComponentState::NotConfigured => "not_configured",
            ComponentState::Configured => "configured",
            ComponentState::Healthy => "healthy",
            ComponentState::Failing => "failing",
        }
    }
}

/// The verdict on the whole.
#[derive(Debug, Clone, Copy, PartialEq, Eq, Structural)]
pub enum OverallState {
    /// Nothing was ever ingested.
    NotInitialized,
    /// All is as it should be.
    Healthy,
    /// It works, but not as it should.
    Degraded,
    /// It does not work.
    Unhealthy,
}

impl DeepView for OverallState {
    type V = OverallState;

    open spec fn deep_view(&self) -> OverallState {
        *self
    }
}

impl OverallState {
    /// What the verdict is called.
    pub open spec fn name(self) -> Seq<char> {
        match self {
            OverallState::NotInitialized => "not_initialized"@,
            OverallState::Healthy => "healthy"@,
            OverallState::Degraded => "degraded"@,
            OverallState::Unhealthy => "unhealthy"@,
        }
    }

    /// What the verdict is called.
    pub fn as_str(&self) -> (r: &'static str)
        ensures
            r@ == self.name(),
    {
        match self {
            OverallState::NotInitialized => "not_initialized",
            OverallState::Healthy => "healthy",
            OverallState::Degraded => "degraded",
            OverallState::Unhealthy => "unhealthy",
        }
    }
}

/// What the pipeline keeps of its own operation: one record of constant size.
#[derive(Debug, Clone, Copy, PartialEq, Eq, Structural)]
pub struct OperationalState {
    pub source: SourceState,
    pub last_ingestion_attempt: Option<Timestamp>,
    pub last_ingestion_success: Option<Timestamp>,
    pub last_cycle_attempt: Option<Timestamp>,
    pub last_cycle_success: Option<Timestamp>,
    pub last_persist_success: Option<Timestamp>,
    /// The newest moment that the source has data of.
    pub source_data_at: Option<Timestamp>,
    pub llm: ComponentState,
    pub alert_sink: ComponentState,
    pub cleanup: ComponentState,
    pub last_cleanup_attempt: Option<Timestamp>,
    pub last_cleanup_success: Option<Timestamp>,
}

/// The state of a pipeline that has done nothing yet.
pub open spec fn untouched() -> OperationalState {
    OperationalState {
        source: SourceState::Fixture,
        last_ingestion_attempt: None,
        last_ingestion_success: None,
        last_cycle_attempt: None,
        last_cycle_success: None,
        last_persist_success: None,
        source_data_at: None,
        llm: ComponentState::NotConfigured,
        alert_sink: ComponentState::NotConfigured,
        cleanup: ComponentState::NotConfigured,
        last_cleanup_attempt: None,
        last_cleanup_success: None,
    }
}

impl Default for OperationalState {
    fn default() -> (r: OperationalState)
        ensures
            r == untouched(),
    {
        OperationalState {
            source: SourceState::Fixture,
            last_ingestion_attempt: None,
            last_ingestion_success: None,
            last_cycle_attempt: None,
            last_cycle_success: None,
            last_persist_success: None,
            source_data_at: None,
            llm: ComponentState::NotConfigured,
            alert_sink: ComponentState::NotConfigured,
            cleanup: ComponentState::NotConfigured,
            last_cleanup_attempt: None,
            last_cleanup_success: None,
        }
    }
}

/// Why an operational state cannot be read or written.
#[derive(Debug, PartialEq, Eq)]
pub enum OperationalStateError {
    Store(String),
}

impl OperationalStateError {
    /// What the error says.
    pub fn to_text(&self) -> (r: String)
        ensures
            match self {
                OperationalStateError::Store(s) => r@ == "operational state storage failure: "@
                    + s@,
            },
    {
        match self {
            OperationalStateError::Store(s) => "operational state storage failure: ".to_owned().concat(
                s.as_str(),
            ),
        }
    }
}

/// What the verdict goes by.
#[derive(Debug, Clone, Copy, PartialEq, Eq, Structural)]
pub struct HealthPolicy {
    /// How old the source's data may be.
    pub freshness: Span,
}

/// How old the source's data may be, in seconds, where nothing else is set.
pub const DEFAULT_FRESHNESS_SECS: i64 = 7200;

impl Default for HealthPolicy {
    fn default() -> (r: HealthPolicy)
        ensures
            r.freshness == (Span { secs: DEFAULT_FRESHNESS_SECS, nanos: 0 }),
    {
        HealthPolicy { freshness: Span::seconds(DEFAULT_FRESHNESS_SECS) }
    }
}

/// Whether the pipeline works, but not as it should: its last attempt to ingest
/// failed, its data is too old, or a component that is set up fails.
pub open spec fn degraded(
    state: OperationalState,
    policy: HealthPolicy,
    now: Timestamp,
    last_success: Timestamp,
) -> bool {
    ||| state.last_ingestion_attempt is Some && state.last_ingestion_attempt->0.order()
        > last_success.order()
    ||| state.source_data_at is Some && now.since(state.source_data_at->0)
        > policy.freshness.length()
    ||| state.llm == ComponentState::Failing
    ||| state.alert_sink == ComponentState::Failing
}

/// The verdict on an operational state.
pub open spec fn verdict(
    state: OperationalState,
    policy: HealthPolicy,
    now: Timestamp,
    db_integrity_ok: bool,
) -> OverallState {
    if !db_integrity_ok {
        OverallState::Unhealthy
    } else {
        match state.last_ingestion_success {
            None => if state.source.reached() {
                OverallState::NotInitialized
            } else {
                OverallState::Unhealthy
            },
            Some(last_success) => if degraded(state, policy, now, last_success) {
                OverallState::Degraded
            } else {
                OverallState::Healthy
            },
        }
    }
}

/// The verdict on an operational state.
///
/// Unhealthy: the database failed its check, or nothing was ever ingested and a
/// live source never connected. Not initialized: nothing was ever ingested.
/// Degraded: the last attempt to ingest failed, the data is too old, or a
/// component that is set up fails. Healthy: none of these.
pub fn assess(
    state: &OperationalState,
    policy: &HealthPolicy,
    now: Timestamp,
    db_integrity_ok: bool,
) -> (r: OverallState)
    ensures
        r == verdict(*state, *policy, now, db_integrity_ok),
{
    if !db_integrity_ok {
        return OverallState::Unhealthy;
    }
    let last_success = match state.last_ingestion_success {
        Some(t) => t,
        None => {
            if state.source.connected() {
                return OverallState::NotInitialized;
            }
            return OverallState::Unhealthy;
        },
    };
    if let Some(attempt) = state.last_ingestion_attempt {
        if last_success.is_before(&attempt) {
            return OverallState::Degraded;
        }
    }
    if let Some(data_at) = state.source_data_at {
        if now.is_more_than_after(&policy.freshness, &data_at) {
            return OverallState::Degraded;
        }
    }
    if state.llm == ComponentState::Failing || state.alert_sink == ComponentState::Failing {
        return OverallState::Degraded;
    }
    OverallState::Healthy
}

/// A database that failed its check is never anything but unhealthy.
pub proof fn lemma_broken_database_is_unhealthy(
    state: OperationalState,
    policy: HealthPolicy,
    now: Timestamp,
)
    ensures
        verdict(state, policy, now, false) == OverallState::Unhealthy,
{
}

/// A pipeline that never ingested anything is never healthy.
pub proof fn lemma_no_data_is_never_healthy(
    state: OperationalState,
    policy: HealthPolicy,
    now: Timestamp,
    db_integrity_ok: bool,
)
    requires
        state.last_ingestion_success is None,
    ensures
        verdict(state, policy, now, db_integrity_ok) != OverallState::Healthy,
        verdict(state, policy, now, db_integrity_ok) != OverallState::Degraded,
{
}

/// A degraded pipeline of which nothing new is known stays degraded as its data
/// grows older.
pub proof fn lemma_degraded_stays_degraded(
    state: OperationalState,
    policy: HealthPolicy,
    now: Timestamp,
    later: Timestamp,
)
    requires
        state.last_ingestion_success is Some,
        state.source_data_at is Some ==> now.since(state.source_data_at->0) <= later.since(
            state.source_data_at->0,
        ),
        verdict(state, policy, now, true) == OverallState::Degraded,
    ensures
        verdict(state, policy, later, true) == OverallState::Degraded,
{
}

/// A pipeline is healthy exactly if its database passed the check, something was
/// ingested, no later attempt is known, the data is no older than the policy
/// allows, and neither the language model nor the alert sink fails. Moments are
/// taken to lie in no leap second.
pub proof fn lemma_what_healthy_means(
    state: OperationalState,
    policy: HealthPolicy,
    now: Timestamp,
    db_integrity_ok: bool,
)
    requires
        now.nanos < 1_000_000_000,
        state.source_data_at is Some ==> state.source_data_at->0.nanos < 1_000_000_000,
    ensures
        verdict(state, policy, now, db_integrity_ok) == OverallState::Healthy <==> {
            &&& db_integrity_ok
            &&& state.last_ingestion_success is Some
            &&& match state.last_ingestion_attempt {
                Some(attempt) => attempt.secs < state.last_ingestion_success->0.secs || (
                attempt.secs == state.last_ingestion_success->0.secs && attempt.nanos
                    <= state.last_ingestion_success->0.nanos),
                None => true,
            }
            &&& match state.source_data_at {
                Some(at) => (now.secs - at.secs) * 1_000_000_000 + (now.nanos - at.nanos)
                    <= policy.freshness.secs * 1_000_000_000 + policy.freshness.nanos,
                None => true,
            }
            &&& !(state.llm is Failing)
            &&& !(state.alert_sink is Failing)
        },
{
}

/// A pipeline with a sound database is degraded exactly if something was ingested
/// and it is not healthy. Where nothing was, a source out of reach makes it
/// unhealthy; a fixture is always in reach.
pub proof fn lemma_what_the_other_verdicts_mean(
    state: OperationalState,
    policy: HealthPolicy,
    now: Timestamp,
)
    ensures
        ({
            let v = verdict(state, policy, now, true);
            &&& v == OverallState::Degraded || v == OverallState::Healthy
                <==> state.last_ingestion_success is Some
            &&& v == OverallState::Unhealthy <==> state.last_ingestion_success is None && (match
                state.source {
                SourceState::Fixture => false,
                SourceState::LndRest { connected } => !connected,
                SourceState::BtcPayGreenfield { connected } => !connected,
            })
        }),
{
}

/// The cleanup has no say in the verdict, nor has the source once something was
/// ingested.
pub proof fn lemma_cleanup_has_no_say(
    a: OperationalState,
    b: OperationalState,
    policy: HealthPolicy,
    now: Timestamp,
    db_integrity_ok: bool,
)
    requires
        a.last_ingestion_success is Some,
        a.last_ingestion_success == b.last_ingestion_success,
        a.last_ingestion_attempt == b.last_ingestion_attempt,
        a.source_data_at == b.source_data_at,
        a.llm == b.llm,
        a.alert_sink == b.alert_sink,
    ensures
        verdict(a, policy, now, db_integrity_ok) == verdict(b, policy, now, db_integrity_ok),
{
}

} // verus!
