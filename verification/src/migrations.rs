//! The steps by which a stored database reaches the current schema.
use crate::records::{StorageError, StorageErrorView, CURRENT_SCHEMA_VERSION};
use crate::text;
use crate::text::i64_text;
use vstd::prelude::*;

verus! {

/// One step: the statements that lead to `version`.
#[derive(Debug, Clone, Copy, PartialEq, Eq)]
pub struct Migration {
    pub version: i64,
    pub sql: &'static str,
}

/// The first tables.
pub const V1_SCHEMA: &'static str = "
CREATE TABLE IF NOT EXISTS findings (
    id          TEXT PRIMARY KEY,
    detector    TEXT NOT NULL,
    severity    INTEGER NOT NULL,
    node_id     TEXT,
    channel_id  TEXT,
    evidence    TEXT NOT NULL,
    explanation TEXT,
    ts          TEXT NOT NULL,
    last_seen   TEXT
);
CREATE INDEX IF NOT EXISTS idx_findings_ts ON findings (ts DESC);
CREATE INDEX IF NOT EXISTS idx_findings_channel ON findings (channel_id);

CREATE TABLE IF NOT EXISTS recommendations (
    finding_id   TEXT NOT NULL,
    action_id    TEXT PRIMARY KEY,
    action_type  TEXT NOT NULL,
    stage        TEXT NOT NULL,
    target       TEXT,
    params       TEXT NOT NULL,
    summary      TEXT NOT NULL,
    created_at   TEXT NOT NULL,
    updated_at   TEXT NOT NULL
);

CREATE TABLE IF NOT EXISTS audit (
    id          TEXT PRIMARY KEY,
    action_id   TEXT NOT NULL,
    action_type TEXT NOT NULL,
    stage       TEXT NOT NULL,
    actor       TEXT NOT NULL,
    details     TEXT NOT NULL,
    ts          TEXT NOT NULL
);
CREATE INDEX IF NOT EXISTS idx_audit_ts ON audit (ts DESC);

CREATE TABLE IF NOT EXISTS channel_snapshots (
    channel_id        TEXT NOT NULL,
    ts                TEXT NOT NULL,
    local_ratio       REAL NOT NULL,
    local_balance_msat INTEGER,
    remote_balance_msat INTEGER,
    capacity_msat     INTEGER,
    status_int        INTEGER NOT NULL,
    PRIMARY KEY (channel_id, ts)
);
CREATE INDEX IF NOT EXISTS idx_snapshots_channel_ts
    ON channel_snapshots (channel_id, ts DESC);

CREATE TABLE IF NOT EXISTS simulations (
    id          TEXT PRIMARY KEY,
    action_id   TEXT NOT NULL,
    finding_id  TEXT NOT NULL,
    action_type TEXT NOT NULL,
    projection  TEXT NOT NULL,
    created_at  TEXT NOT NULL
);
CREATE INDEX IF NOT EXISTS idx_simulations_action
    ON simulations (action_id);
CREATE INDEX IF NOT EXISTS idx_simulations_ts
    ON simulations (created_at DESC);

CREATE TABLE IF NOT EXISTS alert_state (
    dedup_key      TEXT PRIMARY KEY,
    last_sent_at   TEXT,
    last_severity  INTEGER,
    last_status    TEXT NOT NULL
);

CREATE TABLE IF NOT EXISTS operational_state (
    id                      TEXT PRIMARY KEY,
    source                  TEXT NOT NULL,
    source_connected        INTEGER,
    last_ingestion_attempt  TEXT,
    last_ingestion_success  TEXT,
    last_cycle_attempt      TEXT,
    last_cycle_success      TEXT,
    last_persist_success    TEXT,
    source_data_at          TEXT,
    llm                     TEXT NOT NULL,
    alert_sink              TEXT NOT NULL
);
";

/// When findings were first and last seen, their versions and their lifecycle.
/// Rows from before were seen when they were made.
pub const V2_FINDING_METADATA: &'static str = "
ALTER TABLE findings ADD COLUMN last_seen_at TEXT;
ALTER TABLE findings ADD COLUMN first_seen_at TEXT;
ALTER TABLE findings ADD COLUMN detector_version TEXT NOT NULL DEFAULT '1';
ALTER TABLE findings ADD COLUMN schema_version INTEGER NOT NULL DEFAULT 1;
ALTER TABLE findings ADD COLUMN lifecycle TEXT NOT NULL DEFAULT 'active';
UPDATE findings SET last_seen_at = COALESCE(last_seen_at, ts) WHERE last_seen_at IS NULL;
UPDATE findings SET first_seen_at = COALESCE(first_seen_at, ts) WHERE first_seen_at IS NULL;
";

/// The stage that an audited action came from. From here on rows of the audit are
/// neither changed nor removed.
pub const V3_AUDIT_TRANSITIONS: &'static str = "
ALTER TABLE audit ADD COLUMN previous_stage TEXT;

CREATE TRIGGER IF NOT EXISTS audit_append_only_update
BEFORE UPDATE ON audit
BEGIN
    SELECT RAISE(ABORT, 'audit rows are append-only');
END;

CREATE TRIGGER IF NOT EXISTS audit_append_only_delete
BEFORE DELETE ON audit
BEGIN
    SELECT RAISE(ABORT, 'audit rows are append-only');
END;
";

/// The operational state of the daemon, in one row.
pub const V4_OPERATIONAL_STATE: &'static str = "
CREATE TABLE IF NOT EXISTS operational_state (
    id                      TEXT PRIMARY KEY,
    source                  TEXT NOT NULL,
    source_connected        INTEGER,
    last_ingestion_attempt  TEXT,
    last_ingestion_success  TEXT,
    last_cycle_attempt      TEXT,
    last_cycle_success      TEXT,
    last_persist_success    TEXT,
    source_data_at          TEXT,
    llm                     TEXT NOT NULL,
    alert_sink              TEXT NOT NULL
);
";

/// Why a recommendation was made.
pub const V5_RECOMMENDATION_RATIONALE: &'static str = "
ALTER TABLE recommendations ADD COLUMN rationale TEXT NOT NULL DEFAULT '{}';
";

/// How the last cleanup went.
pub const V6_CLEANUP_STATE: &'static str = "
ALTER TABLE operational_state ADD COLUMN cleanup TEXT NOT NULL DEFAULT 'not_configured';
ALTER TABLE operational_state ADD COLUMN last_cleanup_attempt TEXT;
ALTER TABLE operational_state ADD COLUMN last_cleanup_success TEXT;
";

/// What of a channel can be spent after its reserves.
pub const V7_SNAPSHOT_SPENDABLE: &'static str = "
CREATE TABLE IF NOT EXISTS channel_snapshots (
    channel_id        TEXT NOT NULL,
    ts                TEXT NOT NULL,
    local_ratio       REAL NOT NULL,
    local_balance_msat INTEGER,
    remote_balance_msat INTEGER,
    capacity_msat     INTEGER,
    status_int        INTEGER NOT NULL,
    PRIMARY KEY (channel_id, ts)
);
ALTER TABLE channel_snapshots ADD COLUMN spendable_outbound_msat INTEGER NOT NULL DEFAULT 0;
ALTER TABLE channel_snapshots ADD COLUMN spendable_inbound_msat INTEGER NOT NULL DEFAULT 0;
";

/// The life, the origin and the identity of a simulation. Rows from before count as
/// completed by a legacy model.
pub const V8_SIMULATION_V2: &'static str = "
ALTER TABLE simulations ADD COLUMN status TEXT NOT NULL DEFAULT 'completed';
ALTER TABLE simulations ADD COLUMN model_id TEXT NOT NULL DEFAULT 'legacy';
ALTER TABLE simulations ADD COLUMN model_version TEXT NOT NULL DEFAULT '0';
ALTER TABLE simulations ADD COLUMN input_hash TEXT NOT NULL DEFAULT '';
ALTER TABLE simulations ADD COLUMN confidence TEXT NOT NULL DEFAULT 'unknown';
ALTER TABLE simulations ADD COLUMN assumptions TEXT NOT NULL DEFAULT '[]';
ALTER TABLE simulations ADD COLUMN warnings TEXT NOT NULL DEFAULT '[]';
ALTER TABLE simulations ADD COLUMN explanation TEXT NOT NULL DEFAULT '';
";

/// Where a finding comes from, and in how many complete cycles it was absent. Rows
/// from before have no origin: they are history until they are seen again.
pub const V9_FINDING_PROVENANCE: &'static str = "
ALTER TABLE findings ADD COLUMN provenance TEXT;
ALTER TABLE findings ADD COLUMN consecutive_absent INTEGER NOT NULL DEFAULT 0;
UPDATE findings SET lifecycle = 'resolved' WHERE provenance IS NULL;
CREATE INDEX IF NOT EXISTS idx_findings_scope_lifecycle
    ON findings (detector, node_id, lifecycle);
";

/// The input of a simulation, so that it can be replayed, and the steps of its life.
/// Rows from before have no input. Snapshots are told apart by network and node, and
/// webhook events wait in a table until they are processed.
pub const V10_SIMULATION_INTEGRITY: &'static str = "
CREATE TABLE IF NOT EXISTS channel_snapshots (
    channel_id TEXT NOT NULL, ts TEXT NOT NULL, local_ratio REAL NOT NULL,
    local_balance_msat INTEGER, remote_balance_msat INTEGER, capacity_msat INTEGER,
    status_int INTEGER NOT NULL, spendable_outbound_msat INTEGER NOT NULL DEFAULT 0,
    spendable_inbound_msat INTEGER NOT NULL DEFAULT 0,
    PRIMARY KEY (channel_id, ts)
);
ALTER TABLE channel_snapshots RENAME TO channel_snapshots_v9;
CREATE TABLE channel_snapshots (
    network_id TEXT,
    node_id TEXT,
    channel_id TEXT NOT NULL,
    ts TEXT NOT NULL,
    local_ratio REAL NOT NULL,
    local_balance_msat INTEGER,
    remote_balance_msat INTEGER,
    capacity_msat INTEGER,
    status_int INTEGER NOT NULL,
    spendable_outbound_msat INTEGER NOT NULL DEFAULT 0,
    spendable_inbound_msat INTEGER NOT NULL DEFAULT 0,
    state_digest TEXT,
    PRIMARY KEY (network_id, node_id, channel_id, ts)
);
INSERT INTO channel_snapshots
    (node_id, channel_id, ts, local_ratio, local_balance_msat, remote_balance_msat,
     capacity_msat, status_int, spendable_outbound_msat, spendable_inbound_msat)
SELECT NULL, channel_id, ts, local_ratio, local_balance_msat, remote_balance_msat,
       capacity_msat, status_int, spendable_outbound_msat, spendable_inbound_msat
FROM channel_snapshots_v9;
DROP TABLE channel_snapshots_v9;
CREATE INDEX idx_snapshots_channel_ts
    ON channel_snapshots (channel_id, ts DESC);
CREATE INDEX idx_snapshots_node_channel_ts
    ON channel_snapshots (node_id, channel_id, ts DESC);

ALTER TABLE simulations ADD COLUMN canonical_input TEXT;
ALTER TABLE simulations ADD COLUMN source_observed_at TEXT;
ALTER TABLE simulations ADD COLUMN requested_at TEXT;
ALTER TABLE simulations ADD COLUMN completed_at TEXT;
ALTER TABLE simulations ADD COLUMN error_code TEXT;
UPDATE simulations SET requested_at = created_at WHERE requested_at IS NULL;
UPDATE simulations SET completed_at = created_at
    WHERE completed_at IS NULL AND status IN ('completed', 'stale');

CREATE UNIQUE INDEX IF NOT EXISTS idx_simulations_input_hash_unique
    ON simulations (input_hash)
    WHERE input_hash <> '' AND canonical_input IS NOT NULL AND projection <> 'null';

CREATE TABLE simulation_events (
    id              TEXT PRIMARY KEY,
    simulation_id   TEXT NOT NULL,
    status          TEXT NOT NULL,
    error_code      TEXT,
    ts              TEXT NOT NULL,
    FOREIGN KEY (simulation_id) REFERENCES simulations(id)
);
CREATE TABLE webhook_events (
    delivery_id     TEXT PRIMARY KEY,
    webhook_id      TEXT,
    event_type      TEXT,
    event           TEXT NOT NULL,
    accepted_at     TEXT NOT NULL,
    processed_at    TEXT
);
CREATE INDEX idx_webhook_events_accepted
    ON webhook_events (accepted_at);
CREATE INDEX idx_simulation_events_simulation_ts
    ON simulation_events (simulation_id, ts);
CREATE TRIGGER simulation_events_append_only_update
BEFORE UPDATE ON simulation_events
BEGIN
    SELECT RAISE(ABORT, 'simulation events are append-only');
END;
CREATE TRIGGER simulation_events_append_only_delete
BEFORE DELETE ON simulation_events
BEGIN
    SELECT RAISE(ABORT, 'simulation events are append-only');
END;
";

/// All steps, in order. Each runs once on a database, and what it did stays.
pub open spec fn all_migrations() -> Seq<Migration> {
    seq![
        Migration { version: 1, sql: V1_SCHEMA },
        Migration { version: 2, sql: V2_FINDING_METADATA },
        Migration { version: 3, sql: V3_AUDIT_TRANSITIONS },
        Migration { version: 4, sql: V4_OPERATIONAL_STATE },
        Migration { version: 5, sql: V5_RECOMMENDATION_RATIONALE },
        Migration { version: 6, sql: V6_CLEANUP_STATE },
        Migration { version: 7, sql: V7_SNAPSHOT_SPENDABLE },
        Migration { version: 8, sql: V8_SIMULATION_V2 },
        Migration { version: 9, sql: V9_FINDING_PROVENANCE },
        Migration { version: 10, sql: V10_SIMULATION_INTEGRITY },
    ]
}

/// All steps, in order.
pub fn migrations() -> (r: Vec<Migration>)
    ensures
        r@ == all_migrations(),
{
    let mut out: Vec<Migration> = Vec::new();
    out.push(Migration { version: 1, sql: V1_SCHEMA });
    out.push(Migration { version: 2, sql: V2_FINDING_METADATA });
    out.push(Migration { version: 3, sql: V3_AUDIT_TRANSITIONS });
    out.push(Migration { version: 4, sql: V4_OPERATIONAL_STATE });
    out.push(Migration { version: 5, sql: V5_RECOMMENDATION_RATIONALE });
    out.push(Migration { version: 6, sql: V6_CLEANUP_STATE });
    out.push(Migration { version: 7, sql: V7_SNAPSHOT_SPENDABLE });
    out.push(Migration { version: 8, sql: V8_SIMULATION_V2 });
    out.push(Migration { version: 9, sql: V9_FINDING_PROVENANCE });
    out.push(Migration { version: 10, sql: V10_SIMULATION_INTEGRITY });
    assert(out@ =~= all_migrations());
    out
}

/// The steps that a database of this version still needs, in order; a database
/// that is newer than the library is not to be touched.
pub open spec fn pending(current: i64) -> Result<Seq<Migration>, StorageErrorView> {
    if current > CURRENT_SCHEMA_VERSION {
        Err(
            StorageErrorView::Unsupported(
                "database schema version "@ + text::signed_decimal(current as int)
                    + " is newer than the supported version "@ + text::signed_decimal(
                    CURRENT_SCHEMA_VERSION as int,
                ) + "; upgrade rieo before opening it"@,
            ),
        )
    } else {
        Ok(
            all_migrations().skip(
                if current < 0 {
                    0
                } else {
                    current as int
                },
            ),
        )
    }
}

/// The steps that a database of this version still needs, in order.
pub fn pending_migrations(current: i64) -> (r: Result<Vec<Migration>, StorageError>)
    ensures
        match r {
            Ok(steps) => pending(current) == Ok::<Seq<Migration>, StorageErrorView>(steps@),
            Err(e) => pending(current) == Err::<Seq<Migration>, StorageErrorView>(e.deep_view()),
        },
{
    if current > CURRENT_SCHEMA_VERSION {
        return Err(
            StorageError::Unsupported(
                "database schema version ".to_owned().concat(i64_text(current).as_str()).concat(
                    " is newer than the supported version ",
                ).concat(i64_text(CURRENT_SCHEMA_VERSION).as_str()).concat(
                    "; upgrade rieo before opening it",
                ),
            ),
        );
    }
    let all = migrations();
    let mut out: Vec<Migration> = Vec::new();
    let mut i: usize = if current < 0 {
        0
    } else {
        current as usize
    };
    let ghost start = i as int;
    while i < all.len()
        invariant
            0 <= start <= i <= all.len(),
            out@ == all@.subrange(start, i as int),
        decreases all.len() - i,
    {
        out.push(all[i]);
        i += 1;
        assert(out@ =~= all@.subrange(start, i as int));
    }
    assert(out@ =~= all@.skip(start));
    Ok(out)
}

/// A supported database needs exactly the steps above its version, each one
/// version after the one before, and they end at the current version. A current
/// one needs none.
pub proof fn lemma_pending_steps_lead_to_current(current: i64)
    requires
        0 <= current <= CURRENT_SCHEMA_VERSION,
    ensures
        pending(current) matches Ok(steps) && steps.len() == CURRENT_SCHEMA_VERSION - current && (
        forall|i: int|
            0 <= i < steps.len() ==> (#[trigger] steps[i]).version == current + 1 + i),
{
    let all = all_migrations();
    assert(all.len() == 10);
    assert forall|k: int| 0 <= k < 10 implies (#[trigger] all[k]).version == k + 1 by {}
    let steps = pending(current)->Ok_0;
    assert forall|i: int| 0 <= i < steps.len() implies (#[trigger] steps[i]).version == current + 1
        + i by {
        assert(steps[i] == all[current + i]);
    }
}

/// A database is brought forward version by version, from the one that follows
/// its own up to the newest, and one that is newer than that is refused. A
/// version below nought counts as nought.
pub proof fn lemma_what_migrations_are_due(current: i64)
    ensures
        ({
            let from = if current < 0 {
                0
            } else {
                current as int
            };
            &&& pending(current) is Ok <==> current <= 10
            &&& pending(current) is Ok ==> {
                let due = pending(current)->Ok_0;
                &&& due.len() == 10 - from
                &&& forall|i: int|
                    0 <= i < due.len() ==> (#[trigger] due[i]).version == from + 1 + i
            }
        }),
{
}

} // verus!
