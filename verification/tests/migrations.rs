use rieko::action::{Action, ActionStage, ActionType, AuditEntry};
use rieko::codec::{decode_finding, encode_audit, FindingRow};
use rieko::finding::{Evidence, Finding, FindingLifecycle};
use rieko::json::{Json, Params};
use rieko::migrations::{migrations, pending_migrations, Migration};
use rieko::records::{StorageError, CURRENT_SCHEMA_VERSION};
use rusqlite::Connection;

fn schema_version(conn: &Connection) -> Result<i64, StorageError> {
    conn.pragma_query_value(None, "user_version", |row| row.get(0))
        .map_err(|e| StorageError::Backend(format!("reading schema version: {e}")))
}

fn apply(tx: &rusqlite::Transaction, step: &Migration) -> Result<(), StorageError> {
    tx.execute_batch(step.sql).map_err(|e| {
        StorageError::Backend(format!("migration to v{} failed: {e}", step.version))
    })?;
    tx.pragma_update(None, "user_version", step.version)
        .map_err(|e| StorageError::Backend(format!("recording schema version: {e}")))
}

fn migrate(conn: &mut Connection) -> Result<(), StorageError> {
    let steps = pending_migrations(schema_version(conn)?)?;
    let tx = conn
        .transaction_with_behavior(rusqlite::TransactionBehavior::Immediate)
        .map_err(|e| StorageError::Backend(format!("starting migration: {e}")))?;
    for step in &steps {
        apply(&tx, step)?;
    }
    tx.commit().map_err(|e| StorageError::Backend(format!("committing migration: {e}")))
}

fn bare_conn() -> Connection {
    Connection::open_in_memory().unwrap()
}

fn has_table(conn: &Connection, name: &str) -> bool {
    let mut stmt = conn
        .prepare("SELECT 1 FROM sqlite_master WHERE type='table' AND name=?1")
        .unwrap();
    stmt.exists([name]).unwrap()
}

#[test]
fn empty_db_reaches_current_schema() {
    let mut conn = bare_conn();
    migrate(&mut conn).unwrap();
    assert_eq!(schema_version(&conn).unwrap(), CURRENT_SCHEMA_VERSION);
    for table in [
        "findings",
        "recommendations",
        "audit",
        "channel_snapshots",
        "simulations",
        "simulation_events",
        "alert_state",
        "operational_state",
    ] {
        assert!(has_table(&conn, table), "missing table {table}");
    }
}

#[test]
fn current_schema_reopened_is_idempotent() {
    let mut conn = bare_conn();
    migrate(&mut conn).unwrap();
    migrate(&mut conn).unwrap();
    assert_eq!(schema_version(&conn).unwrap(), CURRENT_SCHEMA_VERSION);
}

#[test]
fn previous_schema_migrates_with_data_preserved() {
    let mut conn = bare_conn();
    conn.execute_batch(
        "CREATE TABLE findings (
            id TEXT PRIMARY KEY, detector TEXT NOT NULL, severity INTEGER NOT NULL,
            node_id TEXT, channel_id TEXT, evidence TEXT NOT NULL,
            explanation TEXT, ts TEXT NOT NULL, last_seen TEXT
        );",
    )
    .unwrap();
    conn.execute(
        "INSERT INTO findings (id, detector, severity, evidence, ts)
         VALUES ('f1', 'channel_liquidity', 1, '[]', '2020-01-01')",
        [],
    )
    .unwrap();
    assert_eq!(schema_version(&conn).unwrap(), 0);

    migrate(&mut conn).unwrap();
    assert_eq!(schema_version(&conn).unwrap(), CURRENT_SCHEMA_VERSION);
    assert!(has_table(&conn, "alert_state"));
    let count: i64 = conn
        .query_row("SELECT COUNT(*) FROM findings", [], |r| r.get(0))
        .unwrap();
    assert_eq!(count, 1);
}

#[test]
fn v9_adds_nullable_provenance_and_scope_lifecycle_index() {
    let mut conn = bare_conn();
    conn.execute_batch(
        "CREATE TABLE findings (
            id TEXT PRIMARY KEY, detector TEXT NOT NULL, detector_version TEXT NOT NULL,
            schema_version INTEGER NOT NULL, severity INTEGER NOT NULL, node_id TEXT,
            channel_id TEXT, evidence TEXT NOT NULL, explanation TEXT, ts TEXT NOT NULL,
            first_seen_at TEXT NOT NULL, last_seen_at TEXT NOT NULL, lifecycle TEXT NOT NULL
         );
         INSERT INTO findings VALUES
            ('legacy', 'detector', '1', 1, 0, NULL, NULL, '[]', NULL,
             '2020-01-01T00:00:00Z', '2020-01-01T00:00:00Z',
             '2020-01-01T00:00:00Z', 'active');
         CREATE TABLE simulations (
            id TEXT PRIMARY KEY, action_id TEXT NOT NULL, finding_id TEXT NOT NULL,
            action_type TEXT NOT NULL, projection TEXT NOT NULL, created_at TEXT NOT NULL,
            status TEXT NOT NULL, model_id TEXT NOT NULL, model_version TEXT NOT NULL,
            input_hash TEXT NOT NULL, confidence TEXT NOT NULL, assumptions TEXT NOT NULL,
            warnings TEXT NOT NULL, explanation TEXT NOT NULL
         );
         PRAGMA user_version = 8;",
    )
    .unwrap();

    migrate(&mut conn).unwrap();
    let provenance: Option<String> = conn
        .query_row(
            "SELECT provenance FROM findings WHERE id = 'legacy'",
            [],
            |row| row.get(0),
        )
        .unwrap();
    assert_eq!(provenance, None, "legacy provenance must remain unknown");
    let index_exists: bool = conn
        .query_row(
            "SELECT EXISTS(
                SELECT 1 FROM sqlite_master
                WHERE type = 'index' AND name = 'idx_findings_scope_lifecycle'
             )",
            [],
            |row| row.get(0),
        )
        .unwrap();
    assert!(index_exists);
}

#[test]
fn v10_preserves_legacy_simulation_and_adds_integrity_metadata() {
    let mut conn = bare_conn();
    conn.execute_batch(
        "CREATE TABLE simulations (
            id TEXT PRIMARY KEY, action_id TEXT NOT NULL, finding_id TEXT NOT NULL,
            action_type TEXT NOT NULL, projection TEXT NOT NULL, created_at TEXT NOT NULL,
            status TEXT NOT NULL, model_id TEXT NOT NULL, model_version TEXT NOT NULL,
            input_hash TEXT NOT NULL, confidence TEXT NOT NULL, assumptions TEXT NOT NULL,
            warnings TEXT NOT NULL, explanation TEXT NOT NULL
         );
         INSERT INTO simulations VALUES
            ('legacy', 'a1', 'f1', 'rebalance_channel', '{}',
             '2020-01-01T00:00:00Z', 'completed', 'legacy', '0', 'old-hash',
             'unknown', '[]', '[]', ''),
            ('legacy-duplicate', 'a1', 'f1', 'rebalance_channel', '{}',
             '2020-01-01T00:01:00Z', 'completed', 'legacy', '0', 'old-hash',
             'unknown', '[]', '[]', '');
         PRAGMA user_version = 9;",
    )
    .unwrap();

    migrate(&mut conn).unwrap();

    let (canonical_input, requested_at, completed_at): (
        Option<String>,
        String,
        Option<String>,
    ) = conn
        .query_row(
            "SELECT canonical_input, requested_at, completed_at
             FROM simulations WHERE id = 'legacy'",
            [],
            |row| Ok((row.get(0)?, row.get(1)?, row.get(2)?)),
        )
        .unwrap();
    assert_eq!(canonical_input, None);
    assert_eq!(requested_at, "2020-01-01T00:00:00Z");
    assert_eq!(completed_at.as_deref(), Some("2020-01-01T00:00:00Z"));
    assert!(has_table(&conn, "simulation_events"));
    let rows: i64 = conn
        .query_row("SELECT COUNT(*) FROM simulations", [], |row| row.get(0))
        .unwrap();
    assert_eq!(rows, 2, "historical duplicate hashes must be preserved");
    assert_eq!(schema_version(&conn).unwrap(), CURRENT_SCHEMA_VERSION);
}

#[test]
fn newer_unsupported_schema_is_rejected() {
    let mut conn = bare_conn();
    conn.pragma_update(None, "user_version", CURRENT_SCHEMA_VERSION + 1)
        .unwrap();
    let err = migrate(&mut conn).unwrap_err();
    assert!(
        matches!(err, StorageError::Unsupported(_)),
        "expected Unsupported, got {err:?}"
    );
}

#[test]
fn failing_migration_rolls_back_and_does_not_advance_version() {
    let mut conn = bare_conn();
    assert_eq!(schema_version(&conn).unwrap(), 0);
        let tx = conn
        .transaction_with_behavior(rusqlite::TransactionBehavior::Immediate)
        .unwrap();
    let step = Migration {
        version: 99,
        sql: "CREATE TABLE ok (id INT); CREATE TABLE broken (",
    };
    let err = apply(&tx, &step).unwrap_err();
    assert!(matches!(err, StorageError::Backend(_)));
    drop(tx);
    assert!(!has_table(&conn, "ok"));
    assert_eq!(schema_version(&conn).unwrap(), 0);
}

#[test]
fn partially_initialized_db_is_handled() {
    let mut conn = bare_conn();
    conn.execute_batch(
        "CREATE TABLE findings (
            id TEXT PRIMARY KEY, detector TEXT NOT NULL, severity INTEGER NOT NULL,
            node_id TEXT, channel_id TEXT, evidence TEXT NOT NULL,
            explanation TEXT, ts TEXT NOT NULL, last_seen TEXT
        );",
    )
    .unwrap();
    assert_eq!(schema_version(&conn).unwrap(), 0);

    migrate(&mut conn).unwrap();
    assert_eq!(schema_version(&conn).unwrap(), CURRENT_SCHEMA_VERSION);
    assert!(has_table(&conn, "alert_state"));
}

#[test]
fn steps_lead_from_each_version_to_the_current_one() {
    for current in 0..=CURRENT_SCHEMA_VERSION {
        let versions: Vec<i64> =
            pending_migrations(current).unwrap().iter().map(|s| s.version).collect();
        let expected: Vec<i64> = (current + 1..=CURRENT_SCHEMA_VERSION).collect();
        assert_eq!(versions, expected);
    }
    assert_eq!(pending_migrations(-3).unwrap().len(), migrations().len());
    assert_eq!(
        pending_migrations(11).unwrap_err(),
        StorageError::Unsupported(
            "database schema version 11 is newer than the supported version 10; upgrade rieo before opening it"
                .into()
        )
    );
}

fn read_findings(conn: &Connection) -> Vec<Finding> {
    let mut stmt = conn
        .prepare(
            "SELECT id, detector, severity, node_id, channel_id, explanation, ts,
                    detector_version, schema_version, first_seen_at, last_seen_at, lifecycle,
                    provenance
             FROM findings ORDER BY ts DESC",
        )
        .unwrap();
    let rows = stmt
        .query_map([], |row| {
            Ok(FindingRow {
                id: row.get(0)?,
                detector: row.get(1)?,
                severity: row.get(2)?,
                node: row.get(3)?,
                channel: row.get(4)?,
                evidence: Ok(vec![Evidence { key: "k".into(), value: Json::Unsigned(1) }]),
                explanation: row.get(5)?,
                ts: row.get(6)?,
                detector_version: row.get(7)?,
                schema_version: row.get(8)?,
                first_seen_at: row.get(9)?,
                last_seen_at: row.get(10)?,
                lifecycle: row.get(11)?,
                provenance: row.get(12)?,
                provenance_read: Ok(None),
            })
        })
        .unwrap();
    rows.map(|row| decode_finding(row.unwrap()).unwrap()).collect()
}

#[test]
fn older_schema_rows_migrate_with_lifecycle_metadata() {
    let mut conn = bare_conn();
    conn.execute_batch(
        "PRAGMA user_version = 1;
         CREATE TABLE findings (
            id TEXT PRIMARY KEY, detector TEXT NOT NULL, severity INTEGER NOT NULL,
            node_id TEXT, channel_id TEXT, evidence TEXT NOT NULL,
            explanation TEXT, ts TEXT NOT NULL, last_seen TEXT
         );
         CREATE TABLE audit (
            id TEXT PRIMARY KEY, action_id TEXT NOT NULL, action_type TEXT NOT NULL,
            stage TEXT NOT NULL, actor TEXT NOT NULL, details TEXT NOT NULL, ts TEXT NOT NULL
         );
         CREATE TABLE recommendations (
            finding_id TEXT NOT NULL, action_id TEXT PRIMARY KEY, action_type TEXT NOT NULL,
            stage TEXT NOT NULL, target TEXT, params TEXT NOT NULL, summary TEXT NOT NULL,
            created_at TEXT NOT NULL, updated_at TEXT NOT NULL
         );
         CREATE TABLE simulations (
            id TEXT PRIMARY KEY, action_id TEXT NOT NULL, finding_id TEXT NOT NULL,
            action_type TEXT NOT NULL, projection TEXT NOT NULL, created_at TEXT NOT NULL
         );
         INSERT INTO findings (id, detector, severity, node_id, channel_id, evidence, ts)
         VALUES ('old1', 'channel_liquidity', 0, 'n1', 'c1', '[{\"key\":\"k\",\"value\":1}]',
                 '2021-05-01T00:00:00Z');",
    )
    .unwrap();
    migrate(&mut conn).unwrap();

    let got = read_findings(&conn);
    assert_eq!(got.len(), 1);
    assert_eq!(got[0].id, "old1");
    assert_eq!(got[0].detector_version, "1", "default detector version");
    assert_eq!(
        got[0].lifecycle,
        FindingLifecycle::Resolved,
        "networkless legacy findings remain historical until re-observed"
    );
    assert_eq!(got[0].first_seen_at, got[0].last_seen_at);
}

#[test]
fn audit_rows_are_append_only() {
    let mut conn = bare_conn();
    migrate(&mut conn).unwrap();
    let action = Action::new(
        ActionType::RebalanceChannel,
        ActionStage::Recommended,
        Some("c1".into()),
        Params::Object(vec![]),
        "rebalance c1",
    );
    let row = encode_audit(&AuditEntry::from_action(
        &action,
        "system",
        Json::Compound("{}".into()),
    ));
    conn.execute(
        "INSERT INTO audit
         (id, action_id, action_type, previous_stage, stage, actor, details, ts)
         VALUES (?1, ?2, ?3, ?4, ?5, ?6, ?7, ?8)",
        rusqlite::params_from_iter([
            Some(row.id),
            Some(row.action_id),
            Some(row.action_type),
            row.previous_stage,
            Some(row.stage),
            Some(row.actor),
            Some(row.details.unwrap().to_text()),
            Some(row.ts),
        ]),
    )
    .unwrap();
    let count = |conn: &Connection| -> i64 {
        conn.query_row("SELECT COUNT(*) FROM audit", [], |r| r.get(0)).unwrap()
    };
    assert_eq!(count(&conn), 1);
    for sql in ["UPDATE audit SET actor = 'intruder'", "DELETE FROM audit"] {
        let err = conn.execute(sql, []).unwrap_err();
        assert!(
            err.to_string().contains("append-only"),
            "expected append-only rejection for `{sql}`, got: {err}"
        );
    }
    assert_eq!(count(&conn), 1);
}

#[test]
fn snapshots_are_told_apart_by_network_and_node() {
    let mut conn = bare_conn();
    migrate(&mut conn).unwrap();
    for (network, node) in [("regtest", "a"), ("mainnet", "a"), ("regtest", "b"), ("regtest", "a")] {
        conn.execute(
            "INSERT OR REPLACE INTO channel_snapshots
             (channel_id, ts, local_ratio, local_balance_msat, remote_balance_msat, capacity_msat,
               status_int, spendable_outbound_msat, spendable_inbound_msat, node_id,
               network_id, state_digest)
              VALUES ('c1', '2023-11-14T22:13:20Z', 0.5, 1, 1, 2, 1, 0, 0, ?1, ?2, 'digest')",
            [node, network],
        )
        .unwrap();
    }
    let rows: i64 = conn
        .query_row("SELECT COUNT(*) FROM channel_snapshots", [], |r| r.get(0))
        .unwrap();
    assert_eq!(rows, 3);
    assert!(has_table(&conn, "webhook_events"));
}
