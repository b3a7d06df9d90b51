//! What is stored besides findings, recommendations and snapshots.
use crate::finding::Severity;
use crate::ingest::{NodeEvent, NodeEventView};
use crate::json;
use crate::json::{Json, JsonView};
use crate::text::{copy_optional_text, same_optional_text, same_text};
use crate::time::Timestamp;
use vstd::prelude::*;

verus! {

/// The version of the schema that the library reads and writes.
pub const CURRENT_SCHEMA_VERSION: i64 = 10;

/// A simulation as it is stored.
#[derive(Debug, PartialEq, Eq)]
pub struct SimulationRecord {
    pub id: String,
    pub action_id: String,
    pub finding_id: String,
    pub action_type: String,
    pub status: String,
    pub model_id: String,
    pub model_version: String,
    pub input_hash: String,
    pub confidence: String,
    pub assumptions: Json,
    pub warnings: Json,
    pub explanation: String,
    /// The input, so that the run can be replayed; null for runs from before inputs
    /// were stored.
    pub canonical_input: Json,
    pub projection: Json,
    pub source_observed_at: Option<String>,
    pub requested_at: String,
    pub completed_at: Option<String>,
    pub error_code: Option<String>,
    pub created_at: String,
}

/// The mathematical value of a [`SimulationRecord`].
pub struct SimulationRecordView {
    pub id: Seq<char>,
    pub action_id: Seq<char>,
    pub finding_id: Seq<char>,
    pub action_type: Seq<char>,
    pub status: Seq<char>,
    pub model_id: Seq<char>,
    pub model_version: Seq<char>,
    pub input_hash: Seq<char>,
    pub confidence: Seq<char>,
    pub assumptions: JsonView,
    pub warnings: JsonView,
    pub explanation: Seq<char>,
    pub canonical_input: JsonView,
    pub projection: JsonView,
    pub source_observed_at: Option<Seq<char>>,
    pub requested_at: Seq<char>,
    pub completed_at: Option<Seq<char>>,
    pub error_code: Option<Seq<char>>,
    pub created_at: Seq<char>,
}

impl DeepView for SimulationRecord {
    type V = SimulationRecordView;

    open spec fn deep_view(&self) -> SimulationRecordView {
        SimulationRecordView {
            id: self.id.deep_view(),
            action_id: self.action_id.deep_view(),
            finding_id: self.finding_id.deep_view(),
            action_type: self.action_type.deep_view(),
            status: self.status.deep_view(),
            model_id: self.model_id.deep_view(),
            model_version: self.model_version.deep_view(),
            input_hash: self.input_hash.deep_view(),
            confidence: self.confidence.deep_view(),
            assumptions: self.assumptions.deep_view(),
            warnings: self.warnings.deep_view(),
            explanation: self.explanation.deep_view(),
            canonical_input: self.canonical_input.deep_view(),
            projection: self.projection.deep_view(),
            source_observed_at: self.source_observed_at.deep_view(),
            requested_at: self.requested_at.deep_view(),
            completed_at: self.completed_at.deep_view(),
            error_code: self.error_code.deep_view(),
            created_at: self.created_at.deep_view(),
        }
    }
}

impl Clone for SimulationRecord {
    fn clone(&self) -> (r: Self)
        ensures
            r.deep_view() == self.deep_view(),
    {
        SimulationRecord {
            id: self.id.clone(),
            action_id: self.action_id.clone(),
            finding_id: self.finding_id.clone(),
            action_type: self.action_type.clone(),
            status: self.status.clone(),
            model_id: self.model_id.clone(),
            model_version: self.model_version.clone(),
            input_hash: self.input_hash.clone(),
            confidence: self.confidence.clone(),
            assumptions: self.assumptions.clone(),
            warnings: self.warnings.clone(),
            explanation: self.explanation.clone(),
            canonical_input: self.canonical_input.clone(),
            projection: self.projection.clone(),
            source_observed_at: copy_optional_text(&self.source_observed_at),
            requested_at: self.requested_at.clone(),
            completed_at: copy_optional_text(&self.completed_at),
            error_code: copy_optional_text(&self.error_code),
            created_at: self.created_at.clone(),
        }
    }
}

/// Whether two records are the same in everything, their JSON values as values.
pub open spec fn same_record(a: SimulationRecordView, b: SimulationRecordView) -> bool {
    &&& json::same_value(a.assumptions, b.assumptions)
    &&& json::same_value(a.warnings, b.warnings)
    &&& json::same_value(a.canonical_input, b.canonical_input)
    &&& json::same_value(a.projection, b.projection)
    &&& a == (SimulationRecordView {
        assumptions: a.assumptions,
        warnings: a.warnings,
        canonical_input: a.canonical_input,
        projection: a.projection,
        ..b
    })
}

impl SimulationRecord {
    /// Whether two records are the same in everything.
    pub fn same_as(&self, other: &SimulationRecord) -> (r: bool)
        ensures
            r == same_record(self.deep_view(), other.deep_view()),
    {
        same_text(
            self.id.as_str(),
            other.id.as_str(),
        )
            && same_text(
            self.action_id.as_str(),
            other.action_id.as_str(),
        )
            && same_text(
            self.finding_id.as_str(),
            other.finding_id.as_str(),
        )
            && same_text(
            self.action_type.as_str(),
            other.action_type.as_str(),
        )
            && same_text(
            self.status.as_str(),
            other.status.as_str(),
        )
            && same_text(
            self.model_id.as_str(),
            other.model_id.as_str(),
        )
            && same_text(
            self.model_version.as_str(),
            other.model_version.as_str(),
        )
            && same_text(
            self.input_hash.as_str(),
            other.input_hash.as_str(),
        )
            && same_text(
            self.confidence.as_str(),
            other.confidence.as_str(),
        )
            && self.assumptions.same_as(&other.assumptions)
            && self.warnings.same_as(&other.warnings)
            && same_text(
            self.explanation.as_str(),
            other.explanation.as_str(),
        )
            && self.canonical_input.same_as(&other.canonical_input)
            && self.projection.same_as(&other.projection)
            && same_optional_text(&self.source_observed_at, &other.source_observed_at)
            && same_text(
            self.requested_at.as_str(),
            other.requested_at.as_str(),
        )
            && same_optional_text(&self.completed_at, &other.completed_at)
            && same_optional_text(&self.error_code, &other.error_code)
            && same_text(
            self.created_at.as_str(),
            other.created_at.as_str(),
        )
    }
}

/// One step in the life of a simulation.
#[derive(Debug, PartialEq, Eq)]
pub struct SimulationEvent {
    pub id: String,
    pub simulation_id: String,
    pub status: String,
    pub error_code: Option<String>,
    pub timestamp: String,
}

/// The mathematical value of a [`SimulationEvent`].
pub struct SimulationEventView {
    pub id: Seq<char>,
    pub simulation_id: Seq<char>,
    pub status: Seq<char>,
    pub error_code: Option<Seq<char>>,
    pub timestamp: Seq<char>,
}

impl DeepView for SimulationEvent {
    type V = SimulationEventView;

    open spec fn deep_view(&self) -> SimulationEventView {
        SimulationEventView {
            id: self.id.deep_view(),
            simulation_id: self.simulation_id.deep_view(),
            status: self.status.deep_view(),
            error_code: self.error_code.deep_view(),
            timestamp: self.timestamp.deep_view(),
        }
    }
}

impl Clone for SimulationEvent {
    fn clone(&self) -> (r: Self)
        ensures
            r.deep_view() == self.deep_view(),
    {
        SimulationEvent {
            id: self.id.clone(),
            simulation_id: self.simulation_id.clone(),
            status: self.status.clone(),
            error_code: copy_optional_text(&self.error_code),
            timestamp: self.timestamp.clone(),
        }
    }
}

/// Why something cannot be stored or read.
#[derive(Debug, PartialEq, Eq)]
pub enum StorageError {
    Backend(String),
    Corrupt(String),
    Unsupported(String),
}

/// The mathematical value of a [`StorageError`].
pub enum StorageErrorView {
    Backend(Seq<char>),
    Corrupt(Seq<char>),
    Unsupported(Seq<char>),
}

impl DeepView for StorageError {
    type V = StorageErrorView;

    open spec fn deep_view(&self) -> StorageErrorView {
        match self {
            StorageError::Backend(s) => StorageErrorView::Backend(s@),
            StorageError::Corrupt(s) => StorageErrorView::Corrupt(s@),
            StorageError::Unsupported(s) => StorageErrorView::Unsupported(s@),
        }
    }
}

/// What an error says.
pub open spec fn storage_error_text(e: StorageErrorView) -> Seq<char> {
    match e {
        StorageErrorView::Backend(s) => "storage backend failure: "@ + s,
        StorageErrorView::Corrupt(s) => "corrupt record: "@ + s,
        StorageErrorView::Unsupported(s) => "unsupported database: "@ + s,
    }
}

impl StorageError {
    /// What the error says.
    pub fn to_text(&self) -> (r: String)
        ensures
            r@ == storage_error_text(self.deep_view()),
    {
        match self {
            StorageError::Backend(s) => "storage backend failure: ".to_owned().concat(s.as_str()),
            StorageError::Corrupt(s) => "corrupt record: ".to_owned().concat(s.as_str()),
            StorageError::Unsupported(s) => "unsupported database: ".to_owned().concat(s.as_str()),
        }
    }
}

/// What a check came back with, over mathematical values.
pub open spec fn refused(r: Result<(), StorageError>) -> Option<StorageErrorView> {
    match r {
        Ok(_) => None,
        Err(e) => Some(e.deep_view()),
    }
}

/// How many rows each table has.
#[derive(Debug, Clone, Copy, PartialEq, Eq, Structural)]
pub struct StorageCounts {
    pub findings: usize,
    pub recommendations: usize,
    pub simulations: usize,
    pub audit: usize,
    pub channel_snapshots: usize,
}

/// How many simulations ended in what way.
#[derive(Debug, Clone, Copy, PartialEq, Eq, Structural)]
pub struct SimulationCounts {
    pub completed: u64,
    pub failed: u64,
    pub stale: u64,
    pub other: u64,
}

/// How many simulations have a status.
#[derive(Debug, PartialEq, Eq)]
pub struct StatusCount {
    pub status: String,
    pub count: u64,
}

/// The mathematical value of a [`StatusCount`].
pub struct StatusCountView {
    pub status: Seq<char>,
    pub count: u64,
}

impl DeepView for StatusCount {
    type V = StatusCountView;

    open spec fn deep_view(&self) -> StatusCountView {
        StatusCountView { status: self.status@, count: self.count }
    }
}

/// Whether a status means that a simulation did not come to a result.
pub open spec fn failing_status(status: Seq<char>) -> bool {
    status == "failed"@ || status == "invalid_input"@ || status == "unsupported"@
}

/// All of these counts together.
pub open spec fn count_sum(rows: Seq<StatusCountView>) -> nat
    decreases rows.len(),
{
    if rows.len() == 0 {
        0
    } else {
        count_sum(rows.drop_last()) + rows.last().count as nat
    }
}

/// The count of the last row of this status.
pub open spec fn count_of(rows: Seq<StatusCountView>, status: Seq<char>) -> nat
    decreases rows.len(),
{
    if rows.len() == 0 {
        0
    } else if rows.last().status == status {
        rows.last().count as nat
    } else {
        count_of(rows.drop_last(), status)
    }
}

/// All counts of statuses that mean that there is no result.
pub open spec fn failed_sum(rows: Seq<StatusCountView>) -> nat
    decreases rows.len(),
{
    if rows.len() == 0 {
        0
    } else {
        failed_sum(rows.drop_last()) + (if failing_status(rows.last().status) {
            rows.last().count as nat
        } else {
            0
        })
    }
}

/// All counts of statuses that are none of the others.
pub open spec fn other_sum(rows: Seq<StatusCountView>) -> nat
    decreases rows.len(),
{
    if rows.len() == 0 {
        0
    } else {
        let status = rows.last().status;
        other_sum(rows.drop_last()) + (if status != "completed"@ && status != "stale"@
            && !failing_status(status) {
            rows.last().count as nat
        } else {
            0
        })
    }
}

proof fn lemma_sums_grow(rows: Seq<StatusCountView>, k: int)
    requires
        0 <= k <= rows.len(),
    ensures
        count_sum(rows.take(k)) <= count_sum(rows),
    decreases rows.len(),
{
    if k < rows.len() {
        lemma_sums_grow(rows.drop_last(), k);
        assert(rows.drop_last().take(k) =~= rows.take(k));
    } else {
        assert(rows.take(k) =~= rows);
    }
}

proof fn lemma_sums_are_parts(rows: Seq<StatusCountView>)
    ensures
        failed_sum(rows) <= count_sum(rows),
        other_sum(rows) <= count_sum(rows),
    decreases rows.len(),
{
    if rows.len() > 0 {
        lemma_sums_are_parts(rows.drop_last());
    }
}

/// How many simulations ended in what way, out of one row for each status.
pub fn count_simulations(rows: &Vec<StatusCount>) -> (r: SimulationCounts)
    requires
        count_sum(rows.deep_view()) <= u64::MAX,
    ensures
        r.completed == count_of(rows.deep_view(), "completed"@),
        r.failed == failed_sum(rows.deep_view()),
        r.stale == count_of(rows.deep_view(), "stale"@),
        r.other == other_sum(rows.deep_view()),
{
    proof {
        reveal_strlit("completed");
        reveal_strlit("stale");
        reveal_strlit("failed");
        reveal_strlit("invalid_input");
        reveal_strlit("unsupported");
        assert("completed"@.len() == 9 && "stale"@.len() == 5 && "failed"@.len() == 6);
        assert("invalid_input"@.len() == 13 && "unsupported"@.len() == 11);
    }
    let ghost all = rows.deep_view();
    let mut completed: u64 = 0;
    let mut failed: u64 = 0;
    let mut stale: u64 = 0;
    let mut other: u64 = 0;
    let mut i: usize = 0;
    while i < rows.len()
        invariant
            i <= rows.len(),
            all == rows.deep_view(),
            count_sum(all) <= u64::MAX,
            completed == count_of(all.take(i as int), "completed"@),
            failed == failed_sum(all.take(i as int)),
            stale == count_of(all.take(i as int), "stale"@),
            other == other_sum(all.take(i as int)),
            "completed"@.len() == 9 && "stale"@.len() == 5 && "failed"@.len() == 6
                && "invalid_input"@.len() == 13 && "unsupported"@.len() == 11,
        decreases rows.len() - i,
    {
        let row = &rows[i];
        proof {
            assert(all.take(i + 1).drop_last() =~= all.take(i as int));
            assert(all.take(i + 1).last() == row.deep_view());
            lemma_sums_grow(all, i + 1);
            lemma_sums_are_parts(all.take(i + 1));
        }
        let status = row.status.as_str();
        if same_text(status, "completed") {
            completed = row.count;
        } else if same_text(status, "failed") || same_text(status, "invalid_input") || same_text(
            status,
            "unsupported",
        ) {
            failed = failed + row.count;
        } else if same_text(status, "stale") {
            stale = row.count;
        } else {
            other = other + row.count;
        }
        i += 1;
    }
    assert(all.take(i as int) =~= all);
    SimulationCounts { completed, failed, stale, other }
}

/// What came of the last attempt to send an alert.
#[derive(Debug, Clone, Copy, PartialEq, Eq, Structural)]
pub enum DeliveryStatus {
    /// No attempt was made.
    Unsent,
    Success,
    Failed,
    Skipped,
}

impl DeepView for DeliveryStatus {
    type V = DeliveryStatus;

    open spec fn deep_view(&self) -> DeliveryStatus {
        *self
    }
}

impl DeliveryStatus {
    /// What the outcome is called.
    pub open spec fn name(self) -> Seq<char> {
        match self {
            DeliveryStatus::Unsent => "none"@,
            DeliveryStatus::Success => "success"@,
            DeliveryStatus::Failed => "failed"@,
            DeliveryStatus::Skipped => "skipped"@,
        }
    }

    /// What the outcome is called.
    pub fn as_str(&self) -> (r: &'static str)
        ensures
            r@ == self.name(),
    {
        match self {
            DeliveryStatus::Unsent => "none",
            DeliveryStatus::Success => "success",
            DeliveryStatus::Failed => "failed",
            DeliveryStatus::Skipped => "skipped",
        }
    }
}

/// What is known of an alert that was sent before.
#[derive(Debug, Clone, Copy, PartialEq, Eq, Structural)]
pub struct AlertState {
    pub last_sent_at: Option<Timestamp>,
    pub last_severity: Option<Severity>,
    pub last_status: DeliveryStatus,
}

/// Why the state of an alert cannot be read or written.
#[derive(Debug, PartialEq, Eq)]
pub enum AlertError {
    Store(String),
}

/// A webhook event that was taken in, until it is processed and after.
#[derive(Debug, PartialEq, Eq)]
pub struct WebhookEventRecord {
    pub delivery_id: String,
    pub webhook_id: Option<String>,
    pub event_type: Option<String>,
    pub event: NodeEvent,
    pub accepted_at: Timestamp,
    pub processed_at: Option<Timestamp>,
}

/// The mathematical value of a [`WebhookEventRecord`].
pub struct WebhookEventRecordView {
    pub delivery_id: Seq<char>,
    pub webhook_id: Option<Seq<char>>,
    pub event_type: Option<Seq<char>>,
    pub event: NodeEventView,
    pub accepted_at: Timestamp,
    pub processed_at: Option<Timestamp>,
}

impl DeepView for WebhookEventRecord {
    type V = WebhookEventRecordView;

    open spec fn deep_view(&self) -> WebhookEventRecordView {
        WebhookEventRecordView {
            delivery_id: self.delivery_id.deep_view(),
            webhook_id: self.webhook_id.deep_view(),
            event_type: self.event_type.deep_view(),
            event: self.event.deep_view(),
            accepted_at: self.accepted_at,
            processed_at: self.processed_at,
        }
    }
}

impl Clone for WebhookEventRecord {
    fn clone(&self) -> (r: Self)
        ensures
            r.deep_view() == self.deep_view(),
    {
        WebhookEventRecord {
            delivery_id: self.delivery_id.clone(),
            webhook_id: copy_optional_text(&self.webhook_id),
            event_type: copy_optional_text(&self.event_type),
            event: self.event.clone(),
            accepted_at: self.accepted_at,
            processed_at: self.processed_at,
        }
    }
}

/// One more row counts as failed exactly if it is of a simulation that failed,
/// had bad input or was not supported, and as other exactly if it is none of
/// these, nor completed, nor stale. Completed and stale ones count by their own
/// row.
pub proof fn lemma_each_row_counts_once(rows: Seq<StatusCountView>, row: StatusCountView)
    ensures
        ({
            let after = rows.push(row);
            let failed = row.status == "failed"@ || row.status == "invalid_input"@ || row.status
                == "unsupported"@;
            let counted = failed || row.status == "completed"@ || row.status == "stale"@;
            &&& failed ==> failed_sum(after) == failed_sum(rows) + row.count
            &&& !failed ==> failed_sum(after) == failed_sum(rows)
            &&& !counted ==> other_sum(after) == other_sum(rows) + row.count
            &&& counted ==> other_sum(after) == other_sum(rows)
            &&& row.status == "completed"@ ==> count_of(after, "completed"@) == row.count
            &&& row.status != "completed"@ ==> count_of(after, "completed"@) == count_of(
                rows,
                "completed"@,
            )
            &&& row.status == "stale"@ ==> count_of(after, "stale"@) == row.count
            &&& row.status != "stale"@ ==> count_of(after, "stale"@) == count_of(rows, "stale"@)
            &&& count_sum(after) == count_sum(rows) + row.count
        }),
{
    assert(rows.push(row).drop_last() =~= rows);
}

/// Without rows nothing is counted.
pub proof fn lemma_no_rows_count_nothing(rows: Seq<StatusCountView>, status: Seq<char>)
    requires
        rows.len() == 0,
    ensures
        failed_sum(rows) == other_sum(rows) == count_of(rows, status) == count_sum(rows) == 0,
{
}

/// Two records that are the same have the same identity, subject, model, input
/// hash, status and moments.
pub proof fn lemma_same_records_agree(a: SimulationRecordView, b: SimulationRecordView)
    ensures
        same_record(a, a),
        same_record(a, b) ==> {
            &&& a.id == b.id && a.action_id == b.action_id && a.finding_id == b.finding_id
            &&& a.action_type == b.action_type && a.status == b.status
            &&& a.model_id == b.model_id && a.model_version == b.model_version
            &&& a.input_hash == b.input_hash && a.confidence == b.confidence
            &&& a.explanation == b.explanation && a.error_code == b.error_code
            &&& a.source_observed_at == b.source_observed_at && a.requested_at == b.requested_at
            &&& a.completed_at == b.completed_at && a.created_at == b.created_at
        },
        a == b ==> same_record(a, b),
{
    json::lemma_when_values_are_the_same(a.assumptions, a.assumptions);
    json::lemma_when_values_are_the_same(a.warnings, a.warnings);
    json::lemma_when_values_are_the_same(a.canonical_input, a.canonical_input);
    json::lemma_when_values_are_the_same(a.projection, a.projection);
}

} // verus!
