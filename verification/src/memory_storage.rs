//! Everything that is stored, held in memory, with transactions.
use crate::action;
use crate::action::{ActionStage, AuditEntry, AuditEntryView, Recommendation, RecommendationView};
use crate::codec;
use crate::codec::validate_finding_schema;
use crate::domain::{same_network, BitcoinNetwork, ChannelSnapshot, ChannelSnapshotView};
use crate::finding::{
    Finding, FindingCycleScope, FindingCycleScopeView, FindingLifecycle, FindingLifecycleFilter,
    FindingView,
};
use crate::graph;
use crate::ingest::NodeEvent;
use crate::json::JsonView;
use crate::records;
use crate::records::{
    AlertError, AlertState, SimulationEvent, SimulationEventView, SimulationRecord,
    SimulationRecordView, StorageCounts, StorageError, StorageErrorView, WebhookEventRecord,
    WebhookEventRecordView,
};
use crate::retention;
use crate::retention::{retain, PruneSummary, RetentionPolicy};
use crate::simulator::{Simulation, SimulationView};
use crate::status::{OperationalState, OperationalStateError};
use crate::text;
use crate::text::{copy_optional_text, same_optional_text, same_text, text_precedes};
use crate::time::{current_time, Timestamp};
use vstd::prelude::*;

verus! {

/// The state of an alert, under the key of what it is about.
pub struct AlertEntryView {
    pub key: Seq<char>,
    pub state: AlertState,
}

#[derive(Debug)]
struct AlertEntry {
    key: String,
    state: AlertState,
}

impl DeepView for AlertEntry {
    type V = AlertEntryView;

    closed spec fn deep_view(&self) -> AlertEntryView {
        AlertEntryView { key: self.key@, state: self.state }
    }
}

impl Clone for AlertEntry {
    fn clone(&self) -> (r: Self)
        ensures
            r.deep_view() == self.deep_view(),
    {
        AlertEntry { key: self.key.clone(), state: self.state }
    }
}

/// The mathematical value of a storage: its rows, the oldest first.
pub struct StorageModel {
    pub findings: Seq<FindingView>,
    pub recommendations: Seq<RecommendationView>,
    pub audit: Seq<AuditEntryView>,
    pub channel_snapshots: Seq<ChannelSnapshotView>,
    pub simulations: Seq<SimulationView>,
    pub simulation_records: Seq<SimulationRecordView>,
    pub simulation_events: Seq<SimulationEventView>,
    pub alerts: Seq<AlertEntryView>,
    pub operational_state: Option<OperationalState>,
    pub webhook_events: Seq<WebhookEventRecordView>,
}

/// A storage with nothing in it.
pub open spec fn empty_storage() -> StorageModel {
    StorageModel {
        findings: seq![],
        recommendations: seq![],
        audit: seq![],
        channel_snapshots: seq![],
        simulations: seq![],
        simulation_records: seq![],
        simulation_events: seq![],
        alerts: seq![],
        operational_state: None,
        webhook_events: seq![],
    }
}

#[derive(Debug)]
struct Rows {
    findings: Vec<Finding>,
    recommendations: Vec<Recommendation>,
    audit: Vec<AuditEntry>,
    channel_snapshots: Vec<ChannelSnapshot>,
    simulations: Vec<Simulation>,
    simulation_records: Vec<SimulationRecord>,
    simulation_events: Vec<SimulationEvent>,
    alerts: Vec<AlertEntry>,
    operational_state: Option<OperationalState>,
    webhook_events: Vec<WebhookEventRecord>,
}

impl DeepView for Rows {
    type V = StorageModel;

    closed spec fn deep_view(&self) -> StorageModel {
        StorageModel {
            findings: self.findings.deep_view(),
            recommendations: self.recommendations.deep_view(),
            audit: self.audit.deep_view(),
            channel_snapshots: self.channel_snapshots.deep_view(),
            simulations: self.simulations.deep_view(),
            simulation_records: self.simulation_records.deep_view(),
            simulation_events: self.simulation_events.deep_view(),
            alerts: self.alerts.deep_view(),
            operational_state: self.operational_state,
            webhook_events: self.webhook_events.deep_view(),
        }
    }
}

impl Clone for Rows {
    fn clone(&self) -> (r: Self)
        ensures
            r.deep_view() == self.deep_view(),
    {
        let findings = self.findings.clone();
        assert(findings.deep_view() =~= self.findings.deep_view());
        let recommendations = self.recommendations.clone();
        assert(recommendations.deep_view() =~= self.recommendations.deep_view());
        let audit = self.audit.clone();
        assert(audit.deep_view() =~= self.audit.deep_view());
        let channel_snapshots = self.channel_snapshots.clone();
        assert(channel_snapshots.deep_view() =~= self.channel_snapshots.deep_view());
        let simulations = self.simulations.clone();
        assert(simulations.deep_view() =~= self.simulations.deep_view());
        let simulation_records = self.simulation_records.clone();
        assert(simulation_records.deep_view() =~= self.simulation_records.deep_view());
        let simulation_events = self.simulation_events.clone();
        assert(simulation_events.deep_view() =~= self.simulation_events.deep_view());
        let alerts = self.alerts.clone();
        assert(alerts.deep_view() =~= self.alerts.deep_view());
        let webhook_events = self.webhook_events.clone();
        assert(webhook_events.deep_view() =~= self.webhook_events.deep_view());
        Rows {
            findings,
            recommendations,
            audit,
            channel_snapshots,
            simulations,
            simulation_records,
            simulation_events,
            alerts,
            operational_state: self.operational_state,
            webhook_events,
        }
    }
}

/// A storage held in memory. A transaction sets aside what was there when it
/// began.
#[derive(Debug)]
pub struct MemoryStorage {
    rows: Rows,
    before: Option<Rows>,
}

/// The newest items that pass a test, the newest first, at most `limit`.
pub open spec fn newest_where<T>(all: Seq<T>, keep: spec_fn(T) -> bool, limit: nat) -> Seq<T>
    decreases all.len(),
{
    if all.len() == 0 || limit == 0 {
        seq![]
    } else if keep(all.last()) {
        seq![all.last()] + newest_where(all.drop_last(), keep, (limit - 1) as nat)
    } else {
        newest_where(all.drop_last(), keep, limit)
    }
}

/// The items that pass a test, in order.
pub open spec fn all_where<T>(all: Seq<T>, keep: spec_fn(T) -> bool) -> Seq<T>
    decreases all.len(),
{
    if all.len() == 0 {
        seq![]
    } else if keep(all.last()) {
        all_where(all.drop_last(), keep).push(all.last())
    } else {
        all_where(all.drop_last(), keep)
    }
}

/// The place of the first item that passes a test, or the number of items.
pub open spec fn first_where<T>(all: Seq<T>, keep: spec_fn(T) -> bool) -> int
    decreases all.len(),
{
    if all.len() == 0 || keep(all[0]) {
        0
    } else {
        1 + first_where(all.skip(1), keep)
    }
}

proof fn lemma_first_where<T>(all: Seq<T>, keep: spec_fn(T) -> bool, k: int)
    requires
        0 <= k <= all.len(),
        forall|i: int| 0 <= i < k ==> !keep(#[trigger] all[i]),
        k < all.len() ==> keep(all[k]),
    ensures
        first_where(all, keep) == k,
    decreases k,
{
    if k > 0 {
        assert(!keep(all[0]));
        assert forall|i: int| 0 <= i < k - 1 implies !keep(#[trigger] all.skip(1)[i]) by {
            assert(!keep(all[i + 1]));
        }
        lemma_first_where(all.skip(1), keep, k - 1);
    }
}

/// The first item that passes a test stands where `first_where` says, and none
/// before it passes.
pub proof fn lemma_first_where_is_first<T>(all: Seq<T>, keep: spec_fn(T) -> bool)
    ensures
        0 <= first_where(all, keep) <= all.len(),
        first_where(all, keep) < all.len() ==> keep(all[first_where(all, keep)]),
        forall|i: int| 0 <= i < first_where(all, keep) ==> !keep(#[trigger] all[i]),
    decreases all.len(),
{
    if all.len() > 0 && !keep(all[0]) {
        lemma_first_where_is_first(all.skip(1), keep);
        assert forall|i: int| 0 <= i < first_where(all, keep) implies !keep(
            #[trigger] all[i],
        ) by {
            if i > 0 {
                assert(all.skip(1)[i - 1] == all[i]);
            }
        }
    }
}

/// The finding of an identity.
pub open spec fn finding_of(all: Seq<FindingView>, id: Seq<char>) -> Option<FindingView> {
    graph::found(all, first_where(all, |e: FindingView| e.id == id))
}

/// The recommendation of an action.
pub open spec fn recommendation_of(
    all: Seq<RecommendationView>,
    action_id: Seq<char>,
) -> Option<RecommendationView> {
    graph::found(all, first_where(all, |e: RecommendationView| e.action.id == action_id))
}

/// The run of an identity.
pub open spec fn record_named(
    all: Seq<SimulationRecordView>,
    id: Seq<char>,
) -> Option<SimulationRecordView> {
    graph::found(all, first_where(all, |e: SimulationRecordView| e.id == id))
}

/// The state of an alert.
pub open spec fn alert_of(all: Seq<AlertEntryView>, key: Seq<char>) -> Option<AlertState> {
    match graph::found(all, first_where(all, |e: AlertEntryView| e.key == key)) {
        Some(entry) => Some(entry.state),
        None => None,
    }
}

/// The snapshot of a channel at a moment.
pub open spec fn snapshot_at(
    all: Seq<ChannelSnapshotView>,
    network: BitcoinNetwork,
    node_id: Seq<char>,
    channel_id: Seq<char>,
    at: Timestamp,
) -> Option<ChannelSnapshotView> {
    graph::found(
        all,
        first_where(
            all,
            |s: ChannelSnapshotView|
                s.network == Some(network) && s.node_id == Some(node_id) && s.channel_id
                    == channel_id && s.ts == at,
        ),
    )
}

/// The webhook events that wait to be processed.
pub open spec fn waiting(all: Seq<WebhookEventRecordView>) -> Seq<WebhookEventRecordView> {
    all_where(all, |e: WebhookEventRecordView| e.processed_at is None)
}

/// Whether two findings are about the same thing, seen by the same detector.
pub open spec fn same_subject(a: FindingView, b: FindingView) -> bool {
    a.detector == b.detector && a.detector_version == b.detector_version && network_of(a)
        == network_of(b) && a.node == b.node && a.channel == b.channel
}

/// The network that a finding was made on.
pub open spec fn network_of(f: FindingView) -> Option<BitcoinNetwork> {
    match f.provenance {
        Some(p) => p.network,
        None => None,
    }
}

/// When what a finding is about was first seen, as far as these findings know.
pub open spec fn earliest(all: Seq<FindingView>, f: FindingView) -> Timestamp
    decreases all.len(),
{
    if all.len() == 0 {
        f.first_seen_at
    } else {
        let rest = earliest(all.drop_last(), f);
        if same_subject(all.last(), f) && all.last().first_seen_at.order() < rest.order() {
            all.last().first_seen_at
        } else {
            rest
        }
    }
}

/// A stored finding that is seen again: it is known from the earlier of the two
/// moments on, and what was seen last is what it says. An older sighting changes
/// nothing else.
pub open spec fn seen_again(
    existing: FindingView,
    f: FindingView,
    first: Timestamp,
) -> FindingView {
    let first_seen_at = if first.order() < existing.first_seen_at.order() {
        first
    } else {
        existing.first_seen_at
    };
    if f.last_seen_at.order() >= existing.last_seen_at.order() {
        FindingView {
            first_seen_at,
            severity: f.severity,
            evidence: f.evidence,
            provenance: f.provenance,
            explanation: f.explanation,
            schema_version: f.schema_version,
            timestamp: f.timestamp,
            last_seen_at: f.last_seen_at,
            lifecycle: FindingLifecycle::Active,
            ..existing
        }
    } else {
        FindingView { first_seen_at, ..existing }
    }
}

/// The findings with one more saved.
pub open spec fn with_finding(all: Seq<FindingView>, f: FindingView) -> Seq<FindingView> {
    let first = earliest(all, f);
    let place = first_where(all, |e: FindingView| e.id == f.id);
    if 0 <= place < all.len() {
        all.update(place, seen_again(all[place], f, first))
    } else {
        all.push(
            FindingView { first_seen_at: first, lifecycle: FindingLifecycle::Active, ..f },
        )
    }
}

/// Whether a finding lies in the scope of a cycle.
pub open spec fn in_scope(f: FindingView, scope: FindingCycleScopeView) -> bool {
    f.detector == scope.detector && network_of(f) == scope.network && f.node == scope.node
}

/// The findings after a cycle over this scope: where it was complete, all active
/// ones in its scope are resolved.
pub open spec fn resolved(all: Seq<FindingView>, scope: FindingCycleScopeView) -> Seq<FindingView> {
    if scope.complete {
        all.map_values(
            |f: FindingView|
                if in_scope(f, scope) && f.lifecycle == FindingLifecycle::Active {
                    FindingView { lifecycle: FindingLifecycle::Resolved, ..f }
                } else {
                    f
                },
        )
    } else {
        all
    }
}

/// Whether a finding passes a filter.
pub open spec fn passes(f: FindingView, filter: FindingLifecycleFilter) -> bool {
    match filter {
        FindingLifecycleFilter::Active => f.lifecycle == FindingLifecycle::Active,
        FindingLifecycleFilter::Resolved => f.lifecycle == FindingLifecycle::Resolved,
        FindingLifecycleFilter::All => true,
    }
}

/// Whether a finding passes a filter.
pub fn lifecycle_matches(finding: &Finding, filter: FindingLifecycleFilter) -> (r: bool)
    ensures
        r == passes(finding.deep_view(), filter),
{
    match filter {
        FindingLifecycleFilter::Active => finding.lifecycle == FindingLifecycle::Active,
        FindingLifecycleFilter::Resolved => finding.lifecycle == FindingLifecycle::Resolved,
        FindingLifecycleFilter::All => true,
    }
}

fn network_in(f: &Finding) -> (r: Option<BitcoinNetwork>)
    ensures
        r == network_of(f.deep_view()),
{
    match &f.provenance {
        Some(p) => p.network,
        None => None,
    }
}

fn is_same_subject(a: &Finding, b: &Finding) -> (r: bool)
    ensures
        r == same_subject(a.deep_view(), b.deep_view()),
{
    same_text(a.detector.as_str(), b.detector.as_str()) && same_text(
        a.detector_version.as_str(),
        b.detector_version.as_str(),
    ) && same_network(network_in(a), network_in(b)) && same_optional_text(&a.node, &b.node)
        && same_optional_text(&a.channel, &b.channel)
}

/// When what a finding is about was first seen, as far as these findings know.
pub fn earliest_sighting(all: &Vec<Finding>, f: &Finding) -> (r: Timestamp)
    ensures
        r == earliest(all.deep_view(), f.deep_view()),
{
    let ghost views = all.deep_view();
    let mut first = f.first_seen_at;
    let mut i: usize = 0;
    while i < all.len()
        invariant
            i <= all.len(),
            views == all.deep_view(),
            first == earliest(views.take(i as int), f.deep_view()),
        decreases all.len() - i,
    {
        assert(views.take(i + 1).drop_last() =~= views.take(i as int));
        assert(views.take(i + 1).last() == all[i as int].deep_view());
        if is_same_subject(&all[i], f) && all[i].first_seen_at.is_before(&first) {
            first = all[i].first_seen_at;
        }
        i += 1;
    }
    assert(views.take(i as int) =~= views);
    first
}

/// A stored finding that is seen again; `first` is when what it is about was
/// first seen.
pub fn merge_sighting(existing: &Finding, f: &Finding, first: Timestamp) -> (r: Finding)
    ensures
        r.deep_view() == seen_again(existing.deep_view(), f.deep_view(), first),
{
    let first_seen_at = existing.first_seen_at.earlier_of(&first);
    if f.last_seen_at.is_before(&existing.last_seen_at) {
        let mut kept = existing.clone();
        kept.first_seen_at = first_seen_at;
        kept
    } else {
        let evidence = f.evidence.clone();
        assert(evidence.deep_view() =~= f.evidence.deep_view());
        Finding {
            id: existing.id.clone(),
            detector: existing.detector.clone(),
            detector_version: existing.detector_version.clone(),
            schema_version: f.schema_version,
            severity: f.severity,
            node: copy_optional_text(&existing.node),
            channel: copy_optional_text(&existing.channel),
            evidence,
            provenance: f.provenance.clone(),
            explanation: copy_optional_text(&f.explanation),
            timestamp: f.timestamp,
            first_seen_at,
            last_seen_at: f.last_seen_at,
            lifecycle: FindingLifecycle::Active,
        }
    }
}

/// The recommendations with one more saved; of one that is there already only
/// the moment of its last change is taken over.
pub open spec fn with_recommendation(
    all: Seq<RecommendationView>,
    rec: RecommendationView,
) -> Seq<RecommendationView> {
    let place = first_where(all, |e: RecommendationView| e.action.id == rec.action.id);
    if 0 <= place < all.len() {
        all.update(
            place,
            RecommendationView {
                action: action::ActionView {
                    updated_at: rec.action.updated_at,
                    ..all[place].action
                },
                ..all[place]
            },
        )
    } else {
        all.push(rec)
    }
}

/// The recommendations with an action brought to a stage; none is changed where
/// no action is called so.
pub open spec fn with_stage(
    all: Seq<RecommendationView>,
    action_id: Seq<char>,
    stage: ActionStage,
    now: Timestamp,
) -> Seq<RecommendationView> {
    let place = first_where(all, |e: RecommendationView| e.action.id == action_id);
    if 0 <= place < all.len() {
        all.update(
            place,
            RecommendationView {
                action: action::ActionView { stage, updated_at: now, ..all[place].action },
                ..all[place]
            },
        )
    } else {
        all
    }
}

/// Whether a run can be found again by its input: its input and its result were
/// stored.
pub open spec fn reusable(r: SimulationRecordView) -> bool {
    r.canonical_input != JsonView::Null && r.projection != JsonView::Null
}

/// Why a run cannot be stored: one of the same identity is there and differs, or
/// one with the same input is.
pub open spec fn record_conflict(
    all: Seq<SimulationRecordView>,
    rec: SimulationRecordView,
) -> Option<Seq<char>> {
    let place = first_where(all, |e: SimulationRecordView| e.id == rec.id);
    if 0 <= place < all.len() {
        if records::same_record(all[place], rec) {
            None
        } else {
            Some("simulation "@ + rec.id + " is immutable"@)
        }
    } else if rec.input_hash.len() > 0 && reusable(rec) && exists|i: int|
        0 <= i < all.len() && (#[trigger] all[i]).input_hash == rec.input_hash && reusable(all[i]) {
        Some("simulation input "@ + rec.input_hash + " already exists"@)
    } else {
        None
    }
}

/// The runs with one more stored; one that is there already is not stored again.
pub open spec fn with_record(
    all: Seq<SimulationRecordView>,
    rec: SimulationRecordView,
) -> Seq<SimulationRecordView> {
    let place = first_where(all, |e: SimulationRecordView| e.id == rec.id);
    if 0 <= place < all.len() {
        all
    } else {
        all.push(rec)
    }
}

/// The latest run with this input that can be replayed; of two made at the same
/// time, the one stored last.
pub open spec fn latest_with_input(
    all: Seq<SimulationRecordView>,
    input_hash: Seq<char>,
) -> Option<SimulationRecordView>
    decreases all.len(),
{
    if all.len() == 0 {
        None
    } else {
        let before = latest_with_input(all.drop_last(), input_hash);
        let last = all.last();
        if input_hash.len() > 0 && last.input_hash == input_hash && last.canonical_input
            != JsonView::Null && (before is None || !text::precedes(
            last.created_at,
            before->0.created_at,
        )) {
            Some(last)
        } else {
            before
        }
    }
}

/// The states of alerts with one written.
pub open spec fn with_alert(all: Seq<AlertEntryView>, key: Seq<char>, state: AlertState) -> Seq<
    AlertEntryView,
> {
    graph::put(all, first_where(all, |e: AlertEntryView| e.key == key), AlertEntryView { key, state })
}

/// The webhook events with one more taken in; a delivery that came before is not
/// taken in again.
pub open spec fn with_webhook(
    all: Seq<WebhookEventRecordView>,
    event: WebhookEventRecordView,
) -> Seq<WebhookEventRecordView> {
    let place = first_where(all, |e: WebhookEventRecordView| e.delivery_id == event.delivery_id);
    if 0 <= place < all.len() {
        all
    } else {
        all.push(event)
    }
}

/// The webhook events with one marked as processed.
pub open spec fn with_processed(
    all: Seq<WebhookEventRecordView>,
    delivery_id: Seq<char>,
    at: Timestamp,
) -> Seq<WebhookEventRecordView> {
    let place = first_where(all, |e: WebhookEventRecordView| e.delivery_id == delivery_id);
    if 0 <= place < all.len() {
        all.update(place, WebhookEventRecordView { processed_at: Some(at), ..all[place] })
    } else {
        all
    }
}

/// The first `limit` items.
pub open spec fn at_most<T>(all: Seq<T>, limit: nat) -> Seq<T> {
    if all.len() <= limit {
        all
    } else {
        all.take(limit as int)
    }
}

/// How far the rows of a table are counted.
pub const COUNT_CAP: u32 = 100_000;

/// The count of so many rows.
pub open spec fn counted(rows: nat) -> nat {
    if rows <= COUNT_CAP {
        rows
    } else {
        COUNT_CAP as nat
    }
}

fn count(rows: usize) -> (r: usize)
    ensures
        r == counted(rows as nat),
        r <= COUNT_CAP,
{
    if rows <= COUNT_CAP as usize {
        rows
    } else {
        COUNT_CAP as usize
    }
}

/// A failed operation, over mathematical values.
pub open spec fn backend(message: Seq<char>) -> Option<StorageErrorView> {
    Some(StorageErrorView::Backend(message))
}

/// What is stored, and what was stored when the open transaction began, if one is
/// open.
pub struct StorageState {
    pub stored: StorageModel,
    pub set_aside: Option<StorageModel>,
}

/// A storage after a transaction was to begin, and why it did not.
pub open spec fn opened(s: StorageState) -> (StorageState, Option<StorageErrorView>) {
    if s.set_aside is Some {
        (s, backend("nested transaction attempted"@))
    } else {
        (StorageState { set_aside: Some(s.stored), ..s }, None)
    }
}

/// A storage after a transaction was to be kept, and why it was not.
pub open spec fn committed(s: StorageState) -> (StorageState, Option<StorageErrorView>) {
    if s.set_aside is Some {
        (StorageState { set_aside: None, ..s }, None)
    } else {
        (s, backend("commit with no open transaction"@))
    }
}

/// A storage after a transaction was to be given up, and why it was not.
pub open spec fn rolled_back(s: StorageState) -> (StorageState, Option<StorageErrorView>) {
    match s.set_aside {
        Some(before) => (StorageState { stored: before, set_aside: None }, None),
        None => (s, backend("rollback with no open transaction"@)),
    }
}

impl MemoryStorage {
    /// What is stored.
    pub closed spec fn model(&self) -> StorageModel {
        self.rows.deep_view()
    }

    /// What was stored when the open transaction began, if one is open.
    pub closed spec fn set_aside(&self) -> Option<StorageModel> {
        self.before.deep_view()
    }

    /// What is stored, with the open transaction.
    pub open spec fn state(&self) -> StorageState {
        StorageState { stored: self.model(), set_aside: self.set_aside() }
    }

    /// A storage with nothing in it.
    pub fn new() -> (r: MemoryStorage)
        ensures
            r.model() == empty_storage(),
            r.set_aside() is None,
    {
        let r = MemoryStorage {
            rows: Rows {
                findings: Vec::new(),
                recommendations: Vec::new(),
                audit: Vec::new(),
                channel_snapshots: Vec::new(),
                simulations: Vec::new(),
                simulation_records: Vec::new(),
                simulation_events: Vec::new(),
                alerts: Vec::new(),
                operational_state: None,
                webhook_events: Vec::new(),
            },
            before: None,
        };
        assert(r.rows.findings.deep_view() =~= seq![]);
        assert(r.rows.recommendations.deep_view() =~= seq![]);
        assert(r.rows.audit.deep_view() =~= seq![]);
        assert(r.rows.channel_snapshots.deep_view() =~= seq![]);
        assert(r.rows.simulations.deep_view() =~= seq![]);
        assert(r.rows.simulation_records.deep_view() =~= seq![]);
        assert(r.rows.simulation_events.deep_view() =~= seq![]);
        assert(r.rows.alerts.deep_view() =~= seq![]);
        assert(r.rows.webhook_events.deep_view() =~= seq![]);
        r
    }

    /// Begins a transaction; there must be none open.
    pub fn begin_transaction(&mut self) -> (r: Result<(), StorageError>)
        ensures
            (final(self).state(), records::refused(r)) == opened(old(self).state()),
    {
        if self.before.is_some() {
            return Err(StorageError::Backend("nested transaction attempted".to_owned()));
        }
        self.before = Some(self.rows.clone());
        Ok(())
    }

    /// Ends the open transaction and keeps what was written.
    pub fn commit_transaction(&mut self) -> (r: Result<(), StorageError>)
        ensures
            (final(self).state(), records::refused(r)) == committed(old(self).state()),
    {
        if self.before.is_none() {
            return Err(StorageError::Backend("commit with no open transaction".to_owned()));
        }
        self.before = None;
        Ok(())
    }

    /// Ends the open transaction and gives up what was written.
    pub fn rollback_transaction(&mut self) -> (r: Result<(), StorageError>)
        ensures
            (final(self).state(), records::refused(r)) == rolled_back(old(self).state()),
    {
        match self.before.take() {
            Some(before) => {
                self.rows = before;
                Ok(())
            },
            None => Err(StorageError::Backend("rollback with no open transaction".to_owned())),
        }
    }

    /// The version of the schema that is stored.
    pub fn schema_version(&self) -> (r: Result<i64, StorageError>)
        ensures
            r == Ok::<i64, StorageError>(records::CURRENT_SCHEMA_VERSION),
    {
        Ok(records::CURRENT_SCHEMA_VERSION)
    }

    /// Checks that what is stored is intact, which it always is.
    pub fn integrity_check(&self) -> (r: Result<(), StorageError>)
        ensures
            r == Ok::<(), StorageError>(()),
    {
        Ok(())
    }

    fn place_of_finding(&self, id: &str) -> (r: usize)
        ensures
            r == first_where(self.model().findings, |e: FindingView| e.id == id@),
            r <= self.rows.findings.len(),
    {
        let ghost all = self.rows.findings.deep_view();
        let ghost keep = |e: FindingView| e.id == id@;
        let mut i: usize = 0;
        while i < self.rows.findings.len()
            invariant
                i <= self.rows.findings.len(),
                all == self.rows.findings.deep_view(),
                keep == |e: FindingView| e.id == id@,
                forall|k: int| 0 <= k < i ==> !keep(#[trigger] all[k]),
            decreases self.rows.findings.len() - i,
        {
            let x = &self.rows.findings[i];
            assert(all[i as int] == x.deep_view());
            if same_text(x.id.as_str(), id) {
                proof {
                    lemma_first_where(all, keep, i as int);
                }
                return i;
            }
            i += 1;
        }
        proof {
            lemma_first_where(all, keep, i as int);
        }
        i
    }

    fn place_of_recommendation(&self, id: &str) -> (r: usize)
        ensures
            r == first_where(
                self.model().recommendations,
                |e: RecommendationView| e.action.id == id@,
            ),
            r <= self.rows.recommendations.len(),
    {
        let ghost all = self.rows.recommendations.deep_view();
        let ghost keep = |e: RecommendationView| e.action.id == id@;
        let mut i: usize = 0;
        while i < self.rows.recommendations.len()
            invariant
                i <= self.rows.recommendations.len(),
                all == self.rows.recommendations.deep_view(),
                keep == |e: RecommendationView| e.action.id == id@,
                forall|k: int| 0 <= k < i ==> !keep(#[trigger] all[k]),
            decreases self.rows.recommendations.len() - i,
        {
            let x = &self.rows.recommendations[i];
            assert(all[i as int] == x.deep_view());
            if same_text(x.action.id.as_str(), id) {
                proof {
                    lemma_first_where(all, keep, i as int);
                }
                return i;
            }
            i += 1;
        }
        proof {
            lemma_first_where(all, keep, i as int);
        }
        i
    }

    fn place_of_record(&self, id: &str) -> (r: usize)
        ensures
            r == first_where(
                self.model().simulation_records,
                |e: SimulationRecordView| e.id == id@,
            ),
            r <= self.rows.simulation_records.len(),
    {
        let ghost all = self.rows.simulation_records.deep_view();
        let ghost keep = |e: SimulationRecordView| e.id == id@;
        let mut i: usize = 0;
        while i < self.rows.simulation_records.len()
            invariant
                i <= self.rows.simulation_records.len(),
                all == self.rows.simulation_records.deep_view(),
                keep == |e: SimulationRecordView| e.id == id@,
                forall|k: int| 0 <= k < i ==> !keep(#[trigger] all[k]),
            decreases self.rows.simulation_records.len() - i,
        {
            let x = &self.rows.simulation_records[i];
            assert(all[i as int] == x.deep_view());
            if same_text(x.id.as_str(), id) {
                proof {
                    lemma_first_where(all, keep, i as int);
                }
                return i;
            }
            i += 1;
        }
        proof {
            lemma_first_where(all, keep, i as int);
        }
        i
    }

    fn place_of_alert(&self, key: &str) -> (r: usize)
        ensures
            r == first_where(self.model().alerts, |e: AlertEntryView| e.key == key@),
            r <= self.rows.alerts.len(),
    {
        let ghost all = self.rows.alerts.deep_view();
        let ghost keep = |e: AlertEntryView| e.key == key@;
        let mut i: usize = 0;
        while i < self.rows.alerts.len()
            invariant
                i <= self.rows.alerts.len(),
                all == self.rows.alerts.deep_view(),
                keep == |e: AlertEntryView| e.key == key@,
                forall|k: int| 0 <= k < i ==> !keep(#[trigger] all[k]),
            decreases self.rows.alerts.len() - i,
        {
            let x = &self.rows.alerts[i];
            assert(all[i as int] == x.deep_view());
            if same_text(x.key.as_str(), key) {
                proof {
                    lemma_first_where(all, keep, i as int);
                }
                return i;
            }
            i += 1;
        }
        proof {
            lemma_first_where(all, keep, i as int);
        }
        i
    }

    fn place_of_webhook(&self, id: &str) -> (r: usize)
        ensures
            r == first_where(
                self.model().webhook_events,
                |e: WebhookEventRecordView| e.delivery_id == id@,
            ),
            r <= self.rows.webhook_events.len(),
    {
        let ghost all = self.rows.webhook_events.deep_view();
        let ghost keep = |e: WebhookEventRecordView| e.delivery_id == id@;
        let mut i: usize = 0;
        while i < self.rows.webhook_events.len()
            invariant
                i <= self.rows.webhook_events.len(),
                all == self.rows.webhook_events.deep_view(),
                keep == |e: WebhookEventRecordView| e.delivery_id == id@,
                forall|k: int| 0 <= k < i ==> !keep(#[trigger] all[k]),
            decreases self.rows.webhook_events.len() - i,
        {
            let x = &self.rows.webhook_events[i];
            assert(all[i as int] == x.deep_view());
            if same_text(x.delivery_id.as_str(), id) {
                proof {
                    lemma_first_where(all, keep, i as int);
                }
                return i;
            }
            i += 1;
        }
        proof {
            lemma_first_where(all, keep, i as int);
        }
        i
    }

    /// Saves a finding. One of the same identity is seen again.
    pub fn save_finding(&mut self, finding: &Finding) -> (r: Result<(), StorageError>)
        ensures
            final(self).set_aside() == old(self).set_aside(),
            match codec::schema_refusal(finding.schema_version as int) {
                Some(message) => records::refused(r) == Some(StorageErrorView::Corrupt(message))
                    && final(self).model() == old(self).model(),
                None => r is Ok && final(self).model() == (StorageModel {
                    findings: with_finding(old(self).model().findings, finding.deep_view()),
                    ..old(self).model()
                }),
            },
    {
        if let Err(e) = validate_finding_schema(finding.schema_version) {
            return Err(e);
        }
        let ghost before = self.rows.findings.deep_view();
        let first = earliest_sighting(&self.rows.findings, finding);
        let i = self.place_of_finding(finding.id.as_str());
        if i < self.rows.findings.len() {
            let merged = merge_sighting(&self.rows.findings[i], finding, first);
            assert(before[i as int] == self.rows.findings[i as int].deep_view());
            self.rows.findings.set(i, merged);
            assert(self.rows.findings.deep_view() =~= before.update(
                i as int,
                merged.deep_view(),
            ));
        } else {
            let mut copy = finding.clone();
            copy.first_seen_at = first;
            copy.lifecycle = FindingLifecycle::Active;
            self.rows.findings.push(copy);
            assert(self.rows.findings.deep_view() =~= before.push(copy.deep_view()));
        }
        Ok(())
    }

    /// Resolves the active findings in the scope of a complete cycle.
    pub fn resolve_findings_for_scope(&mut self, scope: &FindingCycleScope) -> (r: Result<
        (),
        StorageError,
    >)
        ensures
            r is Ok,
            final(self).set_aside() == old(self).set_aside(),
            final(self).model() == (StorageModel {
                findings: resolved(old(self).model().findings, scope.deep_view()),
                ..old(self).model()
            }),
    {
        if !scope.complete {
            return Ok(());
        }
        let ghost start = self.rows;
        let ghost all = self.rows.findings.deep_view();
        let ghost wanted = resolved(all, scope.deep_view());
        let mut i: usize = 0;
        while i < self.rows.findings.len()
            invariant
                i <= self.rows.findings.len(),
                self.rows.findings.len() == all.len(),
                scope.complete,
                wanted == resolved(all, scope.deep_view()),
                self.rows == (Rows { findings: self.rows.findings, ..start }),
                self.before == old(self).before,
                self.rows.findings.deep_view() == wanted.take(i as int) + all.skip(i as int),
            decreases self.rows.findings.len() - i,
        {
            let ghost before = self.rows.findings.deep_view();
            assert(before[i as int] == all[i as int]);
            assert(before[i as int] == self.rows.findings[i as int].deep_view());
            let f = &self.rows.findings[i];
            if same_text(f.detector.as_str(), scope.detector.as_str()) && same_network(
                network_in(f),
                scope.network,
            ) && same_optional_text(&f.node, &scope.node) && f.lifecycle
                == FindingLifecycle::Active {
                let mut done = f.clone();
                done.lifecycle = FindingLifecycle::Resolved;
                self.rows.findings.set(i, done);
                assert(self.rows.findings.deep_view() =~= before.update(
                    i as int,
                    done.deep_view(),
                ));
            }
            assert(self.rows.findings.deep_view() =~= wanted.take(i + 1) + all.skip(i + 1));
            i += 1;
        }
        assert(wanted.take(i as int) + all.skip(i as int) =~= wanted);
        Ok(())
    }

    /// The newest findings, the newest first.
    pub fn latest_findings(&self, limit: u32) -> (r: Result<Vec<Finding>, StorageError>)
        ensures
            r matches Ok(found) && found.deep_view() == newest_where(
                self.model().findings,
                |f: FindingView| true,
                limit as nat,
            ),
    {
        let ghost all = self.rows.findings.deep_view();
        let ghost keep = |f: FindingView| true;
        let limit: usize = limit as usize;
        let mut out: Vec<Finding> = Vec::new();
        let mut i: usize = self.rows.findings.len();
        assert(all.take(i as int) =~= all);
        assert(out.deep_view() + newest_where(all, keep, limit as nat) =~= newest_where(
            all,
            keep,
            limit as nat,
        ));
        while i > 0 && out.len() < limit
            invariant
                i <= self.rows.findings.len(),
                out.len() <= limit,
                all == self.rows.findings.deep_view(),
                keep == |f: FindingView| true,
                out.deep_view() + newest_where(
                    all.take(i as int),
                    keep,
                    (limit - out.len()) as nat,
                ) == newest_where(all, keep, limit as nat),
            decreases i,
        {
            i -= 1;
            let x = &self.rows.findings[i];
            let ghost before = out.deep_view();
            let ghost left = (limit - out.len()) as nat;
            assert(all.take(i + 1).drop_last() =~= all.take(i as int));
            assert(all.take(i + 1).last() == x.deep_view());
            if true {
                let item = x.clone();
                out.push(item);
                assert(out.deep_view() =~= before.push(item.deep_view()));
                let ghost rest = newest_where(all.take(i as int), keep, (left - 1) as nat);
                assert(before + (seq![item.deep_view()] + rest) =~= out.deep_view() + rest);
            }
        }
        let ghost rest = newest_where(all.take(i as int), keep, (limit - out.len()) as nat);
        assert(rest =~= seq![]);
        assert(out.deep_view() + rest =~= out.deep_view());
        Ok(out)
    }

    /// The finding of this identity.
    pub fn finding_by_id(&self, finding_id: &str) -> (r: Result<Option<Finding>, StorageError>)
        ensures
            r matches Ok(found) && found.deep_view() == finding_of(
                self.model().findings,
                finding_id@,
            ),
    {
        let ghost all = self.rows.findings.deep_view();
        let ghost keep = |f: FindingView| f.id == finding_id@;
        let mut i: usize = 0;
        while i < self.rows.findings.len()
            invariant
                i <= self.rows.findings.len(),
                all == self.rows.findings.deep_view(),
                keep == |f: FindingView| f.id == finding_id@,
                forall|k: int| 0 <= k < i ==> !keep(#[trigger] all[k]),
            decreases self.rows.findings.len() - i,
        {
            let x = &self.rows.findings[i];
            assert(all[i as int] == x.deep_view());
            if same_text(x.id.as_str(), finding_id) {
                proof {
                    lemma_first_where(all, keep, i as int);
                }
                return Ok(Some(x.clone()));
            }
            i += 1;
        }
        proof {
            lemma_first_where(all, keep, i as int);
        }
        Ok(None)
    }

    /// The newest findings that pass a filter, the newest first.
    pub fn latest_findings_by_lifecycle(
        &self,
        limit: u32,
        lifecycle: FindingLifecycleFilter,
    ) -> (r: Result<Vec<Finding>, StorageError>)
        ensures
            r matches Ok(found) && found.deep_view() == newest_where(
                self.model().findings,
                |f: FindingView| passes(f, lifecycle),
                limit as nat,
            ),
    {
        let ghost all = self.rows.findings.deep_view();
        let ghost keep = |f: FindingView| passes(f, lifecycle);
        let limit: usize = limit as usize;
        let mut out: Vec<Finding> = Vec::new();
        let mut i: usize = self.rows.findings.len();
        assert(all.take(i as int) =~= all);
        assert(out.deep_view() + newest_where(all, keep, limit as nat) =~= newest_where(
            all,
            keep,
            limit as nat,
        ));
        while i > 0 && out.len() < limit
            invariant
                i <= self.rows.findings.len(),
                out.len() <= limit,
                all == self.rows.findings.deep_view(),
                keep == |f: FindingView| passes(f, lifecycle),
                out.deep_view() + newest_where(
                    all.take(i as int),
                    keep,
                    (limit - out.len()) as nat,
                ) == newest_where(all, keep, limit as nat),
            decreases i,
        {
            i -= 1;
            let x = &self.rows.findings[i];
            let ghost before = out.deep_view();
            let ghost left = (limit - out.len()) as nat;
            assert(all.take(i + 1).drop_last() =~= all.take(i as int));
            assert(all.take(i + 1).last() == x.deep_view());
            if lifecycle_matches(x, lifecycle) {
                let item = x.clone();
                out.push(item);
                assert(out.deep_view() =~= before.push(item.deep_view()));
                let ghost rest = newest_where(all.take(i as int), keep, (left - 1) as nat);
                assert(before + (seq![item.deep_view()] + rest) =~= out.deep_view() + rest);
            }
        }
        let ghost rest = newest_where(all.take(i as int), keep, (limit - out.len()) as nat);
        assert(rest =~= seq![]);
        assert(out.deep_view() + rest =~= out.deep_view());
        Ok(out)
    }

    /// The newest findings about a channel, the newest first.
    pub fn findings_for_channel(
        &self,
        channel_id: &str,
        limit: u32,
    ) -> (r: Result<Vec<Finding>, StorageError>)
        ensures
            r matches Ok(found) && found.deep_view() == newest_where(
                self.model().findings,
                |f: FindingView| f.channel == Some(channel_id@),
                limit as nat,
            ),
    {
        let ghost all = self.rows.findings.deep_view();
        let ghost keep = |f: FindingView| f.channel == Some(channel_id@);
        let limit: usize = limit as usize;
        let mut out: Vec<Finding> = Vec::new();
        let mut i: usize = self.rows.findings.len();
        assert(all.take(i as int) =~= all);
        assert(out.deep_view() + newest_where(all, keep, limit as nat) =~= newest_where(
            all,
            keep,
            limit as nat,
        ));
        while i > 0 && out.len() < limit
            invariant
                i <= self.rows.findings.len(),
                out.len() <= limit,
                all == self.rows.findings.deep_view(),
                keep == |f: FindingView| f.channel == Some(channel_id@),
                out.deep_view() + newest_where(
                    all.take(i as int),
                    keep,
                    (limit - out.len()) as nat,
                ) == newest_where(all, keep, limit as nat),
            decreases i,
        {
            i -= 1;
            let x = &self.rows.findings[i];
            let ghost before = out.deep_view();
            let ghost left = (limit - out.len()) as nat;
            assert(all.take(i + 1).drop_last() =~= all.take(i as int));
            assert(all.take(i + 1).last() == x.deep_view());
            if is_named(&x.channel, channel_id) {
                let item = x.clone();
                out.push(item);
                assert(out.deep_view() =~= before.push(item.deep_view()));
                let ghost rest = newest_where(all.take(i as int), keep, (left - 1) as nat);
                assert(before + (seq![item.deep_view()] + rest) =~= out.deep_view() + rest);
            }
        }
        let ghost rest = newest_where(all.take(i as int), keep, (limit - out.len()) as nat);
        assert(rest =~= seq![]);
        assert(out.deep_view() + rest =~= out.deep_view());
        Ok(out)
    }

    /// The newest findings about a channel that pass a filter, the newest first.
    pub fn findings_for_channel_by_lifecycle(
        &self,
        channel_id: &str,
        limit: u32,
        lifecycle: FindingLifecycleFilter,
    ) -> (r: Result<Vec<Finding>, StorageError>)
        ensures
            r matches Ok(found) && found.deep_view() == newest_where(
                self.model().findings,
                |f: FindingView| f.channel == Some(channel_id@) && passes(f, lifecycle),
                limit as nat,
            ),
    {
        let ghost all = self.rows.findings.deep_view();
        let ghost keep = |f: FindingView| f.channel == Some(channel_id@) && passes(f, lifecycle);
        let limit: usize = limit as usize;
        let mut out: Vec<Finding> = Vec::new();
        let mut i: usize = self.rows.findings.len();
        assert(all.take(i as int) =~= all);
        assert(out.deep_view() + newest_where(all, keep, limit as nat) =~= newest_where(
            all,
            keep,
            limit as nat,
        ));
        while i > 0 && out.len() < limit
            invariant
                i <= self.rows.findings.len(),
                out.len() <= limit,
                all == self.rows.findings.deep_view(),
                keep == |f: FindingView| f.channel == Some(channel_id@) && passes(f, lifecycle),
                out.deep_view() + newest_where(
                    all.take(i as int),
                    keep,
                    (limit - out.len()) as nat,
                ) == newest_where(all, keep, limit as nat),
            decreases i,
        {
            i -= 1;
            let x = &self.rows.findings[i];
            let ghost before = out.deep_view();
            let ghost left = (limit - out.len()) as nat;
            assert(all.take(i + 1).drop_last() =~= all.take(i as int));
            assert(all.take(i + 1).last() == x.deep_view());
            if is_named(&x.channel, channel_id) && lifecycle_matches(x, lifecycle) {
                let item = x.clone();
                out.push(item);
                assert(out.deep_view() =~= before.push(item.deep_view()));
                let ghost rest = newest_where(all.take(i as int), keep, (left - 1) as nat);
                assert(before + (seq![item.deep_view()] + rest) =~= out.deep_view() + rest);
            }
        }
        let ghost rest = newest_where(all.take(i as int), keep, (limit - out.len()) as nat);
        assert(rest =~= seq![]);
        assert(out.deep_view() + rest =~= out.deep_view());
        Ok(out)
    }

    /// Saves a recommendation. Of one whose action is there already only the
    /// moment of its last change is taken over.
    pub fn save_recommendation(&mut self, rec: &Recommendation) -> (r: Result<(), StorageError>)
        ensures
            r is Ok,
            final(self).set_aside() == old(self).set_aside(),
            final(self).model() == (StorageModel {
                recommendations: with_recommendation(
                    old(self).model().recommendations,
                    rec.deep_view(),
                ),
                ..old(self).model()
            }),
    {
        let ghost before = self.rows.recommendations.deep_view();
        let i = self.place_of_recommendation(rec.action.id.as_str());
        if i < self.rows.recommendations.len() {
            assert(before[i as int] == self.rows.recommendations[i as int].deep_view());
            let mut kept = self.rows.recommendations[i].clone();
            kept.action.updated_at = rec.action.updated_at;
            self.rows.recommendations.set(i, kept);
            assert(self.rows.recommendations.deep_view() =~= before.update(
                i as int,
                kept.deep_view(),
            ));
        } else {
            let copy = rec.clone();
            self.rows.recommendations.push(copy);
            assert(self.rows.recommendations.deep_view() =~= before.push(copy.deep_view()));
        }
        Ok(())
    }

    /// The newest recommendations, the newest first.
    pub fn latest_recommendations(
        &self,
        limit: u32,
    ) -> (r: Result<Vec<Recommendation>, StorageError>)
        ensures
            r matches Ok(found) && found.deep_view() == newest_where(
                self.model().recommendations,
                |e: RecommendationView| true,
                limit as nat,
            ),
    {
        let ghost all = self.rows.recommendations.deep_view();
        let ghost keep = |e: RecommendationView| true;
        let limit: usize = limit as usize;
        let mut out: Vec<Recommendation> = Vec::new();
        let mut i: usize = self.rows.recommendations.len();
        assert(all.take(i as int) =~= all);
        assert(out.deep_view() + newest_where(all, keep, limit as nat) =~= newest_where(
            all,
            keep,
            limit as nat,
        ));
        while i > 0 && out.len() < limit
            invariant
                i <= self.rows.recommendations.len(),
                out.len() <= limit,
                all == self.rows.recommendations.deep_view(),
                keep == |e: RecommendationView| true,
                out.deep_view() + newest_where(
                    all.take(i as int),
                    keep,
                    (limit - out.len()) as nat,
                ) == newest_where(all, keep, limit as nat),
            decreases i,
        {
            i -= 1;
            let x = &self.rows.recommendations[i];
            let ghost before = out.deep_view();
            let ghost left = (limit - out.len()) as nat;
            assert(all.take(i + 1).drop_last() =~= all.take(i as int));
            assert(all.take(i + 1).last() == x.deep_view());
            if true {
                let item = x.clone();
                out.push(item);
                assert(out.deep_view() =~= before.push(item.deep_view()));
                let ghost rest = newest_where(all.take(i as int), keep, (left - 1) as nat);
                assert(before + (seq![item.deep_view()] + rest) =~= out.deep_view() + rest);
            }
        }
        let ghost rest = newest_where(all.take(i as int), keep, (limit - out.len()) as nat);
        assert(rest =~= seq![]);
        assert(out.deep_view() + rest =~= out.deep_view());
        Ok(out)
    }

    /// The recommendation of this action.
    pub fn recommendation_for_action(
        &self,
        action_id: &str,
    ) -> (r: Result<Option<Recommendation>, StorageError>)
        ensures
            r matches Ok(found) && found.deep_view() == recommendation_of(
                self.model().recommendations,
                action_id@,
            ),
    {
        let ghost all = self.rows.recommendations.deep_view();
        let ghost keep = |e: RecommendationView| e.action.id == action_id@;
        let mut i: usize = 0;
        while i < self.rows.recommendations.len()
            invariant
                i <= self.rows.recommendations.len(),
                all == self.rows.recommendations.deep_view(),
                keep == |e: RecommendationView| e.action.id == action_id@,
                forall|k: int| 0 <= k < i ==> !keep(#[trigger] all[k]),
            decreases self.rows.recommendations.len() - i,
        {
            let x = &self.rows.recommendations[i];
            assert(all[i as int] == x.deep_view());
            if same_text(x.action.id.as_str(), action_id) {
                proof {
                    lemma_first_where(all, keep, i as int);
                }
                return Ok(Some(x.clone()));
            }
            i += 1;
        }
        proof {
            lemma_first_where(all, keep, i as int);
        }
        Ok(None)
    }

    /// Brings an action to a stage.
    pub fn set_action_stage(&mut self, action_id: &str, stage: ActionStage) -> (r: Result<
        (),
        StorageError,
    >)
        ensures
            r is Ok,
            final(self).set_aside() == old(self).set_aside(),
            exists|now: Timestamp|
                crate::time::shown_by_clock(now) && final(self).model() == (StorageModel {
                    recommendations: #[trigger] with_stage(
                        old(self).model().recommendations,
                        action_id@,
                        stage,
                        now,
                    ),
                    ..old(self).model()
                }),
    {
        self.set_action_stage_at(action_id, stage, current_time())
    }

    /// Brings an action to a stage at `now`.
    pub fn set_action_stage_at(
        &mut self,
        action_id: &str,
        stage: ActionStage,
        now: Timestamp,
    ) -> (r: Result<(), StorageError>)
        ensures
            r is Ok,
            final(self).set_aside() == old(self).set_aside(),
            final(self).model() == (StorageModel {
                recommendations: with_stage(
                    old(self).model().recommendations,
                    action_id@,
                    stage,
                    now,
                ),
                ..old(self).model()
            }),
    {
        let ghost before = self.rows.recommendations.deep_view();
        let i = self.place_of_recommendation(action_id);
        if i < self.rows.recommendations.len() {
            assert(before[i as int] == self.rows.recommendations[i as int].deep_view());
            let mut changed = self.rows.recommendations[i].clone();
            changed.action.stage = stage;
            changed.action.updated_at = now;
            self.rows.recommendations.set(i, changed);
            assert(self.rows.recommendations.deep_view() =~= before.update(
                i as int,
                changed.deep_view(),
            ));
        }
        Ok(())
    }

    /// Appends an entry to the audit.
    pub fn append_audit(&mut self, entry: &AuditEntry) -> (r: Result<(), StorageError>)
        ensures
            r is Ok,
            final(self).set_aside() == old(self).set_aside(),
            final(self).model() == (StorageModel {
                audit: old(self).model().audit.push(entry.deep_view()),
                ..old(self).model()
            }),
    {
        let ghost before = self.rows.audit.deep_view();
        let copy = entry.clone();
        self.rows.audit.push(copy);
        assert(self.rows.audit.deep_view() =~= before.push(copy.deep_view()));
        Ok(())
    }

    /// The newest entries of the audit, the newest first.
    pub fn recent_audit(&self, limit: u32) -> (r: Result<Vec<AuditEntry>, StorageError>)
        ensures
            r matches Ok(found) && found.deep_view() == newest_where(
                self.model().audit,
                |e: AuditEntryView| true,
                limit as nat,
            ),
    {
        let ghost all = self.rows.audit.deep_view();
        let ghost keep = |e: AuditEntryView| true;
        let limit: usize = limit as usize;
        let mut out: Vec<AuditEntry> = Vec::new();
        let mut i: usize = self.rows.audit.len();
        assert(all.take(i as int) =~= all);
        assert(out.deep_view() + newest_where(all, keep, limit as nat) =~= newest_where(
            all,
            keep,
            limit as nat,
        ));
        while i > 0 && out.len() < limit
            invariant
                i <= self.rows.audit.len(),
                out.len() <= limit,
                all == self.rows.audit.deep_view(),
                keep == |e: AuditEntryView| true,
                out.deep_view() + newest_where(
                    all.take(i as int),
                    keep,
                    (limit - out.len()) as nat,
                ) == newest_where(all, keep, limit as nat),
            decreases i,
        {
            i -= 1;
            let x = &self.rows.audit[i];
            let ghost before = out.deep_view();
            let ghost left = (limit - out.len()) as nat;
            assert(all.take(i + 1).drop_last() =~= all.take(i as int));
            assert(all.take(i + 1).last() == x.deep_view());
            if true {
                let item = x.clone();
                out.push(item);
                assert(out.deep_view() =~= before.push(item.deep_view()));
                let ghost rest = newest_where(all.take(i as int), keep, (left - 1) as nat);
                assert(before + (seq![item.deep_view()] + rest) =~= out.deep_view() + rest);
            }
        }
        let ghost rest = newest_where(all.take(i as int), keep, (limit - out.len()) as nat);
        assert(rest =~= seq![]);
        assert(out.deep_view() + rest =~= out.deep_view());
        Ok(out)
    }

    /// Saves a snapshot of a channel.
    pub fn save_channel_snapshot(
        &mut self,
        snapshot: &ChannelSnapshot,
    ) -> (r: Result<(), StorageError>)
        ensures
            r is Ok,
            final(self).set_aside() == old(self).set_aside(),
            final(self).model() == (StorageModel {
                channel_snapshots: old(self).model().channel_snapshots.push(snapshot.deep_view()),
                ..old(self).model()
            }),
    {
        let ghost before = self.rows.channel_snapshots.deep_view();
        let copy = snapshot.clone();
        self.rows.channel_snapshots.push(copy);
        assert(self.rows.channel_snapshots.deep_view() =~= before.push(copy.deep_view()));
        Ok(())
    }

    /// The newest snapshots of a channel, the newest first.
    pub fn recent_channel_snapshots(
        &self,
        channel_id: &str,
        limit: u32,
    ) -> (r: Result<Vec<ChannelSnapshot>, StorageError>)
        ensures
            r matches Ok(found) && found.deep_view() == newest_where(
                self.model().channel_snapshots,
                |s: ChannelSnapshotView| s.channel_id == channel_id@,
                limit as nat,
            ),
    {
        let ghost all = self.rows.channel_snapshots.deep_view();
        let ghost keep = |s: ChannelSnapshotView| s.channel_id == channel_id@;
        let limit: usize = limit as usize;
        let mut out: Vec<ChannelSnapshot> = Vec::new();
        let mut i: usize = self.rows.channel_snapshots.len();
        assert(all.take(i as int) =~= all);
        assert(out.deep_view() + newest_where(all, keep, limit as nat) =~= newest_where(
            all,
            keep,
            limit as nat,
        ));
        while i > 0 && out.len() < limit
            invariant
                i <= self.rows.channel_snapshots.len(),
                out.len() <= limit,
                all == self.rows.channel_snapshots.deep_view(),
                keep == |s: ChannelSnapshotView| s.channel_id == channel_id@,
                out.deep_view() + newest_where(
                    all.take(i as int),
                    keep,
                    (limit - out.len()) as nat,
                ) == newest_where(all, keep, limit as nat),
            decreases i,
        {
            i -= 1;
            let x = &self.rows.channel_snapshots[i];
            let ghost before = out.deep_view();
            let ghost left = (limit - out.len()) as nat;
            assert(all.take(i + 1).drop_last() =~= all.take(i as int));
            assert(all.take(i + 1).last() == x.deep_view());
            if same_text(x.channel_id.as_str(), channel_id) {
                let item = x.clone();
                out.push(item);
                assert(out.deep_view() =~= before.push(item.deep_view()));
                let ghost rest = newest_where(all.take(i as int), keep, (left - 1) as nat);
                assert(before + (seq![item.deep_view()] + rest) =~= out.deep_view() + rest);
            }
        }
        let ghost rest = newest_where(all.take(i as int), keep, (limit - out.len()) as nat);
        assert(rest =~= seq![]);
        assert(out.deep_view() + rest =~= out.deep_view());
        Ok(out)
    }

    /// The newest snapshots of a channel of a node, the newest first.
    pub fn recent_channel_snapshots_for_node(
        &self,
        node_id: &str,
        channel_id: &str,
        limit: u32,
    ) -> (r: Result<Vec<ChannelSnapshot>, StorageError>)
        ensures
            r matches Ok(found) && found.deep_view() == newest_where(
                self.model().channel_snapshots,
                |s: ChannelSnapshotView| s.node_id == Some(node_id@) && s.channel_id == channel_id@,
                limit as nat,
            ),
    {
        let ghost all = self.rows.channel_snapshots.deep_view();
        let ghost keep = |s: ChannelSnapshotView|
            s.node_id == Some(node_id@)
            && s.channel_id == channel_id@;
        let limit: usize = limit as usize;
        let mut out: Vec<ChannelSnapshot> = Vec::new();
        let mut i: usize = self.rows.channel_snapshots.len();
        assert(all.take(i as int) =~= all);
        assert(out.deep_view() + newest_where(all, keep, limit as nat) =~= newest_where(
            all,
            keep,
            limit as nat,
        ));
        while i > 0 && out.len() < limit
            invariant
                i <= self.rows.channel_snapshots.len(),
                out.len() <= limit,
                all == self.rows.channel_snapshots.deep_view(),
                keep == |s: ChannelSnapshotView|
                    s.node_id == Some(node_id@)
                    && s.channel_id == channel_id@,
                out.deep_view() + newest_where(
                    all.take(i as int),
                    keep,
                    (limit - out.len()) as nat,
                ) == newest_where(all, keep, limit as nat),
            decreases i,
        {
            i -= 1;
            let x = &self.rows.channel_snapshots[i];
            let ghost before = out.deep_view();
            let ghost left = (limit - out.len()) as nat;
            assert(all.take(i + 1).drop_last() =~= all.take(i as int));
            assert(all.take(i + 1).last() == x.deep_view());
            if is_named(&x.node_id, node_id) && same_text(x.channel_id.as_str(), channel_id) {
                let item = x.clone();
                out.push(item);
                assert(out.deep_view() =~= before.push(item.deep_view()));
                let ghost rest = newest_where(all.take(i as int), keep, (left - 1) as nat);
                assert(before + (seq![item.deep_view()] + rest) =~= out.deep_view() + rest);
            }
        }
        let ghost rest = newest_where(all.take(i as int), keep, (limit - out.len()) as nat);
        assert(rest =~= seq![]);
        assert(out.deep_view() + rest =~= out.deep_view());
        Ok(out)
    }

    /// The newest snapshots of a channel on a network, of one node or of any, the
    /// newest first.
    pub fn recent_channel_snapshots_for_network(
        &self,
        network: BitcoinNetwork,
        node_id: Option<&str>,
        channel_id: &str,
        limit: u32,
    ) -> (r: Result<Vec<ChannelSnapshot>, StorageError>)
        ensures
            r matches Ok(found) && found.deep_view() == newest_where(
                self.model().channel_snapshots,
                |s: ChannelSnapshotView|
                    s.network == Some(network)
                    && (node_id.deep_view() is None || s.node_id == node_id.deep_view())
                    && s.channel_id == channel_id@,
                limit as nat,
            ),
    {
        let ghost all = self.rows.channel_snapshots.deep_view();
        let ghost keep = |s: ChannelSnapshotView|
            s.network == Some(network)
            && (node_id.deep_view() is None || s.node_id == node_id.deep_view())
            && s.channel_id == channel_id@;
        let limit: usize = limit as usize;
        let mut out: Vec<ChannelSnapshot> = Vec::new();
        let mut i: usize = self.rows.channel_snapshots.len();
        assert(all.take(i as int) =~= all);
        assert(out.deep_view() + newest_where(all, keep, limit as nat) =~= newest_where(
            all,
            keep,
            limit as nat,
        ));
        while i > 0 && out.len() < limit
            invariant
                i <= self.rows.channel_snapshots.len(),
                out.len() <= limit,
                all == self.rows.channel_snapshots.deep_view(),
                keep == |s: ChannelSnapshotView|
                    s.network == Some(network)
                    && (node_id.deep_view() is None || s.node_id == node_id.deep_view())
                    && s.channel_id == channel_id@,
                out.deep_view() + newest_where(
                    all.take(i as int),
                    keep,
                    (limit - out.len()) as nat,
                ) == newest_where(all, keep, limit as nat),
            decreases i,
        {
            i -= 1;
            let x = &self.rows.channel_snapshots[i];
            let ghost before = out.deep_view();
            let ghost left = (limit - out.len()) as nat;
            assert(all.take(i + 1).drop_last() =~= all.take(i as int));
            assert(all.take(i + 1).last() == x.deep_view());
            if same_network(x.network, Some(network))
                && is_wanted(&x.node_id, node_id)
                && same_text(x.channel_id.as_str(), channel_id) {
                let item = x.clone();
                out.push(item);
                assert(out.deep_view() =~= before.push(item.deep_view()));
                let ghost rest = newest_where(all.take(i as int), keep, (left - 1) as nat);
                assert(before + (seq![item.deep_view()] + rest) =~= out.deep_view() + rest);
            }
        }
        let ghost rest = newest_where(all.take(i as int), keep, (limit - out.len()) as nat);
        assert(rest =~= seq![]);
        assert(out.deep_view() + rest =~= out.deep_view());
        Ok(out)
    }

    /// The snapshot of a channel that was taken at this moment.
    pub fn channel_snapshot_at(
        &self,
        network: BitcoinNetwork,
        node_id: &str,
        channel_id: &str,
        observed_at: Timestamp,
    ) -> (r: Result<Option<ChannelSnapshot>, StorageError>)
        ensures
            r matches Ok(found) && found.deep_view() == snapshot_at(
                self.model().channel_snapshots,
                network,
                node_id@,
                channel_id@,
                observed_at,
            ),
    {
        let ghost all = self.rows.channel_snapshots.deep_view();
        let ghost keep = |s: ChannelSnapshotView|
            s.network == Some(network)
            && s.node_id == Some(node_id@)
            && s.channel_id == channel_id@
            && s.ts == observed_at;
        let mut i: usize = 0;
        while i < self.rows.channel_snapshots.len()
            invariant
                i <= self.rows.channel_snapshots.len(),
                all == self.rows.channel_snapshots.deep_view(),
                keep == |s: ChannelSnapshotView|
                    s.network == Some(network)
                    && s.node_id == Some(node_id@)
                    && s.channel_id == channel_id@
                    && s.ts == observed_at,
                forall|k: int| 0 <= k < i ==> !keep(#[trigger] all[k]),
            decreases self.rows.channel_snapshots.len() - i,
        {
            let x = &self.rows.channel_snapshots[i];
            assert(all[i as int] == x.deep_view());
            if same_network(x.network, Some(network))
                && is_named(&x.node_id, node_id)
                && same_text(x.channel_id.as_str(), channel_id)
                && x.ts == observed_at {
                proof {
                    lemma_first_where(all, keep, i as int);
                }
                return Ok(Some(x.clone()));
            }
            i += 1;
        }
        proof {
            lemma_first_where(all, keep, i as int);
        }
        Ok(None)
    }

    /// The newest snapshots of all channels, the newest first.
    pub fn recent_snapshots_all(
        &self,
        limit: u32,
    ) -> (r: Result<Vec<ChannelSnapshot>, StorageError>)
        ensures
            r matches Ok(found) && found.deep_view() == newest_where(
                self.model().channel_snapshots,
                |s: ChannelSnapshotView| true,
                limit as nat,
            ),
    {
        let ghost all = self.rows.channel_snapshots.deep_view();
        let ghost keep = |s: ChannelSnapshotView| true;
        let limit: usize = limit as usize;
        let mut out: Vec<ChannelSnapshot> = Vec::new();
        let mut i: usize = self.rows.channel_snapshots.len();
        assert(all.take(i as int) =~= all);
        assert(out.deep_view() + newest_where(all, keep, limit as nat) =~= newest_where(
            all,
            keep,
            limit as nat,
        ));
        while i > 0 && out.len() < limit
            invariant
                i <= self.rows.channel_snapshots.len(),
                out.len() <= limit,
                all == self.rows.channel_snapshots.deep_view(),
                keep == |s: ChannelSnapshotView| true,
                out.deep_view() + newest_where(
                    all.take(i as int),
                    keep,
                    (limit - out.len()) as nat,
                ) == newest_where(all, keep, limit as nat),
            decreases i,
        {
            i -= 1;
            let x = &self.rows.channel_snapshots[i];
            let ghost before = out.deep_view();
            let ghost left = (limit - out.len()) as nat;
            assert(all.take(i + 1).drop_last() =~= all.take(i as int));
            assert(all.take(i + 1).last() == x.deep_view());
            if true {
                let item = x.clone();
                out.push(item);
                assert(out.deep_view() =~= before.push(item.deep_view()));
                let ghost rest = newest_where(all.take(i as int), keep, (left - 1) as nat);
                assert(before + (seq![item.deep_view()] + rest) =~= out.deep_view() + rest);
            }
        }
        let ghost rest = newest_where(all.take(i as int), keep, (limit - out.len()) as nat);
        assert(rest =~= seq![]);
        assert(out.deep_view() + rest =~= out.deep_view());
        Ok(out)
    }

    /// Removes the snapshots that a policy does not keep, and nothing else.
    pub fn prune_channel_snapshots(
        &mut self,
        policy: &RetentionPolicy,
        now: Timestamp,
    ) -> (r: Result<PruneSummary, StorageError>)
        ensures
            final(self).set_aside() == old(self).set_aside(),
            final(self).model() == (StorageModel {
                channel_snapshots: retention::retained(
                    old(self).model().channel_snapshots,
                    *policy,
                    now,
                ),
                ..old(self).model()
            }),
            r matches Ok(summary) && summary.complete && summary.deleted_snapshots
                == old(self).model().channel_snapshots.len()
                - final(self).model().channel_snapshots.len(),
    {
        let before: usize = self.rows.channel_snapshots.len();
        let kept = retain(&self.rows.channel_snapshots, policy, now);
        proof {
            retention::lemma_total_bound_holds(
                self.rows.channel_snapshots.deep_view(),
                *policy,
                now,
            );
            assert(kept.len() == kept.deep_view().len());
        }
        let deleted_snapshots: usize = before - kept.len();
        self.rows.channel_snapshots = kept;
        Ok(PruneSummary { deleted_snapshots, complete: true })
    }

    /// Saves a what-if run.
    pub fn save_simulation(&mut self, sim: &Simulation) -> (r: Result<(), StorageError>)
        ensures
            r is Ok,
            final(self).set_aside() == old(self).set_aside(),
            final(self).model() == (StorageModel {
                simulations: old(self).model().simulations.push(sim.deep_view()),
                ..old(self).model()
            }),
    {
        let ghost before = self.rows.simulations.deep_view();
        let copy = sim.clone();
        self.rows.simulations.push(copy);
        assert(self.rows.simulations.deep_view() =~= before.push(copy.deep_view()));
        Ok(())
    }

    /// The newest what-if runs, the newest first.
    pub fn recent_simulations(&self, limit: u32) -> (r: Result<Vec<Simulation>, StorageError>)
        ensures
            r matches Ok(found) && found.deep_view() == newest_where(
                self.model().simulations,
                |s: SimulationView| true,
                limit as nat,
            ),
    {
        let ghost all = self.rows.simulations.deep_view();
        let ghost keep = |s: SimulationView| true;
        let limit: usize = limit as usize;
        let mut out: Vec<Simulation> = Vec::new();
        let mut i: usize = self.rows.simulations.len();
        assert(all.take(i as int) =~= all);
        assert(out.deep_view() + newest_where(all, keep, limit as nat) =~= newest_where(
            all,
            keep,
            limit as nat,
        ));
        while i > 0 && out.len() < limit
            invariant
                i <= self.rows.simulations.len(),
                out.len() <= limit,
                all == self.rows.simulations.deep_view(),
                keep == |s: SimulationView| true,
                out.deep_view() + newest_where(
                    all.take(i as int),
                    keep,
                    (limit - out.len()) as nat,
                ) == newest_where(all, keep, limit as nat),
            decreases i,
        {
            i -= 1;
            let x = &self.rows.simulations[i];
            let ghost before = out.deep_view();
            let ghost left = (limit - out.len()) as nat;
            assert(all.take(i + 1).drop_last() =~= all.take(i as int));
            assert(all.take(i + 1).last() == x.deep_view());
            if true {
                let item = x.clone();
                out.push(item);
                assert(out.deep_view() =~= before.push(item.deep_view()));
                let ghost rest = newest_where(all.take(i as int), keep, (left - 1) as nat);
                assert(before + (seq![item.deep_view()] + rest) =~= out.deep_view() + rest);
            }
        }
        let ghost rest = newest_where(all.take(i as int), keep, (limit - out.len()) as nat);
        assert(rest =~= seq![]);
        assert(out.deep_view() + rest =~= out.deep_view());
        Ok(out)
    }

    /// The what-if runs of an action, the newest first.
    pub fn simulations_for_action(
        &self,
        action_id: &str,
    ) -> (r: Result<Vec<Simulation>, StorageError>)
        ensures
            r matches Ok(found) && found.deep_view() == newest_where(
                self.model().simulations,
                |s: SimulationView| s.action_id == action_id@,
                self.model().simulations.len(),
            ),
    {
        let ghost all = self.rows.simulations.deep_view();
        let ghost keep = |s: SimulationView| s.action_id == action_id@;
        let limit: usize = self.rows.simulations.len();
        let mut out: Vec<Simulation> = Vec::new();
        let mut i: usize = self.rows.simulations.len();
        assert(all.take(i as int) =~= all);
        assert(out.deep_view() + newest_where(all, keep, limit as nat) =~= newest_where(
            all,
            keep,
            limit as nat,
        ));
        while i > 0 && out.len() < limit
            invariant
                i <= self.rows.simulations.len(),
                out.len() <= limit,
                all == self.rows.simulations.deep_view(),
                keep == |s: SimulationView| s.action_id == action_id@,
                out.deep_view() + newest_where(
                    all.take(i as int),
                    keep,
                    (limit - out.len()) as nat,
                ) == newest_where(all, keep, limit as nat),
            decreases i,
        {
            i -= 1;
            let x = &self.rows.simulations[i];
            let ghost before = out.deep_view();
            let ghost left = (limit - out.len()) as nat;
            assert(all.take(i + 1).drop_last() =~= all.take(i as int));
            assert(all.take(i + 1).last() == x.deep_view());
            if same_text(x.action_id.as_str(), action_id) {
                let item = x.clone();
                out.push(item);
                assert(out.deep_view() =~= before.push(item.deep_view()));
                let ghost rest = newest_where(all.take(i as int), keep, (left - 1) as nat);
                assert(before + (seq![item.deep_view()] + rest) =~= out.deep_view() + rest);
            }
        }
        let ghost rest = newest_where(all.take(i as int), keep, (limit - out.len()) as nat);
        assert(rest =~= seq![]);
        assert(out.deep_view() + rest =~= out.deep_view());
        Ok(out)
    }

    /// Stores a simulation. A stored one never changes, and of one input there is
    /// only one that came to a result.
    pub fn save_simulation_v2(&mut self, rec: &SimulationRecord) -> (r: Result<(), StorageError>)
        ensures
            final(self).set_aside() == old(self).set_aside(),
            match record_conflict(old(self).model().simulation_records, rec.deep_view()) {
                Some(message) => records::refused(r) == backend(message) && final(self).model()
                    == old(self).model(),
                None => r is Ok && final(self).model() == (StorageModel {
                    simulation_records: with_record(
                        old(self).model().simulation_records,
                        rec.deep_view(),
                    ),
                    ..old(self).model()
                }),
            },
    {
        let ghost before = self.rows.simulation_records.deep_view();
        let i = self.place_of_record(rec.id.as_str());
        if i < self.rows.simulation_records.len() {
            assert(before[i as int] == self.rows.simulation_records[i as int].deep_view());
            return if self.rows.simulation_records[i].same_as(rec) {
                Ok(())
            } else {
                Err(
                    StorageError::Backend(
                        "simulation ".to_owned().concat(rec.id.as_str()).concat(" is immutable"),
                    ),
                )
            };
        }
        if text::chars_of(rec.input_hash.as_str()).len() > 0 && !rec.canonical_input.is_null()
            && !rec.projection.is_null() && self.has_result_for(rec.input_hash.as_str()) {
            return Err(
                StorageError::Backend(
                    "simulation input ".to_owned().concat(rec.input_hash.as_str()).concat(
                        " already exists",
                    ),
                ),
            );
        }
        let copy = rec.clone();
        self.rows.simulation_records.push(copy);
        assert(self.rows.simulation_records.deep_view() =~= before.push(copy.deep_view()));
        Ok(())
    }

    fn has_result_for(&self, input_hash: &str) -> (r: bool)
        ensures
            r == exists|i: int|
                0 <= i < self.model().simulation_records.len() && (
                #[trigger] self.model().simulation_records[i]).input_hash == input_hash@
                    && reusable(self.model().simulation_records[i]),
    {
        let ghost all = self.rows.simulation_records.deep_view();
        let mut i: usize = 0;
        while i < self.rows.simulation_records.len()
            invariant
                i <= self.rows.simulation_records.len(),
                all == self.rows.simulation_records.deep_view(),
                forall|k: int|
                    0 <= k < i ==> !((#[trigger] all[k]).input_hash == input_hash@ && reusable(
                        all[k],
                    )),
            decreases self.rows.simulation_records.len() - i,
        {
            let x = &self.rows.simulation_records[i];
            assert(all[i as int] == x.deep_view());
            if same_text(x.input_hash.as_str(), input_hash) && !x.canonical_input.is_null()
                && !x.projection.is_null() {
                assert(all[i as int].input_hash == input_hash@ && reusable(all[i as int]));
                return true;
            }
            i += 1;
        }
        false
    }

    /// The newest stored simulations, the newest first.
    pub fn recent_simulations_v2(
        &self,
        limit: u32,
    ) -> (r: Result<Vec<SimulationRecord>, StorageError>)
        ensures
            r matches Ok(found) && found.deep_view() == newest_where(
                self.model().simulation_records,
                |e: SimulationRecordView| true,
                limit as nat,
            ),
    {
        let ghost all = self.rows.simulation_records.deep_view();
        let ghost keep = |e: SimulationRecordView| true;
        let limit: usize = limit as usize;
        let mut out: Vec<SimulationRecord> = Vec::new();
        let mut i: usize = self.rows.simulation_records.len();
        assert(all.take(i as int) =~= all);
        assert(out.deep_view() + newest_where(all, keep, limit as nat) =~= newest_where(
            all,
            keep,
            limit as nat,
        ));
        while i > 0 && out.len() < limit
            invariant
                i <= self.rows.simulation_records.len(),
                out.len() <= limit,
                all == self.rows.simulation_records.deep_view(),
                keep == |e: SimulationRecordView| true,
                out.deep_view() + newest_where(
                    all.take(i as int),
                    keep,
                    (limit - out.len()) as nat,
                ) == newest_where(all, keep, limit as nat),
            decreases i,
        {
            i -= 1;
            let x = &self.rows.simulation_records[i];
            let ghost before = out.deep_view();
            let ghost left = (limit - out.len()) as nat;
            assert(all.take(i + 1).drop_last() =~= all.take(i as int));
            assert(all.take(i + 1).last() == x.deep_view());
            if true {
                let item = x.clone();
                out.push(item);
                assert(out.deep_view() =~= before.push(item.deep_view()));
                let ghost rest = newest_where(all.take(i as int), keep, (left - 1) as nat);
                assert(before + (seq![item.deep_view()] + rest) =~= out.deep_view() + rest);
            }
        }
        let ghost rest = newest_where(all.take(i as int), keep, (limit - out.len()) as nat);
        assert(rest =~= seq![]);
        assert(out.deep_view() + rest =~= out.deep_view());
        Ok(out)
    }

    /// The newest stored simulations that can be replayed, the newest first.
    pub fn recent_replayable_simulations_v2(
        &self,
        limit: u32,
    ) -> (r: Result<Vec<SimulationRecord>, StorageError>)
        ensures
            r matches Ok(found) && found.deep_view() == newest_where(
                self.model().simulation_records,
                |e: SimulationRecordView| e.canonical_input != JsonView::Null,
                limit as nat,
            ),
    {
        let ghost all = self.rows.simulation_records.deep_view();
        let ghost keep = |e: SimulationRecordView| e.canonical_input != JsonView::Null;
        let limit: usize = limit as usize;
        let mut out: Vec<SimulationRecord> = Vec::new();
        let mut i: usize = self.rows.simulation_records.len();
        assert(all.take(i as int) =~= all);
        assert(out.deep_view() + newest_where(all, keep, limit as nat) =~= newest_where(
            all,
            keep,
            limit as nat,
        ));
        while i > 0 && out.len() < limit
            invariant
                i <= self.rows.simulation_records.len(),
                out.len() <= limit,
                all == self.rows.simulation_records.deep_view(),
                keep == |e: SimulationRecordView| e.canonical_input != JsonView::Null,
                out.deep_view() + newest_where(
                    all.take(i as int),
                    keep,
                    (limit - out.len()) as nat,
                ) == newest_where(all, keep, limit as nat),
            decreases i,
        {
            i -= 1;
            let x = &self.rows.simulation_records[i];
            let ghost before = out.deep_view();
            let ghost left = (limit - out.len()) as nat;
            assert(all.take(i + 1).drop_last() =~= all.take(i as int));
            assert(all.take(i + 1).last() == x.deep_view());
            if !x.canonical_input.is_null() {
                let item = x.clone();
                out.push(item);
                assert(out.deep_view() =~= before.push(item.deep_view()));
                let ghost rest = newest_where(all.take(i as int), keep, (left - 1) as nat);
                assert(before + (seq![item.deep_view()] + rest) =~= out.deep_view() + rest);
            }
        }
        let ghost rest = newest_where(all.take(i as int), keep, (limit - out.len()) as nat);
        assert(rest =~= seq![]);
        assert(out.deep_view() + rest =~= out.deep_view());
        Ok(out)
    }

    /// The stored simulations of an action, the newest first.
    pub fn simulations_v2_for_action(
        &self,
        action_id: &str,
    ) -> (r: Result<Vec<SimulationRecord>, StorageError>)
        ensures
            r matches Ok(found) && found.deep_view() == newest_where(
                self.model().simulation_records,
                |e: SimulationRecordView| e.action_id == action_id@,
                self.model().simulation_records.len(),
            ),
    {
        let ghost all = self.rows.simulation_records.deep_view();
        let ghost keep = |e: SimulationRecordView| e.action_id == action_id@;
        let limit: usize = self.rows.simulation_records.len();
        let mut out: Vec<SimulationRecord> = Vec::new();
        let mut i: usize = self.rows.simulation_records.len();
        assert(all.take(i as int) =~= all);
        assert(out.deep_view() + newest_where(all, keep, limit as nat) =~= newest_where(
            all,
            keep,
            limit as nat,
        ));
        while i > 0 && out.len() < limit
            invariant
                i <= self.rows.simulation_records.len(),
                out.len() <= limit,
                all == self.rows.simulation_records.deep_view(),
                keep == |e: SimulationRecordView| e.action_id == action_id@,
                out.deep_view() + newest_where(
                    all.take(i as int),
                    keep,
                    (limit - out.len()) as nat,
                ) == newest_where(all, keep, limit as nat),
            decreases i,
        {
            i -= 1;
            let x = &self.rows.simulation_records[i];
            let ghost before = out.deep_view();
            let ghost left = (limit - out.len()) as nat;
            assert(all.take(i + 1).drop_last() =~= all.take(i as int));
            assert(all.take(i + 1).last() == x.deep_view());
            if same_text(x.action_id.as_str(), action_id) {
                let item = x.clone();
                out.push(item);
                assert(out.deep_view() =~= before.push(item.deep_view()));
                let ghost rest = newest_where(all.take(i as int), keep, (left - 1) as nat);
                assert(before + (seq![item.deep_view()] + rest) =~= out.deep_view() + rest);
            }
        }
        let ghost rest = newest_where(all.take(i as int), keep, (limit - out.len()) as nat);
        assert(rest =~= seq![]);
        assert(out.deep_view() + rest =~= out.deep_view());
        Ok(out)
    }

    /// The stored simulation of this identity.
    pub fn simulation_v2_by_id(
        &self,
        simulation_id: &str,
    ) -> (r: Result<Option<SimulationRecord>, StorageError>)
        ensures
            r matches Ok(found) && found.deep_view() == record_named(
                self.model().simulation_records,
                simulation_id@,
            ),
    {
        let ghost all = self.rows.simulation_records.deep_view();
        let ghost keep = |e: SimulationRecordView| e.id == simulation_id@;
        let mut i: usize = 0;
        while i < self.rows.simulation_records.len()
            invariant
                i <= self.rows.simulation_records.len(),
                all == self.rows.simulation_records.deep_view(),
                keep == |e: SimulationRecordView| e.id == simulation_id@,
                forall|k: int| 0 <= k < i ==> !keep(#[trigger] all[k]),
            decreases self.rows.simulation_records.len() - i,
        {
            let x = &self.rows.simulation_records[i];
            assert(all[i as int] == x.deep_view());
            if same_text(x.id.as_str(), simulation_id) {
                proof {
                    lemma_first_where(all, keep, i as int);
                }
                return Ok(Some(x.clone()));
            }
            i += 1;
        }
        proof {
            lemma_first_where(all, keep, i as int);
        }
        Ok(None)
    }

    /// The stored simulation of this identity, where it can be replayed.
    pub fn replayable_simulation_v2_by_id(
        &self,
        simulation_id: &str,
    ) -> (r: Result<Option<SimulationRecord>, StorageError>)
        ensures
            r matches Ok(found) && found.deep_view() == graph::found(
                self.model().simulation_records,
                first_where(
                    self.model().simulation_records,
                    |e: SimulationRecordView|
                        e.id == simulation_id@
                        && e.canonical_input != JsonView::Null,
                ),
            ),
    {
        let ghost all = self.rows.simulation_records.deep_view();
        let ghost keep = |e: SimulationRecordView|
            e.id == simulation_id@
            && e.canonical_input != JsonView::Null;
        let mut i: usize = 0;
        while i < self.rows.simulation_records.len()
            invariant
                i <= self.rows.simulation_records.len(),
                all == self.rows.simulation_records.deep_view(),
                keep == |e: SimulationRecordView|
                    e.id == simulation_id@
                    && e.canonical_input != JsonView::Null,
                forall|k: int| 0 <= k < i ==> !keep(#[trigger] all[k]),
            decreases self.rows.simulation_records.len() - i,
        {
            let x = &self.rows.simulation_records[i];
            assert(all[i as int] == x.deep_view());
            if same_text(x.id.as_str(), simulation_id) && !x.canonical_input.is_null() {
                proof {
                    lemma_first_where(all, keep, i as int);
                }
                return Ok(Some(x.clone()));
            }
            i += 1;
        }
        proof {
            lemma_first_where(all, keep, i as int);
        }
        Ok(None)
    }

    /// The latest stored simulation with this input that can be replayed.
    pub fn simulation_v2_by_input_hash(&self, input_hash: &str) -> (r: Result<
        Option<SimulationRecord>,
        StorageError,
    >)
        ensures
            r matches Ok(found) && found.deep_view() == latest_with_input(
                self.model().simulation_records,
                input_hash@,
            ),
    {
        let ghost all = self.rows.simulation_records.deep_view();
        let asked = text::chars_of(input_hash).len() > 0;
        let mut best: Option<usize> = None;
        let mut i: usize = 0;
        while i < self.rows.simulation_records.len()
            invariant
                i <= self.rows.simulation_records.len(),
                all == self.rows.simulation_records.deep_view(),
                asked == (input_hash@.len() > 0),
                match best {
                    Some(b) => b < i && latest_with_input(all.take(i as int), input_hash@) == Some(
                        all[b as int],
                    ),
                    None => latest_with_input(all.take(i as int), input_hash@) is None,
                },
            decreases self.rows.simulation_records.len() - i,
        {
            let x = &self.rows.simulation_records[i];
            assert(all.take(i + 1).drop_last() =~= all.take(i as int));
            assert(all.take(i + 1).last() == x.deep_view());
            if asked && same_text(x.input_hash.as_str(), input_hash)
                && !x.canonical_input.is_null() {
                match best {
                    Some(b) => {
                        assert(all[b as int] == self.rows.simulation_records[b as int].deep_view());
                        if !text_precedes(
                            x.created_at.as_str(),
                            self.rows.simulation_records[b].created_at.as_str(),
                        ) {
                            best = Some(i);
                        }
                    },
                    None => {
                        best = Some(i);
                    },
                }
            }
            i += 1;
        }
        assert(all.take(i as int) =~= all);
        match best {
            Some(b) => {
                assert(all[b as int] == self.rows.simulation_records[b as int].deep_view());
                Ok(Some(self.rows.simulation_records[b].clone()))
            },
            None => Ok(None),
        }
    }

    /// Appends a step in the life of a simulation, under an identity of its own.
    pub fn append_simulation_event(&mut self, event: &SimulationEvent) -> (r: Result<
        (),
        StorageError,
    >)
        ensures
            final(self).set_aside() == old(self).set_aside(),
            if event_known(old(self).model().simulation_events, event.id@) {
                records::refused(r) == backend("duplicate simulation event "@ + event.id@)
                    && final(self).model() == old(self).model()
            } else {
                r is Ok && final(self).model() == (StorageModel {
                    simulation_events: old(self).model().simulation_events.push(event.deep_view()),
                    ..old(self).model()
                })
            },
    {
        let ghost before = self.rows.simulation_events.deep_view();
        let mut i: usize = 0;
        while i < self.rows.simulation_events.len()
            invariant
                i <= self.rows.simulation_events.len(),
                before == self.rows.simulation_events.deep_view(),
                self.rows == old(self).rows,
                self.before == old(self).before,
                forall|k: int| 0 <= k < i ==> (#[trigger] before[k]).id != event.id@,
            decreases self.rows.simulation_events.len() - i,
        {
            assert(before[i as int] == self.rows.simulation_events[i as int].deep_view());
            if same_text(self.rows.simulation_events[i].id.as_str(), event.id.as_str()) {
                assert(before[i as int].id == event.id@);
                return Err(
                    StorageError::Backend(
                        "duplicate simulation event ".to_owned().concat(event.id.as_str()),
                    ),
                );
            }
            i += 1;
        }
        let copy = event.clone();
        self.rows.simulation_events.push(copy);
        assert(self.rows.simulation_events.deep_view() =~= before.push(copy.deep_view()));
        Ok(())
    }

    /// The steps in the life of a simulation, in order.
    pub fn simulation_events(&self, simulation_id: &str) -> (r: Result<
        Vec<SimulationEvent>,
        StorageError,
    >)
        ensures
            r matches Ok(found) && found.deep_view() == all_where(
                self.model().simulation_events,
                |e: SimulationEventView| e.simulation_id == simulation_id@,
            ),
    {
        let ghost all = self.rows.simulation_events.deep_view();
        let ghost keep = |e: SimulationEventView| e.simulation_id == simulation_id@;
        let mut out: Vec<SimulationEvent> = Vec::new();
        let mut i: usize = 0;
        assert(out.deep_view() =~= all_where(all.take(0), keep));
        while i < self.rows.simulation_events.len()
            invariant
                i <= self.rows.simulation_events.len(),
                all == self.rows.simulation_events.deep_view(),
                keep == |e: SimulationEventView| e.simulation_id == simulation_id@,
                out.deep_view() == all_where(all.take(i as int), keep),
            decreases self.rows.simulation_events.len() - i,
        {
            let x = &self.rows.simulation_events[i];
            assert(all.take(i + 1).drop_last() =~= all.take(i as int));
            assert(all.take(i + 1).last() == x.deep_view());
            if same_text(x.simulation_id.as_str(), simulation_id) {
                let ghost before = out.deep_view();
                let item = x.clone();
                out.push(item);
                assert(out.deep_view() =~= before.push(item.deep_view()));
            }
            i += 1;
        }
        assert(all.take(i as int) =~= all);
        Ok(out)
    }

    /// How many rows each table has, counted up to [`COUNT_CAP`].
    pub fn counts(&self) -> (r: Result<StorageCounts, StorageError>)
        ensures
            r matches Ok(c) && c.findings == counted(self.model().findings.len())
                && c.recommendations == counted(self.model().recommendations.len())
                && c.simulations == counted(self.model().simulations.len()) + counted(
                self.model().simulation_records.len(),
            ) && c.audit == counted(self.model().audit.len()) && c.channel_snapshots == counted(
                self.model().channel_snapshots.len(),
            ),
    {
        Ok(
            StorageCounts {
                findings: count(self.rows.findings.len()),
                recommendations: count(self.rows.recommendations.len()),
                simulations: count(self.rows.simulations.len()) + count(
                    self.rows.simulation_records.len(),
                ),
                audit: count(self.rows.audit.len()),
                channel_snapshots: count(self.rows.channel_snapshots.len()),
            },
        )
    }

    /// The state of an alert.
    pub fn read(&self, key: &str) -> (r: Result<Option<AlertState>, AlertError>)
        ensures
            r == Ok::<Option<AlertState>, AlertError>(alert_of(self.model().alerts, key@)),
    {
        let i = self.place_of_alert(key);
        if i < self.rows.alerts.len() {
            assert(self.rows.alerts.deep_view()[i as int] == self.rows.alerts[i as int].deep_view());
            Ok(Some(self.rows.alerts[i].state))
        } else {
            Ok(None)
        }
    }

    /// Writes the state of an alert.
    pub fn write(&mut self, key: &str, state: &AlertState) -> (r: Result<(), AlertError>)
        ensures
            r is Ok,
            final(self).set_aside() == old(self).set_aside(),
            final(self).model() == (StorageModel {
                alerts: with_alert(old(self).model().alerts, key@, *state),
                ..old(self).model()
            }),
    {
        let ghost before = self.rows.alerts.deep_view();
        let i = self.place_of_alert(key);
        let entry = AlertEntry { key: key.to_owned(), state: *state };
        let ghost view = entry.deep_view();
        if i < self.rows.alerts.len() {
            self.rows.alerts.set(i, entry);
            assert(self.rows.alerts.deep_view() =~= before.update(i as int, view));
        } else {
            self.rows.alerts.push(entry);
            assert(self.rows.alerts.deep_view() =~= before.push(view));
        }
        Ok(())
    }

    /// The operational state, if one was written.
    pub fn read_operational_state(&self) -> (r: Result<
        Option<OperationalState>,
        OperationalStateError,
    >)
        ensures
            r == Ok::<Option<OperationalState>, OperationalStateError>(
                self.model().operational_state,
            ),
    {
        Ok(self.rows.operational_state)
    }

    /// Writes the operational state.
    pub fn write_operational_state(&mut self, state: &OperationalState) -> (r: Result<
        (),
        OperationalStateError,
    >)
        ensures
            r is Ok,
            final(self).set_aside() == old(self).set_aside(),
            final(self).model() == (StorageModel {
                operational_state: Some(*state),
                ..old(self).model()
            }),
    {
        self.rows.operational_state = Some(*state);
        Ok(())
    }

    /// Takes in a webhook event. A delivery that came before is not taken in
    /// again.
    pub fn enqueue_webhook_event(
        &mut self,
        delivery_id: &str,
        webhook_id: Option<&str>,
        event_type: Option<&str>,
        event: &NodeEvent,
        accepted_at: Timestamp,
    ) -> (r: Result<(), StorageError>)
        ensures
            r is Ok,
            final(self).set_aside() == old(self).set_aside(),
            final(self).model() == (StorageModel {
                webhook_events: with_webhook(
                    old(self).model().webhook_events,
                    WebhookEventRecordView {
                        delivery_id: delivery_id@,
                        webhook_id: webhook_id.deep_view(),
                        event_type: event_type.deep_view(),
                        event: event.deep_view(),
                        accepted_at,
                        processed_at: None,
                    },
                ),
                ..old(self).model()
            }),
    {
        let i = self.place_of_webhook(delivery_id);
        if i < self.rows.webhook_events.len() {
            return Ok(());
        }
        let ghost before = self.rows.webhook_events.deep_view();
        let webhook_id = match webhook_id {
            Some(s) => Some(s.to_owned()),
            None => None,
        };
        let event_type = match event_type {
            Some(s) => Some(s.to_owned()),
            None => None,
        };
        let record = WebhookEventRecord {
            delivery_id: delivery_id.to_owned(),
            webhook_id,
            event_type,
            event: event.clone(),
            accepted_at,
            processed_at: None,
        };
        let ghost view = record.deep_view();
        self.rows.webhook_events.push(record);
        assert(self.rows.webhook_events.deep_view() =~= before.push(view));
        Ok(())
    }

    /// Marks a webhook event as processed.
    pub fn mark_webhook_event_processed(
        &mut self,
        delivery_id: &str,
        processed_at: Timestamp,
    ) -> (r: Result<(), StorageError>)
        ensures
            r is Ok,
            final(self).set_aside() == old(self).set_aside(),
            final(self).model() == (StorageModel {
                webhook_events: with_processed(
                    old(self).model().webhook_events,
                    delivery_id@,
                    processed_at,
                ),
                ..old(self).model()
            }),
    {
        let ghost before = self.rows.webhook_events.deep_view();
        let i = self.place_of_webhook(delivery_id);
        if i < self.rows.webhook_events.len() {
            assert(before[i as int] == self.rows.webhook_events[i as int].deep_view());
            let mut done = self.rows.webhook_events[i].clone();
            done.processed_at = Some(processed_at);
            self.rows.webhook_events.set(i, done);
            assert(self.rows.webhook_events.deep_view() =~= before.update(
                i as int,
                done.deep_view(),
            ));
        }
        Ok(())
    }

    /// The webhook events that wait to be processed, in the order in which they
    /// were taken in, at most `limit`.
    pub fn pending_webhook_events(&self, limit: u32) -> (r: Result<
        Vec<WebhookEventRecord>,
        StorageError,
    >)
        ensures
            r matches Ok(found) && found.deep_view() == at_most(
                waiting(self.model().webhook_events),
                limit as nat,
            ),
    {
        let ghost all = self.rows.webhook_events.deep_view();
        let ghost keep = |e: WebhookEventRecordView| e.processed_at is None;
        let mut out: Vec<WebhookEventRecord> = Vec::new();
        let mut i: usize = 0;
        assert(out.deep_view() =~= all_where(all.take(0), keep));
        while i < self.rows.webhook_events.len() && out.len() < limit as usize
            invariant
                i <= self.rows.webhook_events.len(),
                all == self.rows.webhook_events.deep_view(),
                keep == |e: WebhookEventRecordView| e.processed_at is None,
                out.len() <= limit,
                out.deep_view() == all_where(all.take(i as int), keep),
            decreases self.rows.webhook_events.len() - i,
        {
            let x = &self.rows.webhook_events[i];
            assert(all.take(i + 1).drop_last() =~= all.take(i as int));
            assert(all.take(i + 1).last() == x.deep_view());
            if x.processed_at.is_none() {
                let ghost before = out.deep_view();
                let item = x.clone();
                out.push(item);
                assert(out.deep_view() =~= before.push(item.deep_view()));
            }
            i += 1;
        }
        proof {
            lemma_prefix_where(all, keep, i as int);
            let whole = all_where(all, keep);
            if i == self.rows.webhook_events.len() {
                assert(all.take(i as int) =~= all);
            }
            assert(out.deep_view() =~= at_most(whole, limit as nat));
        }
        Ok(out)
    }

    /// The webhook events that were processed, the last ones taken in, in the order
    /// in which they were taken in, at most `limit`.
    pub fn recent_processed_webhook_events(&self, limit: u32) -> (r: Result<
        Vec<WebhookEventRecord>,
        StorageError,
    >)
        ensures
            r matches Ok(found) && found.deep_view() == newest_where(
                self.model().webhook_events,
                |e: WebhookEventRecordView| e.processed_at is Some,
                limit as nat,
            ).reverse(),
    {
        let newest = match self.newest_processed(limit) {
            Ok(found) => found,
            Err(e) => {
                return Err(e);
            },
        };
        let ghost all = newest.deep_view();
        let mut out: Vec<WebhookEventRecord> = Vec::new();
        let mut i: usize = newest.len();
        while i > 0
            invariant
                i <= newest.len(),
                all == newest.deep_view(),
                out.len() == newest.len() - i,
                forall|k: int|
                    0 <= k < out.len() ==> #[trigger] out.deep_view()[k] == all[all.len() - 1 - k],
            decreases i,
        {
            i -= 1;
            let ghost before = out.deep_view();
            let item = newest[i].clone();
            out.push(item);
            assert(out.deep_view() =~= before.push(item.deep_view()));
        }
        assert(out.deep_view() =~= all.reverse());
        Ok(out)
    }

    /// The webhook events that were processed, the newest first.
    fn newest_processed(&self, limit: u32) -> (r: Result<Vec<WebhookEventRecord>, StorageError>)
        ensures
            r matches Ok(found) && found.deep_view() == newest_where(
                self.model().webhook_events,
                |e: WebhookEventRecordView| e.processed_at is Some,
                limit as nat,
            ),
    {
        let ghost all = self.rows.webhook_events.deep_view();
        let ghost keep = |e: WebhookEventRecordView| e.processed_at is Some;
        let limit: usize = limit as usize;
        let mut out: Vec<WebhookEventRecord> = Vec::new();
        let mut i: usize = self.rows.webhook_events.len();
        assert(all.take(i as int) =~= all);
        assert(out.deep_view() + newest_where(all, keep, limit as nat) =~= newest_where(
            all,
            keep,
            limit as nat,
        ));
        while i > 0 && out.len() < limit
            invariant
                i <= self.rows.webhook_events.len(),
                out.len() <= limit,
                all == self.rows.webhook_events.deep_view(),
                keep == |e: WebhookEventRecordView| e.processed_at is Some,
                out.deep_view() + newest_where(
                    all.take(i as int),
                    keep,
                    (limit - out.len()) as nat,
                ) == newest_where(all, keep, limit as nat),
            decreases i,
        {
            i -= 1;
            let x = &self.rows.webhook_events[i];
            let ghost before = out.deep_view();
            let ghost left = (limit - out.len()) as nat;
            assert(all.take(i + 1).drop_last() =~= all.take(i as int));
            assert(all.take(i + 1).last() == x.deep_view());
            if x.processed_at.is_some() {
                let item = x.clone();
                out.push(item);
                assert(out.deep_view() =~= before.push(item.deep_view()));
                let ghost rest = newest_where(all.take(i as int), keep, (left - 1) as nat);
                assert(before + (seq![item.deep_view()] + rest) =~= out.deep_view() + rest);
            }
        }
        let ghost rest = newest_where(all.take(i as int), keep, (limit - out.len()) as nat);
        assert(rest =~= seq![]);
        assert(out.deep_view() + rest =~= out.deep_view());
        Ok(out)
    }
}

impl Default for MemoryStorage {
    fn default() -> (r: MemoryStorage)
        ensures
            r.model() == empty_storage(),
            r.set_aside() is None,
    {
        MemoryStorage::new()
    }
}

fn is_named(found: &Option<String>, name: &str) -> (r: bool)
    ensures
        r == (found.deep_view() == Some(name@)),
{
    match found {
        Some(s) => same_text(s.as_str(), name),
        None => false,
    }
}

fn is_wanted(found: &Option<String>, name: Option<&str>) -> (r: bool)
    ensures
        r == (name.deep_view() is None || found.deep_view() == name.deep_view()),
{
    match name {
        Some(name) => is_named(found, name),
        None => true,
    }
}

/// Whether a step of this identity was appended.
pub open spec fn event_known(all: Seq<SimulationEventView>, id: Seq<char>) -> bool {
    exists|i: int| 0 <= i < all.len() && (#[trigger] all[i]).id == id
}

proof fn lemma_prefix_where<T>(all: Seq<T>, keep: spec_fn(T) -> bool, k: int)
    requires
        0 <= k <= all.len(),
    ensures
        all_where(all.take(k), keep).len() <= all_where(all, keep).len(),
        all_where(all, keep).take(all_where(all.take(k), keep).len() as int) == all_where(
            all.take(k),
            keep,
        ),
    decreases all.len(),
{
    if k < all.len() {
        let rest = all.drop_last();
        lemma_prefix_where(rest, keep, k);
        assert(rest.take(k) =~= all.take(k));
        let n = all_where(all.take(k), keep).len() as int;
        assert(all_where(all, keep).take(n) =~= all_where(rest, keep).take(n));
    } else {
        assert(all.take(k) =~= all);
        assert(all_where(all, keep).take(all_where(all, keep).len() as int) =~= all_where(
            all,
            keep,
        ));
    }
}

proof fn lemma_earliest_bound(all: Seq<FindingView>, f: FindingView, bound: int)
    requires
        f.first_seen_at.order() >= bound,
        forall|i: int|
            0 <= i < all.len() && same_subject(#[trigger] all[i], f)
                ==> all[i].first_seen_at.order() >= bound,
    ensures
        earliest(all, f).order() >= bound,
    decreases all.len(),
{
    if all.len() > 0 {
        let rest = all.drop_last();
        assert forall|i: int| 0 <= i < rest.len() && same_subject(#[trigger] rest[i], f) implies rest[i].first_seen_at.order()
            >= bound by {
            assert(rest[i] == all[i]);
        }
        lemma_earliest_bound(rest, f, bound);
        assert(all.last() == all[all.len() - 1]);
    }
}

proof fn lemma_earliest_is_least(all: Seq<FindingView>, f: FindingView, i: int)
    requires
        0 <= i < all.len(),
        same_subject(all[i], f),
    ensures
        earliest(all, f).order() <= all[i].first_seen_at.order(),
    decreases all.len(),
{
    if i < all.len() - 1 {
        lemma_earliest_is_least(all.drop_last(), f, i);
    }
}

proof fn lemma_earliest_at_most_own(all: Seq<FindingView>, f: FindingView)
    ensures
        earliest(all, f).order() <= f.first_seen_at.order(),
    decreases all.len(),
{
    if all.len() > 0 {
        lemma_earliest_at_most_own(all.drop_last(), f);
    }
}

/// Saving a finding a second time changes nothing.
pub proof fn lemma_save_finding_is_idempotent(all: Seq<FindingView>, f: FindingView)
    ensures
        with_finding(with_finding(all, f), f) == with_finding(all, f),
{
    let keep = |e: FindingView| e.id == f.id;
    let once = with_finding(all, f);
    let first = earliest(all, f);
    let place = first_where(all, keep);
    lemma_first_where_is_first(all, keep);
    lemma_earliest_at_most_own(all, f);
    assert forall|i: int| 0 <= i < place implies !keep(#[trigger] once[i]) by {
        assert(!keep(all[i]));
    }
    assert(keep(once[place]));
    lemma_first_where(once, keep, place);
    let m = once[place].first_seen_at;
    assert(m.order() <= first.order());
    assert forall|i: int| 0 <= i < once.len() && same_subject(#[trigger] once[i], f) implies once[i].first_seen_at.order()
        >= m.order() by {
        if i != place {
            assert(once[i] == all[i]);
            lemma_earliest_is_least(all, f, i);
        }
    }
    lemma_earliest_bound(once, f, m.order());
    let twice = with_finding(once, f);
    assert(twice =~= once);
}

/// An older sighting changes nothing of what was seen last.
pub proof fn lemma_older_sighting_changes_little(
    existing: FindingView,
    f: FindingView,
    first: Timestamp,
)
    requires
        f.last_seen_at.order() < existing.last_seen_at.order(),
    ensures
        seen_again(existing, f, first) == (FindingView {
            first_seen_at: seen_again(existing, f, first).first_seen_at,
            ..existing
        }),
        seen_again(existing, f, first).first_seen_at.order() <= existing.first_seen_at.order(),
{
}

/// A finding that is seen again is active again.
pub proof fn lemma_recurrence_reactivates(existing: FindingView, f: FindingView, first: Timestamp)
    requires
        f.last_seen_at.order() >= existing.last_seen_at.order(),
    ensures
        seen_again(existing, f, first).lifecycle == FindingLifecycle::Active,
        seen_again(existing, f, first).evidence == f.evidence,
{
}

/// Resolving touches the lifecycle of active findings in the scope of a complete
/// cycle, and nothing else.
pub proof fn lemma_resolving_is_local(
    all: Seq<FindingView>,
    scope: FindingCycleScopeView,
    i: int,
)
    requires
        0 <= i < all.len(),
    ensures
        resolved(all, scope).len() == all.len(),
        resolved(all, scope)[i] == (FindingView {
            lifecycle: resolved(all, scope)[i].lifecycle,
            ..all[i]
        }),
        resolved(all, scope)[i].lifecycle != all[i].lifecycle ==> scope.complete && in_scope(
            all[i],
            scope,
        ) && all[i].lifecycle == FindingLifecycle::Active,
        scope.complete && in_scope(all[i], scope) ==> resolved(all, scope)[i].lifecycle
            == FindingLifecycle::Resolved,
{
}

/// A stored simulation stays what it is, whatever else is stored.
pub proof fn lemma_records_are_immutable(
    all: Seq<SimulationRecordView>,
    rec: SimulationRecordView,
    i: int,
)
    requires
        0 <= i < all.len(),
    ensures
        with_record(all, rec)[i] == all[i],
        with_record(all, rec).len() >= all.len(),
{
}

/// Of one input no two simulations with a result are stored.
pub open spec fn inputs_unique(all: Seq<SimulationRecordView>) -> bool {
    forall|i: int, j: int|
        0 <= i < j < all.len() && reusable(#[trigger] all[i]) && reusable(#[trigger] all[j])
            && all[i].input_hash.len() > 0 ==> all[i].input_hash != all[j].input_hash
}

/// Storing simulations keeps it so that of one input no two with a result are
/// stored.
pub proof fn lemma_inputs_stay_unique(all: Seq<SimulationRecordView>, rec: SimulationRecordView)
    requires
        inputs_unique(all),
        record_conflict(all, rec) is None,
    ensures
        inputs_unique(with_record(all, rec)),
{
    let after = with_record(all, rec);
    lemma_first_where_is_first(all, |e: SimulationRecordView| e.id == rec.id);
    assert forall|i: int, j: int|
        0 <= i < j < after.len() && reusable(#[trigger] after[i]) && reusable(#[trigger] after[j])
            && after[i].input_hash.len() > 0 implies after[i].input_hash != after[j].input_hash by {
        if j < all.len() {
            assert(after[i] == all[i] && after[j] == all[j]);
        } else {
            assert(after[i] == all[i]);
            assert(after[j] == rec);
            assert(!(all[i].input_hash == rec.input_hash && reusable(all[i])));
        }
    }
}

/// The place of the first item of a key, after an item of that key was put at the
/// place of the first one before.
proof fn lemma_put_is_found<T>(all: Seq<T>, keep: spec_fn(T) -> bool, item: T)
    requires
        keep(item),
    ensures
        graph::found(
            graph::put(all, first_where(all, keep), item),
            first_where(graph::put(all, first_where(all, keep), item), keep),
        ) == Some(item),
{
    let place = first_where(all, keep);
    let after = graph::put(all, place, item);
    lemma_first_where_is_first(all, keep);
    assert forall|i: int| 0 <= i < place implies !keep(#[trigger] after[i]) by {
        assert(after[i] == all[i]);
    }
    assert(after[place] == item);
    lemma_first_where(after, keep, place);
}

/// The place of the first item that passes a test, after an item that does not was
/// put in place of one that does not, or behind the end.
proof fn lemma_put_is_not_found<T>(all: Seq<T>, keep: spec_fn(T) -> bool, place: int, item: T)
    requires
        0 <= place <= all.len(),
        place < all.len() ==> !keep(all[place]),
        !keep(item),
    ensures
        graph::found(
            graph::put(all, place, item),
            first_where(graph::put(all, place, item), keep),
        ) == graph::found(all, first_where(all, keep)),
{
    let k = first_where(all, keep);
    let after = graph::put(all, place, item);
    lemma_first_where_is_first(all, keep);
    lemma_first_where_is_first(after, keep);
    let j = first_where(after, keep);
    if k < all.len() {
        assert(after[k] == all[k]);
        assert forall|i: int| 0 <= i < k implies !keep(#[trigger] after[i]) by {
            assert(!keep(all[i]));
        }
        lemma_first_where(after, keep, k);
    } else {
        assert forall|i: int| 0 <= i < after.len() implies !keep(#[trigger] after[i]) by {
            if i < all.len() {
                assert(!keep(all[i]));
            }
        }
        lemma_first_where(after, keep, after.len() as int);
    }
}

/// A finding that was saved is found by its identity, and says what was seen last.
pub proof fn lemma_saved_finding_is_read_back(all: Seq<FindingView>, f: FindingView)
    ensures
        finding_of(with_finding(all, f), f.id) matches Some(found) && found.id == f.id && ((
        finding_of(all, f.id) matches Some(before) ==> before.last_seen_at.order()
            <= f.last_seen_at.order()) ==> found.severity == f.severity && found.evidence
            == f.evidence && found.provenance == f.provenance && found.explanation
            == f.explanation && found.timestamp == f.timestamp && found.last_seen_at
            == f.last_seen_at && found.lifecycle == FindingLifecycle::Active),
{
    let keep = |e: FindingView| e.id == f.id;
    let place = first_where(all, keep);
    lemma_first_where_is_first(all, keep);
    let item = if 0 <= place < all.len() {
        seen_again(all[place], f, earliest(all, f))
    } else {
        FindingView {
            first_seen_at: earliest(all, f),
            lifecycle: FindingLifecycle::Active,
            ..f
        }
    };
    assert(with_finding(all, f) == graph::put(all, place, item));
    lemma_put_is_found(all, keep, item);
}

/// Saving a finding leaves the findings of other identities as they are.
pub proof fn lemma_saving_a_finding_is_local(all: Seq<FindingView>, f: FindingView, id: Seq<char>)
    requires
        id != f.id,
    ensures
        finding_of(with_finding(all, f), id) == finding_of(all, id),
{
    let keep = |e: FindingView| e.id == f.id;
    let other = |e: FindingView| e.id == id;
    let place = first_where(all, keep);
    lemma_first_where_is_first(all, keep);
    let item = if 0 <= place < all.len() {
        seen_again(all[place], f, earliest(all, f))
    } else {
        FindingView {
            first_seen_at: earliest(all, f),
            lifecycle: FindingLifecycle::Active,
            ..f
        }
    };
    assert(with_finding(all, f) == graph::put(all, place, item));
    lemma_put_is_not_found(all, other, place, item);
}

/// A recommendation that was saved first is found by its action as it was saved; one
/// that was there stays, but for the moment of its last change.
pub proof fn lemma_saved_recommendation_is_read_back(
    all: Seq<RecommendationView>,
    rec: RecommendationView,
)
    ensures
        recommendation_of(with_recommendation(all, rec), rec.action.id) == Some(
            match recommendation_of(all, rec.action.id) {
                Some(before) => RecommendationView {
                    action: action::ActionView {
                        updated_at: rec.action.updated_at,
                        ..before.action
                    },
                    ..before
                },
                None => rec,
            },
        ),
{
    let keep = |e: RecommendationView| e.action.id == rec.action.id;
    let place = first_where(all, keep);
    lemma_first_where_is_first(all, keep);
    let item = if 0 <= place < all.len() {
        RecommendationView {
            action: action::ActionView { updated_at: rec.action.updated_at, ..all[place].action },
            ..all[place]
        }
    } else {
        rec
    };
    assert(with_recommendation(all, rec) == graph::put(all, place, item));
    lemma_put_is_found(all, keep, item);
}

/// The stage that an action was brought to is read back.
pub proof fn lemma_stage_is_read_back(
    all: Seq<RecommendationView>,
    action_id: Seq<char>,
    stage: ActionStage,
    now: Timestamp,
)
    requires
        recommendation_of(all, action_id) is Some,
    ensures
        recommendation_of(with_stage(all, action_id, stage, now), action_id) == Some(
            RecommendationView {
                action: action::ActionView {
                    stage,
                    updated_at: now,
                    ..recommendation_of(all, action_id)->0.action
                },
                ..recommendation_of(all, action_id)->0
            },
        ),
{
    let keep = |e: RecommendationView| e.action.id == action_id;
    let place = first_where(all, keep);
    lemma_first_where_is_first(all, keep);
    let item = RecommendationView {
        action: action::ActionView { stage, updated_at: now, ..all[place].action },
        ..all[place]
    };
    assert(with_stage(all, action_id, stage, now) == graph::put(all, place, item));
    lemma_put_is_found(all, keep, item);
}

/// A run that was stored is found by its identity as it was stored; where the same
/// run was there already, that one is found.
pub proof fn lemma_stored_record_is_read_back(
    all: Seq<SimulationRecordView>,
    rec: SimulationRecordView,
)
    requires
        record_conflict(all, rec) is None,
    ensures
        record_named(all, rec.id) is None ==> record_named(with_record(all, rec), rec.id) == Some(
            rec,
        ),
        record_named(with_record(all, rec), rec.id) matches Some(found) && records::same_record(
            found,
            rec,
        ),
{
    let keep = |e: SimulationRecordView| e.id == rec.id;
    let place = first_where(all, keep);
    lemma_first_where_is_first(all, keep);
    if place < all.len() {
        assert(with_record(all, rec) == all);
    } else {
        assert(with_record(all, rec) == graph::put(all, place, rec));
        lemma_put_is_found(all, keep, rec);
    }
}

/// The state of an alert is read back as it was written, and the states of others
/// stay.
pub proof fn lemma_alert_is_read_back(
    all: Seq<AlertEntryView>,
    key: Seq<char>,
    state: AlertState,
    other: Seq<char>,
)
    ensures
        alert_of(with_alert(all, key, state), key) == Some(state),
        other != key ==> alert_of(with_alert(all, key, state), other) == alert_of(all, other),
{
    let keep = |e: AlertEntryView| e.key == key;
    let place = first_where(all, keep);
    lemma_first_where_is_first(all, keep);
    lemma_put_is_found(all, keep, AlertEntryView { key, state });
    if other != key {
        let others = |e: AlertEntryView| e.key == other;
        lemma_put_is_not_found(all, others, place, AlertEntryView { key, state });
    }
}

/// The first snapshot of a channel at a moment is read back as it was saved.
pub proof fn lemma_snapshot_is_read_back(all: Seq<ChannelSnapshotView>, s: ChannelSnapshotView)
    requires
        s.network is Some,
        s.node_id is Some,
        snapshot_at(all, s.network->0, s.node_id->0, s.channel_id, s.ts) is None,
    ensures
        snapshot_at(all.push(s), s.network->0, s.node_id->0, s.channel_id, s.ts) == Some(s),
{
    let keep = |e: ChannelSnapshotView|
        e.network == Some(s.network->0) && e.node_id == Some(s.node_id->0) && e.channel_id
            == s.channel_id && e.ts == s.ts;
    lemma_first_where_is_first(all, keep);
    lemma_put_is_found(all, keep, s);
    assert(graph::put(all, first_where(all, keep), s) == all.push(s));
}

/// A webhook event waits from when it is taken in until it is processed, and the
/// others that wait are not touched.
pub proof fn lemma_webhook_events_wait_until_processed(
    all: Seq<WebhookEventRecordView>,
    event: WebhookEventRecordView,
    at: Timestamp,
)
    requires
        event.processed_at is None,
        forall|i: int|
            0 <= i < all.len() ==> (#[trigger] all[i]).delivery_id != event.delivery_id,
    ensures
        waiting(with_webhook(all, event)) == waiting(all).push(event),
        waiting(with_processed(with_webhook(all, event), event.delivery_id, at)) == waiting(all),
{
    let keep = |e: WebhookEventRecordView| e.delivery_id == event.delivery_id;
    lemma_first_where(all, keep, all.len() as int);
    let taken = with_webhook(all, event);
    assert(taken == all.push(event));
    assert(taken.drop_last() =~= all);
    lemma_first_where(taken, keep, all.len() as int);
    let done = with_processed(taken, event.delivery_id, at);
    assert(done.drop_last() =~= all);
}

/// A transaction is kept whole or not at all: whatever was written in it, giving it
/// up leaves what was stored before it began, and keeping it leaves what was written.
/// Either way none is open afterwards.
pub proof fn lemma_transactions_are_atomic(s: StorageState, written: StorageModel)
    requires
        s.set_aside is None,
    ensures
        opened(s).1 is None,
        ({
            let working = StorageState { stored: written, ..opened(s).0 };
            &&& rolled_back(working) == (s, None::<StorageErrorView>)
            &&& committed(working) == (
                StorageState { stored: written, set_aside: None },
                None::<StorageErrorView>,
            )
        }),
{
}

/// A delivery that came before is not taken in again, and what was taken in first
/// stays.
pub proof fn lemma_deliveries_are_taken_in_once(
    all: Seq<WebhookEventRecordView>,
    first: WebhookEventRecordView,
    second: WebhookEventRecordView,
)
    requires
        first.delivery_id == second.delivery_id,
    ensures
        with_webhook(with_webhook(all, first), second) == with_webhook(all, first),
{
    let keep = |e: WebhookEventRecordView| e.delivery_id == first.delivery_id;
    let other = |e: WebhookEventRecordView| e.delivery_id == second.delivery_id;
    assert(keep =~= other);
    lemma_first_where_is_first(all, keep);
    let once = with_webhook(all, first);
    let place = first_where(all, keep);
    assert forall|i: int| 0 <= i < place implies !keep(#[trigger] once[i]) by {
        assert(!keep(all[i]));
    }
    assert(keep(once[place]));
    lemma_first_where(once, keep, place);
}

/// The newest items that pass a test come the newest first: one more that passes
/// comes before all others and takes the place of the oldest, where there is no
/// room; one more that does not pass changes nothing.
pub proof fn lemma_newest_come_first<T>(
    all: Seq<T>,
    keep: spec_fn(T) -> bool,
    item: T,
    limit: nat,
)
    ensures
        newest_where(all, keep, 0).len() == 0,
        newest_where(seq![], keep, limit).len() == 0,
        keep(item) ==> newest_where(all.push(item), keep, limit + 1) == seq![item] + newest_where(
            all,
            keep,
            limit,
        ),
        !keep(item) ==> newest_where(all.push(item), keep, limit) == newest_where(
            all,
            keep,
            limit,
        ),
{
    assert(all.push(item).drop_last() =~= all);
}

/// Never are there more than asked for, and none that does not pass the test.
pub proof fn lemma_newest_pass_the_test<T>(
    all: Seq<T>,
    keep: spec_fn(T) -> bool,
    limit: nat,
    i: int,
)
    requires
        0 <= i < newest_where(all, keep, limit).len(),
    ensures
        newest_where(all, keep, limit).len() <= limit,
        keep(newest_where(all, keep, limit)[i]),
        all.contains(newest_where(all, keep, limit)[i]),
    decreases all.len(),
{
    if keep(all.last()) {
        let rest = newest_where(all.drop_last(), keep, (limit - 1) as nat);
        if i > 0 {
            lemma_newest_pass_the_test(all.drop_last(), keep, (limit - 1) as nat, i - 1);
            assert(newest_where(all, keep, limit)[i] == rest[i - 1]);
            let k = choose|k: int|
                0 <= k < all.drop_last().len() && all.drop_last()[k] == rest[i - 1];
            assert(all[k] == rest[i - 1]);
        } else {
            assert(newest_where(all, keep, limit)[0] == all[all.len() - 1]);
            if rest.len() > 0 {
                lemma_newest_pass_the_test(all.drop_last(), keep, (limit - 1) as nat, 0);
            }
        }
    } else {
        lemma_newest_pass_the_test(all.drop_last(), keep, limit, i);
        let item = newest_where(all, keep, limit)[i];
        let k = choose|k: int| 0 <= k < all.drop_last().len() && all.drop_last()[k] == item;
        assert(all[k] == item);
    }
}

/// Items that pass a test stay in their order: one more comes last exactly if it
/// passes.
pub proof fn lemma_all_stay_in_order<T>(all: Seq<T>, keep: spec_fn(T) -> bool, item: T)
    ensures
        all_where(seq![], keep).len() == 0,
        keep(item) ==> all_where(all.push(item), keep) == all_where(all, keep).push(item),
        !keep(item) ==> all_where(all.push(item), keep) == all_where(all, keep),
{
    assert(all.push(item).drop_last() =~= all);
}

/// When something was first seen is the earliest moment that any finding about
/// it names: of the same detector in the same version, on the same network, at
/// the same node and the same channel. It is a moment that one of them names.
pub proof fn lemma_first_seen_is_the_earliest(all: Seq<FindingView>, f: FindingView, i: int)
    requires
        0 <= i < all.len(),
    ensures
        earliest(all, f).order() <= f.first_seen_at.order(),
        all[i].detector == f.detector && all[i].detector_version == f.detector_version
            && network_of(all[i]) == network_of(f) && all[i].node == f.node && all[i].channel
            == f.channel ==> earliest(all, f).order() <= all[i].first_seen_at.order(),
        earliest(all, f) == f.first_seen_at || exists|k: int|
            {
                &&& 0 <= k < all.len()
                &&& earliest(all, f) == (#[trigger] all[k]).first_seen_at
                &&& all[k].detector == f.detector
                &&& all[k].detector_version == f.detector_version
                &&& network_of(all[k]) == network_of(f)
                &&& all[k].node == f.node
                &&& all[k].channel == f.channel
            },
    decreases all.len(),
{
    lemma_earliest_at_most_own(all, f);
    if same_subject(all[i], f) {
        lemma_earliest_is_least(all, f, i);
    }
    let before = all.drop_last();
    let last = all.last();
    if same_subject(last, f) && last.first_seen_at.order() < earliest(before, f).order() {
        assert(earliest(all, f) == all[all.len() - 1].first_seen_at);
    } else if before.len() > 0 {
        lemma_first_seen_is_the_earliest(before, f, 0);
        if earliest(before, f) != f.first_seen_at {
            let k = choose|k: int|
                {
                    &&& 0 <= k < before.len()
                    &&& earliest(before, f) == (#[trigger] before[k]).first_seen_at
                    &&& before[k].detector == f.detector
                    &&& before[k].detector_version == f.detector_version
                    &&& network_of(before[k]) == network_of(f)
                    &&& before[k].node == f.node
                    &&& before[k].channel == f.channel
                };
            assert(all[k] == before[k]);
        }
    }
}

/// A finding that is seen again keeps its identity and is known from the earlier
/// of the two moments on. It says what the later sighting says.
pub proof fn lemma_sightings_are_merged(existing: FindingView, f: FindingView, first: Timestamp)
    ensures
        ({
            let r = seen_again(existing, f, first);
            let later = f.last_seen_at.order() >= existing.last_seen_at.order();
            &&& r.id == existing.id && r.detector == existing.detector && r.detector_version
                == existing.detector_version && r.node == existing.node && r.channel
                == existing.channel
            &&& r.first_seen_at == first || r.first_seen_at == existing.first_seen_at
            &&& r.first_seen_at.order() <= first.order()
            &&& r.first_seen_at.order() <= existing.first_seen_at.order()
            &&& later ==> r.last_seen_at == f.last_seen_at && r.severity == f.severity
                && r.evidence == f.evidence && r.timestamp == f.timestamp && r.lifecycle is Active
            &&& !later ==> r.last_seen_at == existing.last_seen_at && r.severity
                == existing.severity && r.evidence == existing.evidence && r.timestamp
                == existing.timestamp && r.lifecycle == existing.lifecycle
        }),
{
}

/// A cycle resolves a finding exactly if the cycle was complete and the finding
/// was active, of the cycle's detector, on its network and at its node.
pub proof fn lemma_what_a_cycle_resolves(
    all: Seq<FindingView>,
    scope: FindingCycleScopeView,
    i: int,
)
    requires
        0 <= i < all.len(),
    ensures
        resolved(all, scope)[i] != all[i] <==> {
            &&& scope.complete
            &&& all[i].lifecycle is Active
            &&& all[i].detector == scope.detector
            &&& network_of(all[i]) == scope.network
            &&& all[i].node == scope.node
        },
        resolved(all, scope)[i] != all[i] ==> resolved(all, scope)[i].lifecycle is Resolved,
{
}

/// A finding passes the filter for what is active or the one for what is
/// resolved, never both, and always the one for all.
pub proof fn lemma_filters_part_the_findings(f: FindingView)
    ensures
        passes(f, FindingLifecycleFilter::All),
        passes(f, FindingLifecycleFilter::Active) <==> f.lifecycle is Active,
        passes(f, FindingLifecycleFilter::Active) != passes(f, FindingLifecycleFilter::Resolved),
{
}

/// A run is refused exactly if another one bears its identity and differs, or if
/// its identity is new and another one with a result has its input.
pub proof fn lemma_which_runs_are_refused(
    all: Seq<SimulationRecordView>,
    rec: SimulationRecordView,
)
    ensures
        ({
            let known = record_named(all, rec.id);
            let taken = exists|i: int|
                {
                    &&& 0 <= i < all.len()
                    &&& (#[trigger] all[i]).input_hash == rec.input_hash
                    &&& !(all[i].canonical_input is Null)
                    &&& !(all[i].projection is Null)
                };
            &&& known is Some ==> (record_conflict(all, rec) is Some
                <==> !records::same_record(known->0, rec))
            &&& known is None ==> (record_conflict(all, rec) is Some <==> rec.input_hash.len() > 0
                && !(rec.canonical_input is Null) && !(rec.projection is Null) && taken)
        }),
{
    let known = first_where(all, |e: SimulationRecordView| e.id == rec.id);
    lemma_first_where_is_first(all, |e: SimulationRecordView| e.id == rec.id);
    if exists|i: int|
        0 <= i < all.len() && (#[trigger] all[i]).input_hash == rec.input_hash && reusable(all[i]) {
        let i = choose|i: int|
            0 <= i < all.len() && (#[trigger] all[i]).input_hash == rec.input_hash && reusable(
                all[i],
            );
        assert(!(all[i].canonical_input is Null) && !(all[i].projection is Null));
    }
    if exists|i: int|
        {
            &&& 0 <= i < all.len()
            &&& (#[trigger] all[i]).input_hash == rec.input_hash
            &&& !(all[i].canonical_input is Null)
            &&& !(all[i].projection is Null)
        } {
        let i = choose|i: int|
            {
                &&& 0 <= i < all.len()
                &&& (#[trigger] all[i]).input_hash == rec.input_hash
                &&& !(all[i].canonical_input is Null)
                &&& !(all[i].projection is Null)
            };
        assert(reusable(all[i]));
    }
}

/// The run found for an input has that input and can be replayed, and no run that
/// can be is later. None is found exactly if there is none, and none is found
/// for no input.
pub proof fn lemma_the_latest_run_is_found(
    all: Seq<SimulationRecordView>,
    input_hash: Seq<char>,
    i: int,
)
    requires
        0 <= i < all.len(),
    ensures
        ({
            let found = latest_with_input(all, input_hash);
            let fits = input_hash.len() > 0 && all[i].input_hash == input_hash && !(
            all[i].canonical_input is Null);
            &&& input_hash.len() == 0 ==> found is None
            &&& fits ==> found is Some && !text::precedes(found->0.created_at, all[i].created_at)
            &&& found is Some ==> all.contains(found->0) && found->0.input_hash == input_hash && !(
            found->0.canonical_input is Null)
        }),
    decreases all.len(),
{
    let before = all.drop_last();
    let last = all.last();
    let found = latest_with_input(all, input_hash);
    assert(all[all.len() - 1] == last);
    if before.len() > 0 {
        if i < before.len() {
            lemma_the_latest_run_is_found(before, input_hash, i);
            assert(all[i] == before[i]);
        } else {
            lemma_the_latest_run_is_found(before, input_hash, 0);
        }
        let earlier = latest_with_input(before, input_hash);
        if earlier is Some {
            let k = choose|k: int| 0 <= k < before.len() && before[k] == earlier->0;
            assert(all[k] == earlier->0);
            if text::precedes(earlier->0.created_at, last.created_at) && text::precedes(
                last.created_at,
                earlier->0.created_at,
            ) {
                text::lemma_precedes_transitive(
                    earlier->0.created_at,
                    last.created_at,
                    earlier->0.created_at,
                );
                text::lemma_precedes_irreflexive(earlier->0.created_at);
            }
            if found == Some(last) && i < before.len() {
                if text::precedes(last.created_at, all[i].created_at) {
                    text::lemma_precedes_total(all[i].created_at, earlier->0.created_at);
                    if text::precedes(all[i].created_at, earlier->0.created_at) {
                        text::lemma_precedes_transitive(
                            last.created_at,
                            all[i].created_at,
                            earlier->0.created_at,
                        );
                    }
                }
            }
        }
    }
    text::lemma_precedes_irreflexive(last.created_at);
}

/// An event of a run is known exactly from when one of its identity was kept.
pub proof fn lemma_events_are_known_once_kept(
    all: Seq<SimulationEventView>,
    event: SimulationEventView,
    id: Seq<char>,
)
    ensures
        !event_known(seq![], id),
        event_known(all.push(event), id) <==> event.id == id || event_known(all, id),
{
    if event_known(all, id) {
        let i = choose|i: int| 0 <= i < all.len() && (#[trigger] all[i]).id == id;
        assert(all.push(event)[i].id == id);
    }
    if event.id == id {
        assert(all.push(event)[all.len() as int].id == id);
    }
    if event_known(all.push(event), id) {
        let i = choose|i: int|
            0 <= i < all.push(event).len() && (#[trigger] all.push(event)[i]).id == id;
        if i < all.len() {
            assert(all[i].id == id);
        }
    }
}

/// Rows are counted one by one up to the cap, and not beyond it.
pub proof fn lemma_counting_stops_at_the_cap(rows: nat)
    ensures
        rows < 100_000 ==> counted(rows + 1) == counted(rows) + 1,
        rows >= 100_000 ==> counted(rows + 1) == counted(rows),
        counted(0) == 0,
{
}

/// Opening a transaction while one is open is refused, and so is keeping or giving
/// up one while none is; what is stored stays then.
pub proof fn lemma_transactions_do_not_nest(s: StorageState)
    ensures
        opened(s).1 is Some <==> s.set_aside is Some,
        committed(s).1 is Some <==> s.set_aside is None,
        rolled_back(s).1 is Some <==> s.set_aside is None,
        opened(s).0.stored == s.stored,
        opened(s).1 is Some ==> opened(s).0 == s,
        committed(s).1 is Some ==> committed(s).0 == s,
        rolled_back(s).1 is Some ==> rolled_back(s).0 == s,
{
}

/// A limit leaves the first items as they are, and leaves out what is beyond it.
pub proof fn lemma_limits_cut_off_the_end<T>(all: Seq<T>, limit: nat)
    ensures
        all.len() <= limit ==> at_most(all, limit) == all,
        all.len() > limit ==> at_most(all, limit).len() == limit,
        forall|i: int|
            0 <= i < at_most(all, limit).len() ==> #[trigger] at_most(all, limit)[i] == all[i],
{
}

/// A new storage holds nothing.
pub proof fn lemma_storage_begins_empty(m: StorageModel)
    requires
        m == empty_storage(),
    ensures
        m.findings.len() == 0 && m.recommendations.len() == 0 && m.audit.len() == 0,
        m.channel_snapshots.len() == 0 && m.simulations.len() == 0,
        m.simulation_records.len() == 0 && m.simulation_events.len() == 0,
        m.alerts.len() == 0 && m.webhook_events.len() == 0,
        m.operational_state is None,
{
}

} // verus!
