//! The liquidity redistribution model: what moving an amount from one channel to
//! another would leave on both, computed from recorded snapshots alone.
use crate::action::{ActionType, Recommendation};
use crate::domain::{
    classify_imbalance, same_network, BitcoinNetwork, ChannelSnapshot, ChannelSnapshotView,
    ChannelStatus, LiquidityImbalance,
};
use crate::finding::{
    ChannelSnapshotReference, ChannelSnapshotReferenceView, FindingProvenance,
    FindingProvenanceView, ObservationReference, ObservationReferenceView, ObservationSource,
};
use crate::identity;
use crate::identity::channel_snapshot_state_digest;
use crate::ratio;
use crate::ratio::Ratio;
use crate::text;
use crate::text::same_text;
use crate::time::{Span, Timestamp};
use vstd::prelude::*;

verus! {

/// How many seconds old a snapshot may be before a simulation over it counts as
/// stale.
pub const DEFAULT_FRESHNESS: i64 = 900;

/// How a simulation stands.
#[derive(Debug, Clone, Copy, PartialEq, Eq, Structural)]
pub enum SimulationStatus {
    Requested,
    Completed,
    Unsupported,
    InvalidInput,
    Stale,
    Failed,
}

impl DeepView for SimulationStatus {
    type V = SimulationStatus;

    open spec fn deep_view(&self) -> SimulationStatus {
        *self
    }
}

impl SimulationStatus {
    /// The stable name of the status.
    pub open spec fn name(self) -> Seq<char> {
        match self {
            SimulationStatus::Requested => "requested"@,
            SimulationStatus::Completed => "completed"@,
            SimulationStatus::Unsupported => "unsupported"@,
            SimulationStatus::InvalidInput => "invalid_input"@,
            SimulationStatus::Stale => "stale"@,
            SimulationStatus::Failed => "failed"@,
        }
    }

    /// The stable name of the status.
    pub fn as_str(self) -> (r: &'static str)
        ensures
            r@ == self.name(),
    {
        match self {
            SimulationStatus::Requested => "requested",
            SimulationStatus::Completed => "completed",
            SimulationStatus::Unsupported => "unsupported",
            SimulationStatus::InvalidInput => "invalid_input",
            SimulationStatus::Stale => "stale",
            SimulationStatus::Failed => "failed",
        }
    }
}

/// How far a projection can be relied on.
#[derive(Debug, Clone, Copy, PartialEq, Eq, Structural)]
pub enum SimulationConfidence {
    High,
    Medium,
    Low,
    Unknown,
}

impl DeepView for SimulationConfidence {
    type V = SimulationConfidence;

    open spec fn deep_view(&self) -> SimulationConfidence {
        *self
    }
}

impl SimulationConfidence {
    /// The stable name of the confidence.
    pub open spec fn name(self) -> Seq<char> {
        match self {
            SimulationConfidence::High => "high"@,
            SimulationConfidence::Medium => "medium"@,
            SimulationConfidence::Low => "low"@,
            SimulationConfidence::Unknown => "unknown"@,
        }
    }

    /// The stable name of the confidence.
    pub fn as_str(self) -> (r: &'static str)
        ensures
            r@ == self.name(),
    {
        match self {
            SimulationConfidence::High => "high",
            SimulationConfidence::Medium => "medium",
            SimulationConfidence::Low => "low",
            SimulationConfidence::Unknown => "unknown",
        }
    }
}

/// How much a note on a projection matters.
#[derive(Debug, Clone, Copy, PartialEq, Eq, Structural)]
pub enum SimulationNoticeSeverity {
    Info,
    Warning,
    Critical,
}

impl DeepView for SimulationNoticeSeverity {
    type V = SimulationNoticeSeverity;

    open spec fn deep_view(&self) -> SimulationNoticeSeverity {
        *self
    }
}

/// Something that a projection takes for granted.
#[derive(Debug, PartialEq, Eq)]
pub struct Assumption {
    pub code: String,
    pub description: String,
    pub severity: SimulationNoticeSeverity,
}

/// The mathematical value of a [`Assumption`].
pub struct AssumptionView {
    pub code: Seq<char>,
    pub description: Seq<char>,
    pub severity: SimulationNoticeSeverity,
}

impl DeepView for Assumption {
    type V = AssumptionView;

    open spec fn deep_view(&self) -> AssumptionView {
        AssumptionView {
            code: self.code.deep_view(),
            description: self.description.deep_view(),
            severity: self.severity,
        }
    }
}

impl Clone for Assumption {
    fn clone(&self) -> (r: Self)
        ensures
            r.deep_view() == self.deep_view(),
    {
        Assumption {
            code: self.code.clone(),
            description: self.description.clone(),
            severity: self.severity,
        }
    }
}

impl Assumption {
    /// An assumption that informs.
    pub fn new(code: &str, description: &str) -> (r: Assumption)
        ensures
            r.deep_view() == (AssumptionView {
                code: code@,
                description: description@,
                severity: SimulationNoticeSeverity::Info,
            }),
    {
        Assumption {
            code: code.to_owned(),
            description: description.to_owned(),
            severity: SimulationNoticeSeverity::Info,
        }
    }
}

/// Something about a projection that deserves care.
#[derive(Debug, PartialEq, Eq)]
pub struct SimulationWarning {
    pub code: String,
    pub description: String,
    pub severity: SimulationNoticeSeverity,
}

/// The mathematical value of a [`SimulationWarning`].
pub struct SimulationWarningView {
    pub code: Seq<char>,
    pub description: Seq<char>,
    pub severity: SimulationNoticeSeverity,
}

impl DeepView for SimulationWarning {
    type V = SimulationWarningView;

    open spec fn deep_view(&self) -> SimulationWarningView {
        SimulationWarningView {
            code: self.code.deep_view(),
            description: self.description.deep_view(),
            severity: self.severity,
        }
    }
}

impl Clone for SimulationWarning {
    fn clone(&self) -> (r: Self)
        ensures
            r.deep_view() == self.deep_view(),
    {
        SimulationWarning {
            code: self.code.clone(),
            description: self.description.clone(),
            severity: self.severity,
        }
    }
}

impl SimulationWarning {
    /// A warning.
    pub fn new(code: &str, description: &str) -> (r: SimulationWarning)
        ensures
            r.deep_view() == (SimulationWarningView {
                code: code@,
                description: description@,
                severity: SimulationNoticeSeverity::Warning,
            }),
    {
        SimulationWarning {
            code: code.to_owned(),
            description: description.to_owned(),
            severity: SimulationNoticeSeverity::Warning,
        }
    }
}

/// The balances of a channel before or after a projection.
#[derive(Debug, Clone, Copy, PartialEq, Eq, Structural)]
pub struct ProjectedState {
    pub local_ratio: Ratio,
    pub local_balance_msat: u64,
    pub remote_balance_msat: u64,
    pub capacity_msat: u64,
}

impl DeepView for ProjectedState {
    type V = ProjectedState;

    open spec fn deep_view(&self) -> ProjectedState {
        *self
    }
}

/// What a projection changes on one channel.
#[derive(Debug, PartialEq)]
pub struct ProjectedDelta {
    pub channel_id: String,
    pub local_before_msat: u64,
    pub local_after_msat: u64,
    pub remote_before_msat: u64,
    pub remote_after_msat: u64,
    pub delta_msat: u64,
    pub clears_finding: bool,
}

/// The mathematical value of a [`ProjectedDelta`].
pub struct ProjectedDeltaView {
    pub channel_id: Seq<char>,
    pub local_before_msat: u64,
    pub local_after_msat: u64,
    pub remote_before_msat: u64,
    pub remote_after_msat: u64,
    pub delta_msat: u64,
    pub clears_finding: bool,
}

impl DeepView for ProjectedDelta {
    type V = ProjectedDeltaView;

    open spec fn deep_view(&self) -> ProjectedDeltaView {
        ProjectedDeltaView {
            channel_id: self.channel_id.deep_view(),
            local_before_msat: self.local_before_msat,
            local_after_msat: self.local_after_msat,
            remote_before_msat: self.remote_before_msat,
            remote_after_msat: self.remote_after_msat,
            delta_msat: self.delta_msat,
            clears_finding: self.clears_finding,
        }
    }
}

impl Clone for ProjectedDelta {
    fn clone(&self) -> (r: Self)
        ensures
            r.deep_view() == self.deep_view(),
    {
        ProjectedDelta {
            channel_id: self.channel_id.clone(),
            local_before_msat: self.local_before_msat,
            local_after_msat: self.local_after_msat,
            remote_before_msat: self.remote_before_msat,
            remote_after_msat: self.remote_after_msat,
            delta_msat: self.delta_msat,
            clears_finding: self.clears_finding,
        }
    }
}

/// Which amount moves from where to where.
#[derive(Debug, PartialEq, Eq)]
pub struct LiquidityRedistributionParameters {
    pub source_channel: String,
    pub destination_channel: String,
    pub amount_msat: u64,
}

/// The mathematical value of a [`LiquidityRedistributionParameters`].
pub struct LiquidityRedistributionParametersView {
    pub source_channel: Seq<char>,
    pub destination_channel: Seq<char>,
    pub amount_msat: u64,
}

impl DeepView for LiquidityRedistributionParameters {
    type V = LiquidityRedistributionParametersView;

    open spec fn deep_view(&self) -> LiquidityRedistributionParametersView {
        LiquidityRedistributionParametersView {
            source_channel: self.source_channel.deep_view(),
            destination_channel: self.destination_channel.deep_view(),
            amount_msat: self.amount_msat,
        }
    }
}

impl Clone for LiquidityRedistributionParameters {
    fn clone(&self) -> (r: Self)
        ensures
            r.deep_view() == self.deep_view(),
    {
        LiquidityRedistributionParameters {
            source_channel: self.source_channel.clone(),
            destination_channel: self.destination_channel.clone(),
            amount_msat: self.amount_msat,
        }
    }
}

/// Which side of a channel a finding says is drained.
#[derive(Debug, Clone, Copy, PartialEq, Eq, Structural)]
pub enum FindingDirection {
    Outbound,
    Inbound,
}

impl DeepView for FindingDirection {
    type V = FindingDirection;

    open spec fn deep_view(&self) -> FindingDirection {
        *self
    }
}

/// Everything that a simulation depends on, embedded so that it can be replayed.
#[derive(Debug, PartialEq)]
pub struct SimulationInput {
    pub recommendation_id: String,
    pub recommendation_target: String,
    pub finding_id: String,
    pub finding_channel: String,
    pub finding_direction: Option<FindingDirection>,
    pub node_id: String,
    pub network: Option<BitcoinNetwork>,
    pub provenance: FindingProvenance,
    pub action_type: ActionType,
    pub model_id: String,
    pub model_version: String,
    pub parameters: LiquidityRedistributionParameters,
    pub source_snapshot: ChannelSnapshot,
    pub destination_snapshot: ChannelSnapshot,
}

/// The mathematical value of a [`SimulationInput`].
pub struct SimulationInputView {
    pub recommendation_id: Seq<char>,
    pub recommendation_target: Seq<char>,
    pub finding_id: Seq<char>,
    pub finding_channel: Seq<char>,
    pub finding_direction: Option<FindingDirection>,
    pub node_id: Seq<char>,
    pub network: Option<BitcoinNetwork>,
    pub provenance: FindingProvenanceView,
    pub action_type: ActionType,
    pub model_id: Seq<char>,
    pub model_version: Seq<char>,
    pub parameters: LiquidityRedistributionParametersView,
    pub source_snapshot: ChannelSnapshotView,
    pub destination_snapshot: ChannelSnapshotView,
}

impl DeepView for SimulationInput {
    type V = SimulationInputView;

    open spec fn deep_view(&self) -> SimulationInputView {
        SimulationInputView {
            recommendation_id: self.recommendation_id.deep_view(),
            recommendation_target: self.recommendation_target.deep_view(),
            finding_id: self.finding_id.deep_view(),
            finding_channel: self.finding_channel.deep_view(),
            finding_direction: self.finding_direction,
            node_id: self.node_id.deep_view(),
            network: self.network,
            provenance: self.provenance.deep_view(),
            action_type: self.action_type,
            model_id: self.model_id.deep_view(),
            model_version: self.model_version.deep_view(),
            parameters: self.parameters.deep_view(),
            source_snapshot: self.source_snapshot.deep_view(),
            destination_snapshot: self.destination_snapshot.deep_view(),
        }
    }
}

impl Clone for SimulationInput {
    fn clone(&self) -> (r: Self)
        ensures
            r.deep_view() == self.deep_view(),
    {
        SimulationInput {
            recommendation_id: self.recommendation_id.clone(),
            recommendation_target: self.recommendation_target.clone(),
            finding_id: self.finding_id.clone(),
            finding_channel: self.finding_channel.clone(),
            finding_direction: self.finding_direction,
            node_id: self.node_id.clone(),
            network: self.network,
            provenance: self.provenance.clone(),
            action_type: self.action_type,
            model_id: self.model_id.clone(),
            model_version: self.model_version.clone(),
            parameters: self.parameters.clone(),
            source_snapshot: self.source_snapshot.clone(),
            destination_snapshot: self.destination_snapshot.clone(),
        }
    }
}

/// One request for a simulation. It takes no part in the result.
#[derive(Debug, PartialEq)]
pub struct SimulationRequest {
    pub id: String,
    pub input: SimulationInput,
    pub requested_at: Timestamp,
}

/// The mathematical value of a [`SimulationRequest`].
pub struct SimulationRequestView {
    pub id: Seq<char>,
    pub input: SimulationInputView,
    pub requested_at: Timestamp,
}

impl DeepView for SimulationRequest {
    type V = SimulationRequestView;

    open spec fn deep_view(&self) -> SimulationRequestView {
        SimulationRequestView {
            id: self.id.deep_view(),
            input: self.input.deep_view(),
            requested_at: self.requested_at,
        }
    }
}

impl Clone for SimulationRequest {
    fn clone(&self) -> (r: Self)
        ensures
            r.deep_view() == self.deep_view(),
    {
        SimulationRequest {
            id: self.id.clone(),
            input: self.input.clone(),
            requested_at: self.requested_at,
        }
    }
}

/// What a simulation found. It names no run and no time, so that equal inputs give equal results.
#[derive(Debug, PartialEq)]
pub struct SimulationResult {
    pub model_id: String,
    pub model_version: String,
    pub input_hash: String,
    pub baseline: ProjectedState,
    pub projected: ProjectedState,
    pub deltas: Vec<ProjectedDelta>,
    pub assumptions: Vec<Assumption>,
    pub warnings: Vec<SimulationWarning>,
    pub confidence: SimulationConfidence,
}

/// The mathematical value of a [`SimulationResult`].
pub struct SimulationResultView {
    pub model_id: Seq<char>,
    pub model_version: Seq<char>,
    pub input_hash: Seq<char>,
    pub baseline: ProjectedState,
    pub projected: ProjectedState,
    pub deltas: Seq<ProjectedDeltaView>,
    pub assumptions: Seq<AssumptionView>,
    pub warnings: Seq<SimulationWarningView>,
    pub confidence: SimulationConfidence,
}

impl DeepView for SimulationResult {
    type V = SimulationResultView;

    open spec fn deep_view(&self) -> SimulationResultView {
        SimulationResultView {
            model_id: self.model_id.deep_view(),
            model_version: self.model_version.deep_view(),
            input_hash: self.input_hash.deep_view(),
            baseline: self.baseline,
            projected: self.projected,
            deltas: self.deltas.deep_view(),
            assumptions: self.assumptions.deep_view(),
            warnings: self.warnings.deep_view(),
            confidence: self.confidence,
        }
    }
}

impl Clone for SimulationResult {
    fn clone(&self) -> (r: Self)
        ensures
            r.deep_view() == self.deep_view(),
    {
        let deltas = self.deltas.clone();
        assert(deltas.deep_view() =~= self.deltas.deep_view());
        let assumptions = self.assumptions.clone();
        assert(assumptions.deep_view() =~= self.assumptions.deep_view());
        let warnings = self.warnings.clone();
        assert(warnings.deep_view() =~= self.warnings.deep_view());
        SimulationResult {
            model_id: self.model_id.clone(),
            model_version: self.model_version.clone(),
            input_hash: self.input_hash.clone(),
            baseline: self.baseline,
            projected: self.projected,
            deltas,
            assumptions,
            warnings,
            confidence: self.confidence,
        }
    }
}

/// Why a model did not produce a result.
#[derive(Debug, PartialEq, Eq)]
pub enum ModelError {
    Unsupported { model_id: String },
    InvalidInput(String),
    CalculationFailed(String),
    Serialization(String),
}

/// The mathematical value of a [`ModelError`].
pub enum ModelErrorView {
    Unsupported { model_id: Seq<char> },
    InvalidInput(Seq<char>),
    CalculationFailed(Seq<char>),
    Serialization(Seq<char>),
}

impl DeepView for ModelError {
    type V = ModelErrorView;

    open spec fn deep_view(&self) -> ModelErrorView {
        match self {
            ModelError::Unsupported { model_id } => ModelErrorView::Unsupported {
                model_id: model_id@,
            },
            ModelError::InvalidInput(s) => ModelErrorView::InvalidInput(s@),
            ModelError::CalculationFailed(s) => ModelErrorView::CalculationFailed(s@),
            ModelError::Serialization(s) => ModelErrorView::Serialization(s@),
        }
    }
}

/// What an error says.
pub open spec fn model_error_text(e: ModelErrorView) -> Seq<char> {
    match e {
        ModelErrorView::Unsupported { model_id } =>
            "unsupported recommendation type for model "@ + model_id,
        ModelErrorView::InvalidInput(s) => "invalid parameters: "@ + s,
        ModelErrorView::CalculationFailed(s) => "calculation failed: "@ + s,
        ModelErrorView::Serialization(s) => "canonical input serialization failed: "@ + s,
    }
}

impl ModelError {
    /// What the error says.
    pub fn to_text(&self) -> (r: String)
        ensures
            r@ == model_error_text(self.deep_view()),
    {
        match self {
            ModelError::Unsupported { model_id } =>
                "unsupported recommendation type for model ".to_owned().concat(model_id.as_str()),
            ModelError::InvalidInput(s) => "invalid parameters: ".to_owned().concat(s.as_str()),
            ModelError::CalculationFailed(s) =>
                "calculation failed: ".to_owned().concat(s.as_str()),
            ModelError::Serialization(s) =>
                "canonical input serialization failed: ".to_owned().concat(s.as_str()),
        }
    }
}

fn invalid(message: &str) -> (r: ModelError)
    ensures
        r.deep_view() == ModelErrorView::InvalidInput(message@),
{
    ModelError::InvalidInput(message.to_owned())
}

/// The snapshot of the channel that the finding is about.
pub open spec fn finding_snapshot(input: SimulationInputView) -> ChannelSnapshotView {
    if input.destination_snapshot.channel_id == input.finding_channel {
        input.destination_snapshot
    } else {
        input.source_snapshot
    }
}

impl SimulationInput {
    /// The snapshot of the channel that the finding is about.
    pub fn finding_snapshot(&self) -> (r: &ChannelSnapshot)
        ensures
            r.deep_view() == finding_snapshot(self.deep_view()),
    {
        if same_text(
            self.destination_snapshot.channel_id.as_str(),
            self.finding_channel.as_str(),
        ) {
            &self.destination_snapshot
        } else {
            &self.source_snapshot
        }
    }

    /// When the state that the finding is about was observed.
    pub fn observed_at(&self) -> (r: Timestamp)
        ensures
            r == finding_snapshot(self.deep_view()).ts,
    {
        self.finding_snapshot().ts
    }

    /// Whether the observed state is older than `freshness` at `now`.
    pub fn is_stale_at(&self, now: Timestamp, freshness: Span) -> (r: bool)
        ensures
            r == stale_at(self.deep_view(), now, freshness),
    {
        now.is_more_than_after(&freshness, &self.observed_at())
    }

    /// Whether the observed state is dated after `now`.
    pub fn is_future_at(&self, now: Timestamp) -> (r: bool)
        ensures
            r == future_at(self.deep_view(), now),
    {
        now.is_before(&self.observed_at())
    }
}

/// Whether the observed state is older than `freshness` at `now`.
pub open spec fn stale_at(input: SimulationInputView, now: Timestamp, freshness: Span) -> bool {
    now.since(finding_snapshot(input).ts) > freshness.length()
}

/// Whether the observed state is dated after `now`.
pub open spec fn future_at(input: SimulationInputView, now: Timestamp) -> bool {
    finding_snapshot(input).ts.order() > now.order()
}

/// What the hash of a canonically encoded input is the digest of.
pub open spec fn hashed_input(canonical: Seq<u8>) -> Seq<u8> {
    identity::text_bytes("rieko-simulation-input-v3"@) + identity::field(canonical)
}

/// The hash of a canonically encoded input.
pub open spec fn input_hash_text(canonical: Seq<u8>) -> Seq<char> {
    identity::digest_text(hashed_input(canonical))
}

/// The hash of a canonically encoded input, by which equal inputs are found again.
pub fn compute_input_hash(canonical: &[u8]) -> (r: String)
    ensures
        r@ == input_hash_text(canonical@),
        identity::is_digest(r@),
{
    proof {
        reveal(identity::text_bytes);
    }
    let mut out: Vec<u8> = Vec::new();
    identity::push_bytes(&mut out, "rieko-simulation-input-v3".as_bytes());
    identity::push_field(&mut out, canonical);
    assert(out@ =~= identity::text_bytes("rieko-simulation-input-v3"@) + identity::field(
        canonical@,
    ));
    identity::digest(&out)
}

/// Two inputs have the same hash exactly if their canonical encodings are the same,
/// as long as the digest tells what it is taken over apart.
pub proof fn lemma_input_hash_distinguishes(a: Seq<u8>, b: Seq<u8>)
    requires
        identity::no_collision(hashed_input(a), hashed_input(b)),
        a.len() <= u64::MAX,
        b.len() <= u64::MAX,
    ensures
        input_hash_text(a) == input_hash_text(b) <==> a == b,
{
    identity::lemma_digest_distinguishes(hashed_input(a), hashed_input(b));
    if input_hash_text(a) == input_hash_text(b) {
        let label = identity::text_bytes("rieko-simulation-input-v3"@);
        let nothing = Seq::<u8>::empty();
        assert(hashed_input(a).skip(label.len() as int) =~= identity::field(a) + nothing);
        assert(hashed_input(b).skip(label.len() as int) =~= identity::field(b) + nothing);
        identity::lemma_field_splits(a, nothing, b, nothing);
    }
}

/// The latest of several references, the last of those that are equally late.
pub open spec fn latest_reference(s: Seq<ChannelSnapshotReferenceView>) -> Option<
    ChannelSnapshotReferenceView,
>
    decreases s.len(),
{
    if s.len() == 0 {
        None
    } else {
        match latest_reference(s.drop_last()) {
            None => Some(s.last()),
            Some(best) => if best.observed_at.order() > s.last().observed_at.order() {
                Some(best)
            } else {
                Some(s.last())
            },
        }
    }
}

fn find_latest(references: &Vec<ChannelSnapshotReference>) -> (r: Option<&ChannelSnapshotReference>)
    ensures
        r.deep_view() == latest_reference(references.deep_view()),
{
    let ghost all = references.deep_view();
    let mut best: Option<&ChannelSnapshotReference> = None;
    let mut i: usize = 0;
    while i < references.len()
        invariant
            i <= references.len(),
            all == references.deep_view(),
            best.deep_view() == latest_reference(all.take(i as int)),
        decreases references.len() - i,
    {
        assert(all.take(i + 1).drop_last() =~= all.take(i as int));
        assert(all.take(i + 1).last() == references[i as int].deep_view());
        let candidate = &references[i];
        best = match best {
            None => Some(candidate),
            Some(b) => if candidate.observed_at.is_before(&b.observed_at) {
                Some(b)
            } else {
                Some(candidate)
            },
        };
        i += 1;
    }
    assert(all.take(i as int) =~= all);
    best
}

/// The channel and the snapshot that the provenance refers to.
pub open spec fn referenced(observation: ObservationReferenceView) -> (
    Seq<char>,
    Option<ChannelSnapshotReferenceView>,
) {
    match observation {
        ObservationReferenceView::ChannelState { channel_id, snapshot } => (
            channel_id,
            Some(snapshot),
        ),
        ObservationReferenceView::ChannelWindow { channel_id, snapshots } => (
            channel_id,
            latest_reference(snapshots),
        ),
    }
}

/// The name of the model.
pub open spec fn model_id_text() -> Seq<char> {
    "liquidity-redistribution"@
}

/// The version of the model.
pub open spec fn model_version_text() -> Seq<char> {
    "3"@
}

/// The refusal of an input.
pub open spec fn refuse(message: Seq<char>) -> Option<ModelErrorView> {
    Some(ModelErrorView::InvalidInput(message))
}

/// Why the request itself is refused: its kind, node, network, source or model.
pub open spec fn request_refusal(input: SimulationInputView) -> Option<ModelErrorView> {
    if input.action_type != ActionType::RebalanceChannel {
        Some(ModelErrorView::Unsupported { model_id: model_id_text() })
    } else if text::blank(input.node_id) {
        refuse("node identity is required"@)
    } else if input.network is None {
        refuse("network identity is required"@)
    } else if input.provenance.network != input.network {
        refuse("finding provenance network does not match simulation network"@)
    } else if input.provenance.source is Lnd && input.provenance.source->Lnd_configured_node
        != input.node_id {
        refuse("source provenance does not match node identity"@)
    } else if input.model_id != model_id_text() || input.model_version != model_version_text() {
        refuse(
            "request declares model "@ + input.model_id + " v"@ + input.model_version
                + ", expected "@ + model_id_text() + " v"@ + model_version_text(),
        )
    } else {
        None
    }
}

/// The channel that a finding of this direction must be about.
pub open spec fn drained_channel(
    direction: FindingDirection,
    parameters: LiquidityRedistributionParametersView,
) -> Seq<char> {
    match direction {
        FindingDirection::Outbound => parameters.destination_channel,
        FindingDirection::Inbound => parameters.source_channel,
    }
}

/// Why the tie between the finding and the observed state is refused.
pub open spec fn provenance_refusal(input: SimulationInputView) -> Option<ModelErrorView> {
    let (channel, reference) = referenced(input.provenance.observation);
    if reference is None {
        refuse("finding provenance has an empty observation window"@)
    } else if input.recommendation_target != input.finding_channel || channel
        != input.finding_channel {
        refuse("recommendation and provenance must identify the finding channel"@)
    } else if reference->0.network != input.network {
        refuse("snapshot reference network does not match simulation network"@)
    } else if input.finding_direction is None {
        refuse("finding liquidity direction is required"@)
    } else if input.finding_channel != drained_channel(
        input.finding_direction->0,
        input.parameters,
    ) {
        match input.finding_direction->0 {
            FindingDirection::Outbound => refuse(
                "outbound-drained finding channel must be the destination"@,
            ),
            FindingDirection::Inbound => refuse(
                "inbound-drained finding channel must be the source"@,
            ),
        }
    } else if reference->0.observed_at != finding_snapshot(input).ts {
        refuse("finding snapshot is not the finding's observed state"@)
    } else if reference->0.state_digest != identity::snapshot_digest(finding_snapshot(input)) {
        refuse("finding snapshot digest does not match provenance"@)
    } else {
        None
    }
}

/// Why a snapshot is refused as not being the stored one of this network.
pub open spec fn stored_refusal(
    label: Seq<char>,
    s: ChannelSnapshotView,
    network: Option<BitcoinNetwork>,
) -> Option<ModelErrorView> {
    if s.network != network {
        refuse(label + " snapshot network does not match simulation network"@)
    } else if s.state_digest is None {
        refuse(label + " snapshot has no state digest"@)
    } else if s.state_digest->0 != identity::snapshot_digest(s) {
        refuse(label + " snapshot state digest is invalid"@)
    } else {
        None
    }
}

/// Why the parameters and the two snapshots do not belong together.
pub open spec fn pairing_refusal(input: SimulationInputView) -> Option<ModelErrorView> {
    let parameters = input.parameters;
    let source = input.source_snapshot;
    let destination = input.destination_snapshot;
    if parameters.source_channel == parameters.destination_channel {
        refuse("source and destination must differ"@)
    } else if parameters.amount_msat == 0 {
        refuse("amount must be > 0"@)
    } else if source.channel_id != parameters.source_channel || destination.channel_id
        != parameters.destination_channel {
        refuse("snapshot identity does not match request parameters"@)
    } else if source.node_id != Some(input.node_id) || destination.node_id != Some(input.node_id) {
        refuse("snapshot node identity does not match finding provenance"@)
    } else if stored_refusal("source"@, source, input.network) is Some {
        stored_refusal("source"@, source, input.network)
    } else if stored_refusal("destination"@, destination, input.network) is Some {
        stored_refusal("destination"@, destination, input.network)
    } else if source.ts != destination.ts {
        refuse("source and destination snapshots must come from the same observation"@)
    } else {
        None
    }
}

/// Why the state that a snapshot records is refused.
pub open spec fn snapshot_refusal(label: Seq<char>, s: ChannelSnapshotView) -> Option<
    ModelErrorView,
> {
    let name = label + " channel "@ + s.channel_id;
    if s.status != ChannelStatus::Active {
        refuse(name + " is not active"@)
    } else if s.capacity_msat == 0 {
        refuse(name + " has zero capacity"@)
    } else if s.local_balance_msat + s.remote_balance_msat > s.capacity_msat {
        refuse(name + " has incoherent balances"@)
    } else if !ratio::unit_range(s.local_ratio.bits as nat) {
        refuse(name + " has an invalid local ratio"@)
    } else if ratio::ratios_differ(
        s.local_ratio.bits as nat,
        ratio::ratio_bits(s.local_balance_msat as nat, s.capacity_msat as nat) as nat,
    ) {
        refuse(name + " has an inconsistent local ratio"@)
    } else {
        None
    }
}

/// Whether the recorded state is drained in the direction that the finding says.
pub open spec fn direction_matches(direction: FindingDirection, s: ChannelSnapshotView) -> bool {
    let imbalance = crate::domain::imbalance_of(s.capacity_msat, s.local_balance_msat);
    match direction {
        FindingDirection::Outbound => imbalance == LiquidityImbalance::OutboundDrained || (imbalance
            == LiquidityImbalance::SeverelyDrained && s.local_ratio.below_half()),
        FindingDirection::Inbound => imbalance == LiquidityImbalance::InboundDrained || (imbalance
            == LiquidityImbalance::SeverelyDrained && !s.local_ratio.below_half()),
    }
}

/// Why the amount is refused, the rest being in order.
pub open spec fn amount_refusal(input: SimulationInputView) -> Option<ModelErrorView> {
    let amount = input.parameters.amount_msat;
    let source = input.source_snapshot;
    let destination = input.destination_snapshot;
    if !direction_matches(input.finding_direction->0, finding_snapshot(input)) {
        refuse("finding direction does not match the recorded channel state"@)
    } else if amount > source.spendable_outbound_msat {
        refuse(
            "amount "@ + text::decimal(amount as nat)
                + " msat exceeds source spendable outbound liquidity "@ + text::decimal(
                source.spendable_outbound_msat as nat,
            ) + " msat"@,
        )
    } else if amount > destination.spendable_inbound_msat {
        refuse(
            "amount "@ + text::decimal(amount as nat)
                + " msat exceeds destination spendable inbound liquidity "@ + text::decimal(
                destination.spendable_inbound_msat as nat,
            ) + " msat"@,
        )
    } else if amount > source.local_balance_msat || amount > destination.remote_balance_msat {
        refuse("amount exceeds recorded channel-side balance"@)
    } else if destination.local_balance_msat + amount > destination.capacity_msat {
        refuse("amount would overflow destination capacity"@)
    } else {
        None
    }
}

/// Why an input is refused: the first objection that applies, in this order.
pub open spec fn refusal(input: SimulationInputView) -> Option<ModelErrorView> {
    if request_refusal(input) is Some {
        request_refusal(input)
    } else if provenance_refusal(input) is Some {
        provenance_refusal(input)
    } else if pairing_refusal(input) is Some {
        pairing_refusal(input)
    } else if snapshot_refusal("source"@, input.source_snapshot) is Some {
        snapshot_refusal("source"@, input.source_snapshot)
    } else if snapshot_refusal("destination"@, input.destination_snapshot) is Some {
        snapshot_refusal("destination"@, input.destination_snapshot)
    } else {
        amount_refusal(input)
    }
}

/// The objection that a check came back with, if any.
pub open spec fn objection(r: Result<(), ModelError>) -> Option<ModelErrorView> {
    match r {
        Ok(_) => None,
        Err(e) => Some(e.deep_view()),
    }
}

fn check_request(input: &SimulationInput) -> (r: Result<(), ModelError>)
    ensures
        objection(r) == request_refusal(input.deep_view()),
{
    if input.action_type != ActionType::RebalanceChannel {
        return Err(
            ModelError::Unsupported { model_id: "liquidity-redistribution".to_owned() },
        );
    }
    if text::is_blank(input.node_id.as_str()) {
        return Err(invalid("node identity is required"));
    }
    if input.network.is_none() {
        return Err(invalid("network identity is required"));
    }
    if !same_network(input.provenance.network, input.network) {
        return Err(invalid("finding provenance network does not match simulation network"));
    }
    if let ObservationSource::Lnd { redacted_endpoint: _, configured_node } =
        &input.provenance.source {
        if !same_text(configured_node.as_str(), input.node_id.as_str()) {
            return Err(invalid("source provenance does not match node identity"));
        }
    }
    if !same_text(input.model_id.as_str(), "liquidity-redistribution") || !same_text(
        input.model_version.as_str(),
        "3",
    ) {
        let message = "request declares model ".to_owned().concat(input.model_id.as_str()).concat(
            " v",
        ).concat(input.model_version.as_str()).concat(", expected ").concat(
            "liquidity-redistribution",
        ).concat(" v").concat("3");
        return Err(ModelError::InvalidInput(message));
    }
    Ok(())
}

fn check_provenance(input: &SimulationInput) -> (r: Result<(), ModelError>)
    ensures
        objection(r) == provenance_refusal(input.deep_view()),
{
    let (channel, found) = match &input.provenance.observation {
        ObservationReference::ChannelState { channel_id, snapshot } => (channel_id, Some(snapshot)),
        ObservationReference::ChannelWindow { channel_id, snapshots } => (
            channel_id,
            find_latest(snapshots),
        ),
    };
    let reference = match found {
        Some(reference) => reference,
        None => {
            return Err(invalid("finding provenance has an empty observation window"));
        },
    };
    if !same_text(input.recommendation_target.as_str(), input.finding_channel.as_str())
        || !same_text(channel.as_str(), input.finding_channel.as_str()) {
        return Err(invalid("recommendation and provenance must identify the finding channel"));
    }
    if !same_network(reference.network, input.network) {
        return Err(invalid("snapshot reference network does not match simulation network"));
    }
    let direction = match input.finding_direction {
        Some(direction) => direction,
        None => {
            return Err(invalid("finding liquidity direction is required"));
        },
    };
    let expected = match direction {
        FindingDirection::Outbound => &input.parameters.destination_channel,
        FindingDirection::Inbound => &input.parameters.source_channel,
    };
    if !same_text(input.finding_channel.as_str(), expected.as_str()) {
        return match direction {
            FindingDirection::Outbound => Err(
                invalid("outbound-drained finding channel must be the destination"),
            ),
            FindingDirection::Inbound => Err(
                invalid("inbound-drained finding channel must be the source"),
            ),
        };
    }
    let snapshot = input.finding_snapshot();
    if reference.observed_at != snapshot.ts {
        return Err(invalid("finding snapshot is not the finding's observed state"));
    }
    if !same_text(
        reference.state_digest.as_str(),
        channel_snapshot_state_digest(snapshot).as_str(),
    ) {
        return Err(invalid("finding snapshot digest does not match provenance"));
    }
    Ok(())
}

fn check_stored(
    label: &str,
    snapshot: &ChannelSnapshot,
    network: Option<BitcoinNetwork>,
) -> (r: Result<(), ModelError>)
    ensures
        objection(r) == stored_refusal(label@, snapshot.deep_view(), network),
{
    if !same_network(snapshot.network, network) {
        return Err(
            ModelError::InvalidInput(
                label.to_owned().concat(" snapshot network does not match simulation network"),
            ),
        );
    }
    match &snapshot.state_digest {
        None => Err(
            ModelError::InvalidInput(label.to_owned().concat(" snapshot has no state digest")),
        ),
        Some(stored) => {
            if same_text(stored.as_str(), channel_snapshot_state_digest(snapshot).as_str()) {
                Ok(())
            } else {
                Err(
                    ModelError::InvalidInput(
                        label.to_owned().concat(" snapshot state digest is invalid"),
                    ),
                )
            }
        },
    }
}

fn is_named(value: &Option<String>, name: &str) -> (r: bool)
    ensures
        r == (value.deep_view() == Some(name@)),
{
    match value {
        Some(v) => same_text(v.as_str(), name),
        None => false,
    }
}

fn check_pairing(input: &SimulationInput) -> (r: Result<(), ModelError>)
    ensures
        objection(r) == pairing_refusal(input.deep_view()),
{
    let parameters = &input.parameters;
    let source = &input.source_snapshot;
    let destination = &input.destination_snapshot;
    if same_text(parameters.source_channel.as_str(), parameters.destination_channel.as_str()) {
        return Err(invalid("source and destination must differ"));
    }
    if parameters.amount_msat == 0 {
        return Err(invalid("amount must be > 0"));
    }
    if !same_text(source.channel_id.as_str(), parameters.source_channel.as_str()) || !same_text(
        destination.channel_id.as_str(),
        parameters.destination_channel.as_str(),
    ) {
        return Err(invalid("snapshot identity does not match request parameters"));
    }
    if !is_named(&source.node_id, input.node_id.as_str()) || !is_named(
        &destination.node_id,
        input.node_id.as_str(),
    ) {
        return Err(invalid("snapshot node identity does not match finding provenance"));
    }
    let stored = check_stored("source", source, input.network);
    if stored.is_err() {
        return stored;
    }
    let stored = check_stored("destination", destination, input.network);
    if stored.is_err() {
        return stored;
    }
    if source.ts != destination.ts {
        return Err(
            invalid("source and destination snapshots must come from the same observation"),
        );
    }
    Ok(())
}

/// Checks that the state that a snapshot records is usable and coherent.
pub fn validate_snapshot(label: &str, snapshot: &ChannelSnapshot) -> (r: Result<(), ModelError>)
    ensures
        objection(r) == snapshot_refusal(label@, snapshot.deep_view()),
{
    let name = label.to_owned().concat(" channel ").concat(snapshot.channel_id.as_str());
    if snapshot.status != ChannelStatus::Active {
        return Err(ModelError::InvalidInput(name.concat(" is not active")));
    }
    if snapshot.capacity_msat == 0 {
        return Err(ModelError::InvalidInput(name.concat(" has zero capacity")));
    }
    let incoherent = match snapshot.local_balance_msat.checked_add(snapshot.remote_balance_msat) {
        Some(total) => total > snapshot.capacity_msat,
        None => true,
    };
    if incoherent {
        return Err(ModelError::InvalidInput(name.concat(" has incoherent balances")));
    }
    if !snapshot.local_ratio.in_unit_range() {
        return Err(ModelError::InvalidInput(name.concat(" has an invalid local ratio")));
    }
    let expected = Ratio::of(snapshot.local_balance_msat, snapshot.capacity_msat);
    proof {
        ratio::lemma_part_of_whole_in_unit_range(
            snapshot.local_balance_msat,
            snapshot.capacity_msat,
        );
    }
    if snapshot.local_ratio.differs_from(&expected) {
        return Err(ModelError::InvalidInput(name.concat(" has an inconsistent local ratio")));
    }
    Ok(())
}

fn exceeds(amount: u64, what: &str, limit: u64) -> (r: ModelError)
    ensures
        r.deep_view() == ModelErrorView::InvalidInput(
            "amount "@ + text::decimal(amount as nat) + what@ + text::decimal(limit as nat)
                + " msat"@,
        ),
{
    ModelError::InvalidInput(
        "amount ".to_owned().concat(text::u64_text(amount).as_str()).concat(what).concat(
            text::u64_text(limit).as_str(),
        ).concat(" msat"),
    )
}

fn check_amount(input: &SimulationInput, direction: FindingDirection) -> (r: Result<(), ModelError>)
    requires
        input.finding_direction == Some(direction),
    ensures
        objection(r) == amount_refusal(input.deep_view()),
{
    let found = input.finding_snapshot();
    let imbalance = classify_imbalance(found.capacity_msat, found.local_balance_msat);
    let low = found.local_ratio.is_below_half();
    let matching = match direction {
        FindingDirection::Outbound => imbalance == LiquidityImbalance::OutboundDrained || (imbalance
            == LiquidityImbalance::SeverelyDrained && low),
        FindingDirection::Inbound => imbalance == LiquidityImbalance::InboundDrained || (imbalance
            == LiquidityImbalance::SeverelyDrained && !low),
    };
    if !matching {
        return Err(invalid("finding direction does not match the recorded channel state"));
    }
    let amount: u64 = input.parameters.amount_msat;
    let source = &input.source_snapshot;
    let destination = &input.destination_snapshot;
    if amount > source.spendable_outbound_msat {
        return Err(
            exceeds(
                amount,
                " msat exceeds source spendable outbound liquidity ",
                source.spendable_outbound_msat,
            ),
        );
    }
    if amount > destination.spendable_inbound_msat {
        return Err(
            exceeds(
                amount,
                " msat exceeds destination spendable inbound liquidity ",
                destination.spendable_inbound_msat,
            ),
        );
    }
    if amount > source.local_balance_msat || amount > destination.remote_balance_msat {
        return Err(invalid("amount exceeds recorded channel-side balance"));
    }
    match destination.local_balance_msat.checked_add(amount) {
        Some(balance) if balance <= destination.capacity_msat => Ok(()),
        _ => Err(invalid("amount would overflow destination capacity")),
    }
}

/// A simulation model.
pub trait SimulationModel {
    fn model_id(&self) -> &str;

    fn model_version(&self) -> &str;

    /// Whether the model can simulate a recommendation.
    fn supports(&self, recommendation: &Recommendation) -> bool;

    /// Checks an input without simulating it.
    fn validate(&self, input: &SimulationInput) -> Result<(), ModelError>;

    /// Simulates an input whose canonical encoding is `canonical`.
    fn simulate(&self, input: &SimulationInput, canonical: &[u8]) -> Result<
        SimulationResult,
        ModelError,
    >;
}

/// Moves an amount of local liquidity from one channel to another.
pub struct LiquidityRedistributionModel;

impl LiquidityRedistributionModel {
    /// The model.
    pub fn new() -> (r: Self)
        ensures
            r == LiquidityRedistributionModel,
    {
        LiquidityRedistributionModel
    }
}

impl Default for LiquidityRedistributionModel {
    fn default() -> (r: Self)
        ensures
            r == LiquidityRedistributionModel,
    {
        LiquidityRedistributionModel
    }
}

/// A channel state with these balances.
pub open spec fn state_of(local: int, remote: int, capacity: u64) -> ProjectedState {
    ProjectedState {
        local_ratio: Ratio { bits: ratio::ratio_bits(local as nat, capacity as nat) as u64 },
        local_balance_msat: local as u64,
        remote_balance_msat: remote as u64,
        capacity_msat: capacity,
    }
}

fn state(local: u64, remote: u64, capacity: u64) -> (r: ProjectedState)
    ensures
        r == state_of(local as int, remote as int, capacity),
{
    ProjectedState {
        local_ratio: Ratio::of(local, capacity),
        local_balance_msat: local,
        remote_balance_msat: remote,
        capacity_msat: capacity,
    }
}

/// What happens to a channel whose local balance changes by `change`.
pub open spec fn delta_of(
    input: SimulationInputView,
    s: ChannelSnapshotView,
    change: int,
) -> ProjectedDeltaView {
    ProjectedDeltaView {
        channel_id: s.channel_id,
        local_before_msat: s.local_balance_msat,
        local_after_msat: (s.local_balance_msat + change) as u64,
        remote_before_msat: s.remote_balance_msat,
        remote_after_msat: (s.remote_balance_msat - change) as u64,
        delta_msat: input.parameters.amount_msat,
        clears_finding: input.finding_channel == s.channel_id && crate::domain::imbalance_of(
            s.capacity_msat,
            (s.local_balance_msat + change) as u64,
        ) == LiquidityImbalance::Balanced,
    }
}

/// What every projection of this model takes for granted.
pub open spec fn standing_assumptions() -> Seq<AssumptionView> {
    seq![
        AssumptionView {
            code: "fees_not_estimated"@,
            description: "Routing fees are not estimated; actual cost may vary"@,
            severity: SimulationNoticeSeverity::Info,
        },
        AssumptionView {
            code: "external_network_state_unmodelled"@,
            description: "Only recorded local channel state is modelled"@,
            severity: SimulationNoticeSeverity::Info,
        },
    ]
}

/// A warning.
pub open spec fn warning(code: Seq<char>, description: Seq<char>) -> SimulationWarningView {
    SimulationWarningView { code, description, severity: SimulationNoticeSeverity::Warning }
}

/// Whether the amount is more than half of the source channel's capacity.
pub open spec fn moves_more_than_half(input: SimulationInputView) -> bool {
    input.parameters.amount_msat * 2 > input.source_snapshot.capacity_msat
}

/// Whether less than a hundredth of the source channel's capacity is left on
/// the local side, which is what a channel reserve commonly holds back.
pub open spec fn leaves_less_than_reserve(input: SimulationInputView) -> bool {
    (input.source_snapshot.local_balance_msat - input.parameters.amount_msat) * 100
        < input.source_snapshot.capacity_msat
}

/// What deserves care about a projection.
pub open spec fn warnings_of(input: SimulationInputView) -> Seq<SimulationWarningView> {
    (if moves_more_than_half(input) {
        seq![
            warning(
                "amount_exceeds_half_capacity"@,
                "The amount exceeds half of the source channel's capacity"@,
            ),
        ]
    } else {
        seq![]
    }) + (if leaves_less_than_reserve(input) {
        seq![
            warning(
                "source_balance_near_reserve"@,
                "The source channel's local balance would fall below a one percent reserve"@,
            ),
        ]
    } else {
        seq![]
    })
}

/// The projection of an input that is not refused.
pub open spec fn projection(
    input: SimulationInputView,
    canonical: Seq<u8>,
) -> SimulationResultView {
    let amount = input.parameters.amount_msat as int;
    let source = input.source_snapshot;
    let destination = input.destination_snapshot;
    let on_source = input.finding_channel == source.channel_id;
    SimulationResultView {
        model_id: model_id_text(),
        model_version: model_version_text(),
        input_hash: input_hash_text(canonical),
        baseline: if on_source {
            state_of(
                source.local_balance_msat as int,
                source.remote_balance_msat as int,
                source.capacity_msat,
            )
        } else {
            state_of(
                destination.local_balance_msat as int,
                destination.remote_balance_msat as int,
                destination.capacity_msat,
            )
        },
        projected: if on_source {
            state_of(
                source.local_balance_msat - amount,
                source.remote_balance_msat + amount,
                source.capacity_msat,
            )
        } else {
            state_of(
                destination.local_balance_msat + amount,
                destination.remote_balance_msat - amount,
                destination.capacity_msat,
            )
        },
        deltas: seq![delta_of(input, source, -amount), delta_of(input, destination, amount)],
        assumptions: standing_assumptions(),
        warnings: warnings_of(input),
        confidence: SimulationConfidence::Medium,
    }
}

fn push_warnings(input: &SimulationInput) -> (r: Vec<SimulationWarning>)
    requires
        input.parameters.amount_msat <= input.source_snapshot.local_balance_msat,
    ensures
        r.deep_view() == warnings_of(input.deep_view()),
{
    let mut warnings: Vec<SimulationWarning> = Vec::new();
    let amount: u128 = input.parameters.amount_msat as u128;
    let capacity: u128 = input.source_snapshot.capacity_msat as u128;
    if amount * 2 > capacity {
        warnings.push(
            SimulationWarning::new(
                "amount_exceeds_half_capacity",
                "The amount exceeds half of the source channel's capacity",
            ),
        );
    }
    let left: u128 = input.source_snapshot.local_balance_msat as u128 - amount;
    if left * 100 < capacity {
        warnings.push(
            SimulationWarning::new(
                "source_balance_near_reserve",
                "The source channel's local balance would fall below a one percent reserve",
            ),
        );
    }
    assert(warnings.deep_view() =~= warnings_of(input.deep_view()));
    warnings
}

fn build_assumptions() -> (r: Vec<Assumption>)
    ensures
        r.deep_view() == standing_assumptions(),
{
    let mut assumptions: Vec<Assumption> = Vec::new();
    assumptions.push(
        Assumption::new(
            "fees_not_estimated",
            "Routing fees are not estimated; actual cost may vary",
        ),
    );
    assumptions.push(
        Assumption::new(
            "external_network_state_unmodelled",
            "Only recorded local channel state is modelled",
        ),
    );
    assert(assumptions.deep_view() =~= standing_assumptions());
    assumptions
}

impl SimulationModel for LiquidityRedistributionModel {
    fn model_id(&self) -> (r: &str)
        ensures
            r@ == model_id_text(),
    {
        "liquidity-redistribution"
    }

    fn model_version(&self) -> (r: &str)
        ensures
            r@ == model_version_text(),
    {
        "3"
    }

    fn supports(&self, recommendation: &Recommendation) -> (r: bool)
        ensures
            r == (recommendation.action.action_type == ActionType::RebalanceChannel),
    {
        recommendation.action.action_type == ActionType::RebalanceChannel
    }

    fn validate(&self, input: &SimulationInput) -> (r: Result<(), ModelError>)
        ensures
            objection(r) == refusal(input.deep_view()),
    {
        let r = check_request(input);
        if r.is_err() {
            return r;
        }
        let r = check_provenance(input);
        if r.is_err() {
            return r;
        }
        let r = check_pairing(input);
        if r.is_err() {
            return r;
        }
        let r = validate_snapshot("source", &input.source_snapshot);
        if r.is_err() {
            return r;
        }
        let r = validate_snapshot("destination", &input.destination_snapshot);
        if r.is_err() {
            return r;
        }
        match input.finding_direction {
            Some(direction) => check_amount(input, direction),
            None => Ok(()),
        }
    }

    fn simulate(&self, input: &SimulationInput, canonical: &[u8]) -> (r: Result<
        SimulationResult,
        ModelError,
    >)
        ensures
            match r {
                Ok(result) => refusal(input.deep_view()) is None && result.deep_view()
                    == projection(input.deep_view(), canonical@),
                Err(e) => refusal(input.deep_view()) == Some(e.deep_view()),
            },
    {
        match self.validate(input) {
            Err(e) => {
                return Err(e);
            },
            Ok(_) => {},
        }
        let amount: u64 = input.parameters.amount_msat;
        let source = &input.source_snapshot;
        let destination = &input.destination_snapshot;
        let source_local: u64 = source.local_balance_msat - amount;
        let source_remote: u64 = source.remote_balance_msat + amount;
        let destination_local: u64 = destination.local_balance_msat + amount;
        let destination_remote: u64 = destination.remote_balance_msat - amount;
        let on_source = same_text(input.finding_channel.as_str(), source.channel_id.as_str());
        let on_destination = same_text(
            input.finding_channel.as_str(),
            destination.channel_id.as_str(),
        );
        let (baseline, projected) = if on_source {
            (
                state(source.local_balance_msat, source.remote_balance_msat, source.capacity_msat),
                state(source_local, source_remote, source.capacity_msat),
            )
        } else {
            (
                state(
                    destination.local_balance_msat,
                    destination.remote_balance_msat,
                    destination.capacity_msat,
                ),
                state(destination_local, destination_remote, destination.capacity_msat),
            )
        };
        let source_balanced = classify_imbalance(source.capacity_msat, source_local)
            == LiquidityImbalance::Balanced;
        let destination_balanced = classify_imbalance(destination.capacity_msat, destination_local)
            == LiquidityImbalance::Balanced;
        let mut deltas: Vec<ProjectedDelta> = Vec::new();
        deltas.push(
            ProjectedDelta {
                channel_id: source.channel_id.clone(),
                local_before_msat: source.local_balance_msat,
                local_after_msat: source_local,
                remote_before_msat: source.remote_balance_msat,
                remote_after_msat: source_remote,
                delta_msat: amount,
                clears_finding: on_source && source_balanced,
            },
        );
        deltas.push(
            ProjectedDelta {
                channel_id: destination.channel_id.clone(),
                local_before_msat: destination.local_balance_msat,
                local_after_msat: destination_local,
                remote_before_msat: destination.remote_balance_msat,
                remote_after_msat: destination_remote,
                delta_msat: amount,
                clears_finding: on_destination && destination_balanced,
            },
        );
        let ghost view = input.deep_view();
        assert(deltas.deep_view() =~= seq![
            delta_of(view, view.source_snapshot, -(amount as int)),
            delta_of(view, view.destination_snapshot, amount as int),
        ]);
        let warnings = push_warnings(input);
        Ok(
            SimulationResult {
                model_id: "liquidity-redistribution".to_owned(),
                model_version: "3".to_owned(),
                input_hash: compute_input_hash(canonical),
                baseline,
                projected,
                deltas,
                assumptions: build_assumptions(),
                warnings,
                confidence: SimulationConfidence::Medium,
            },
        )
    }
}

/// Moving liquidity creates and destroys none: what leaves the source's local
/// side arrives on the destination's, each channel holds as much as before and
/// no more than its capacity, and only the finding's channel can clear it.
pub proof fn lemma_projection_conserves_liquidity(input: SimulationInputView, canonical: Seq<u8>)
    requires
        refusal(input) is None,
    ensures
        ({
            let r = projection(input, canonical);
            let out = r.deltas[0];
            let into = r.deltas[1];
            &&& out.local_before_msat - out.local_after_msat == input.parameters.amount_msat
            &&& into.local_after_msat - into.local_before_msat == input.parameters.amount_msat
            &&& out.local_after_msat + out.remote_after_msat == out.local_before_msat
                + out.remote_before_msat
            &&& into.local_after_msat + into.remote_after_msat == into.local_before_msat
                + into.remote_before_msat
            &&& out.local_after_msat + out.remote_after_msat
                <= input.source_snapshot.capacity_msat
            &&& into.local_after_msat + into.remote_after_msat
                <= input.destination_snapshot.capacity_msat
            &&& out.clears_finding ==> out.channel_id == input.finding_channel
            &&& into.clears_finding ==> into.channel_id == input.finding_channel
            &&& !(out.clears_finding && into.clears_finding)
        }),
{
}

/// The baseline of a projection is the recorded state of the finding's channel.
pub proof fn lemma_baseline_is_the_finding_state(input: SimulationInputView, canonical: Seq<u8>)
    requires
        refusal(input) is None,
    ensures
        projection(input, canonical).baseline == state_of(
            finding_snapshot(input).local_balance_msat as int,
            finding_snapshot(input).remote_balance_msat as int,
            finding_snapshot(input).capacity_msat,
        ),
{
}

/// An input is stale or dated in the future, but never both, for a freshness
/// that is not negative, or not under a second where `now` is a leap second at the
/// end of a day.
pub proof fn lemma_stale_excludes_future(
    input: SimulationInputView,
    now: Timestamp,
    freshness: Span,
)
    requires
        now.proper(),
        finding_snapshot(input).ts.proper(),
        freshness.length() >= 0,
        now.leap() && now.second_of_day() == 86_399 ==> freshness.length() >= 1_000_000_000,
    ensures
        !(stale_at(input, now, freshness) && future_at(input, now)),
{
    if future_at(input, now) {
        crate::time::lemma_later_is_no_past(now, finding_snapshot(input).ts);
    }
}

/// A move takes the amount from the source's local side and puts it on the
/// destination's, and each of the two channels is said to be cleared exactly if it is
/// the finding's and then holds from a tenth to nine tenths of its capacity locally.
pub proof fn lemma_clearing_means_balanced(input: SimulationInputView, canonical: Seq<u8>)
    requires
        refusal(input) is None,
    ensures
        ({
            let r = projection(input, canonical);
            let from = input.source_snapshot;
            let to = input.destination_snapshot;
            let amount = input.parameters.amount_msat;
            &&& r.deltas.len() == 2
            &&& r.deltas[0].channel_id == from.channel_id
            &&& r.deltas[0].local_before_msat == from.local_balance_msat
            &&& r.deltas[0].local_after_msat == from.local_balance_msat - amount
            &&& r.deltas[0].remote_before_msat == from.remote_balance_msat
            &&& r.deltas[0].remote_after_msat == from.remote_balance_msat + amount
            &&& r.deltas[0].delta_msat == amount
            &&& r.deltas[1].channel_id == to.channel_id
            &&& r.deltas[1].local_before_msat == to.local_balance_msat
            &&& r.deltas[1].local_after_msat == to.local_balance_msat + amount
            &&& r.deltas[1].remote_before_msat == to.remote_balance_msat
            &&& r.deltas[1].remote_after_msat == to.remote_balance_msat - amount
            &&& r.deltas[1].delta_msat == amount
            &&& r.deltas[0].clears_finding <==> from.channel_id == input.finding_channel && 10
                * r.deltas[0].local_after_msat >= from.capacity_msat && 10
                * r.deltas[0].local_after_msat <= 9 * from.capacity_msat
            &&& r.deltas[1].clears_finding <==> to.channel_id == input.finding_channel && 10
                * r.deltas[1].local_after_msat >= to.capacity_msat && 10
                * r.deltas[1].local_after_msat <= 9 * to.capacity_msat
        }),
{
}

/// The baseline and the projected state are the finding's channel before the move and
/// after it, with its capacity unchanged.
pub proof fn lemma_projection_shows_the_finding_channel(
    input: SimulationInputView,
    canonical: Seq<u8>,
)
    requires
        refusal(input) is None,
    ensures
        ({
            let r = projection(input, canonical);
            let s = if input.finding_channel == input.source_snapshot.channel_id {
                input.source_snapshot
            } else {
                input.destination_snapshot
            };
            let d = if input.finding_channel == input.source_snapshot.channel_id {
                r.deltas[0]
            } else {
                r.deltas[1]
            };
            &&& s.channel_id == input.finding_channel
            &&& r.baseline.capacity_msat == s.capacity_msat
            &&& r.baseline.local_balance_msat == s.local_balance_msat
            &&& r.baseline.remote_balance_msat == s.remote_balance_msat
            &&& r.projected.capacity_msat == s.capacity_msat
            &&& r.projected.local_balance_msat == d.local_after_msat
            &&& r.projected.remote_balance_msat == d.remote_after_msat
            &&& r.baseline.local_ratio == Ratio {
                bits: ratio::ratio_bits(s.local_balance_msat as nat, s.capacity_msat as nat) as u64,
            }
            &&& r.projected.local_ratio == Ratio {
                bits: ratio::ratio_bits(d.local_after_msat as nat, s.capacity_msat as nat) as u64,
            }
            &&& r.model_id == "liquidity-redistribution"@
            &&& r.model_version == "3"@
            &&& r.confidence == SimulationConfidence::Medium
            &&& r.assumptions.len() == 2
            &&& r.assumptions[0].code == "fees_not_estimated"@
            &&& r.assumptions[1].code == "external_network_state_unmodelled"@
        }),
{
}

/// A move is warned of exactly if it takes more than half of the source's capacity, or
/// leaves less than a hundredth of it on the local side, with one warning for each.
pub proof fn lemma_warnings_tell_of_large_moves(input: SimulationInputView, canonical: Seq<u8>)
    requires
        refusal(input) is None,
    ensures
        ({
            let w = projection(input, canonical).warnings;
            let capacity = input.source_snapshot.capacity_msat;
            let large = 2 * input.parameters.amount_msat > capacity;
            let low = 100 * (input.source_snapshot.local_balance_msat
                - input.parameters.amount_msat) < capacity;
            &&& w.len() == (if large {
                1int
            } else {
                0
            }) + (if low {
                1int
            } else {
                0
            })
            &&& large ==> w[0].code == "amount_exceeds_half_capacity"@
            &&& low ==> w.last().code == "source_balance_near_reserve"@
            &&& forall|i: int|
                0 <= i < w.len() ==> (#[trigger] w[i]).severity == SimulationNoticeSeverity::Warning
        }),
{
}

/// Whether a channel state can take part in a move: it is active, has capacity, holds no
/// more than that, and its recorded share is the one that its balances give.
pub open spec fn coherent(s: ChannelSnapshotView) -> bool {
    &&& s.status == ChannelStatus::Active
    &&& s.capacity_msat > 0
    &&& s.local_balance_msat + s.remote_balance_msat <= s.capacity_msat
    &&& ratio::unit_range(s.local_ratio.bits as nat)
    &&& !ratio::ratios_differ(
        s.local_ratio.bits as nat,
        ratio::ratio_bits(s.local_balance_msat as nat, s.capacity_msat as nat) as nat,
    )
}

/// Whether a snapshot is the stored one of this node and network.
pub open spec fn stored_on(s: ChannelSnapshotView, input: SimulationInputView) -> bool {
    &&& s.network == input.network
    &&& s.node_id == Some(input.node_id)
    &&& s.state_digest == Some(identity::snapshot_digest(s))
}

/// An accepted amount is not zero, and is covered on both ways of the move: by what the
/// source can spend and holds, by what the destination can take and lacks, and by the
/// destination's capacity.
pub proof fn lemma_accepted_amounts_are_covered(input: SimulationInputView)
    requires
        refusal(input) is None,
    ensures
        ({
            let amount = input.parameters.amount_msat;
            let from = input.source_snapshot;
            let to = input.destination_snapshot;
            &&& 0 < amount
            &&& amount <= from.spendable_outbound_msat
            &&& amount <= from.local_balance_msat
            &&& amount <= to.spendable_inbound_msat
            &&& amount <= to.remote_balance_msat
            &&& to.local_balance_msat + amount <= to.capacity_msat
        }),
{
}

/// An accepted move joins two different channels of one node and network, seen at one
/// moment and stored as they are, both of them coherent.
pub proof fn lemma_accepted_channels_belong_together(input: SimulationInputView)
    requires
        refusal(input) is None,
    ensures
        input.action_type == ActionType::RebalanceChannel,
        input.model_id == "liquidity-redistribution"@,
        input.model_version == "3"@,
        input.network is Some,
        input.provenance.network == input.network,
        input.source_snapshot.channel_id == input.parameters.source_channel,
        input.destination_snapshot.channel_id == input.parameters.destination_channel,
        input.source_snapshot.channel_id != input.destination_snapshot.channel_id,
        input.source_snapshot.ts == input.destination_snapshot.ts,
        stored_on(input.source_snapshot, input),
        stored_on(input.destination_snapshot, input),
        coherent(input.source_snapshot),
        coherent(input.destination_snapshot),
{
}

/// An accepted move helps the finding: a channel with less than a tenth of its capacity
/// on the local side receives, one with more than nine tenths gives, and the recorded
/// state of the channel is the one that the finding saw.
pub proof fn lemma_accepted_moves_help_the_finding(input: SimulationInputView)
    requires
        refusal(input) is None,
    ensures
        input.finding_direction is Some,
        input.recommendation_target == input.finding_channel,
        input.finding_direction == Some(FindingDirection::Outbound) ==> ({
            let to = input.destination_snapshot;
            &&& input.finding_channel == to.channel_id
            &&& 10 * to.local_balance_msat < to.capacity_msat || (20 * to.local_balance_msat > 19
                * to.capacity_msat && to.local_ratio.below_half())
        }),
        input.finding_direction == Some(FindingDirection::Inbound) ==> ({
            let from = input.source_snapshot;
            &&& input.finding_channel == from.channel_id
            &&& 10 * from.local_balance_msat > 9 * from.capacity_msat || (20
                * from.local_balance_msat < from.capacity_msat && !from.local_ratio.below_half())
        }),
        input.provenance.observation matches ObservationReferenceView::ChannelState {
            channel_id,
            snapshot,
        } ==> channel_id == input.finding_channel && snapshot.network == input.network
            && snapshot.observed_at == input.source_snapshot.ts && snapshot.state_digest == (
        if input.finding_direction == Some(FindingDirection::Outbound) {
            input.destination_snapshot.state_digest->0
        } else {
            input.source_snapshot.state_digest->0
        }),
{
    assert(finding_snapshot(input).ts == input.source_snapshot.ts);
}

/// Whether a channel with `local` of its capacity and this recorded share is drained in a
/// direction: outbound where less than a tenth is local, inbound where more than nine
/// tenths are; below a twentieth on either side the recorded share decides.
pub open spec fn drained(direction: FindingDirection, s: ChannelSnapshotView) -> bool {
    let severe = 20 * s.local_balance_msat < s.capacity_msat || 20 * s.local_balance_msat > 19
        * s.capacity_msat;
    let low = s.local_ratio.bits < 0x3FE0_0000_0000_0000 || 0x8000_0000_0000_0000
        <= s.local_ratio.bits <= 0xFFF0_0000_0000_0000;
    match direction {
        FindingDirection::Outbound => if severe {
            low
        } else {
            10 * s.local_balance_msat < s.capacity_msat
        },
        FindingDirection::Inbound => if severe {
            !low
        } else {
            10 * s.local_balance_msat > 9 * s.capacity_msat
        },
    }
}

/// A move is owed a projection: where two stored, coherent channels of the node can carry
/// the amount, one of them is the finding's, drained as the finding says, and it is the
/// one that the move helps, the input is accepted.
pub proof fn lemma_sound_moves_are_accepted(
    input: SimulationInputView,
    reference: ChannelSnapshotReferenceView,
    direction: FindingDirection,
)
    requires
        input.action_type == ActionType::RebalanceChannel,
        !text::blank(input.node_id),
        input.network is Some,
        input.provenance.network == input.network,
        input.provenance.source is Lnd ==> input.provenance.source->Lnd_configured_node
            == input.node_id,
        input.model_id == "liquidity-redistribution"@,
        input.model_version == "3"@,
        input.provenance.observation == (ObservationReferenceView::ChannelState {
            channel_id: input.finding_channel,
            snapshot: reference,
        }),
        input.recommendation_target == input.finding_channel,
        input.finding_direction == Some(direction),
        input.source_snapshot.channel_id == input.parameters.source_channel,
        input.destination_snapshot.channel_id == input.parameters.destination_channel,
        input.source_snapshot.channel_id != input.destination_snapshot.channel_id,
        input.source_snapshot.ts == input.destination_snapshot.ts,
        stored_on(input.source_snapshot, input),
        stored_on(input.destination_snapshot, input),
        coherent(input.source_snapshot),
        coherent(input.destination_snapshot),
        ({
            let s = match direction {
                FindingDirection::Outbound => input.destination_snapshot,
                FindingDirection::Inbound => input.source_snapshot,
            };
            &&& input.finding_channel == s.channel_id
            &&& drained(direction, s)
            &&& reference.network == input.network
            &&& reference.observed_at == s.ts
            &&& Some(reference.state_digest) == s.state_digest
        }),
        0 < input.parameters.amount_msat <= input.source_snapshot.spendable_outbound_msat,
        input.parameters.amount_msat <= input.source_snapshot.local_balance_msat,
        input.parameters.amount_msat <= input.destination_snapshot.spendable_inbound_msat,
        input.parameters.amount_msat <= input.destination_snapshot.remote_balance_msat,
    ensures
        refusal(input) is None,
{
}

/// What an accepted finding says of its channel is what the recorded state shows.
pub proof fn lemma_accepted_findings_are_drained(input: SimulationInputView)
    requires
        refusal(input) is None,
    ensures
        input.finding_direction matches Some(direction) && drained(
            direction,
            match direction {
                FindingDirection::Outbound => input.destination_snapshot,
                FindingDirection::Inbound => input.source_snapshot,
            },
        ),
{
}

/// Only a request that is no rebalance is refused as unsupported.
pub proof fn lemma_unsupported_means_no_rebalance(input: SimulationInputView)
    ensures
        (refusal(input) matches Some(ModelErrorView::Unsupported { model_id }))
            <==> input.action_type != ActionType::RebalanceChannel,
{
}

/// The latest of several references is one of them, none is later, and those that stand
/// behind it are all earlier.
pub proof fn lemma_latest_reference_is_latest(s: Seq<ChannelSnapshotReferenceView>) -> (k: int)
    requires
        s.len() > 0,
    ensures
        0 <= k < s.len(),
        latest_reference(s) == Some(s[k]),
        forall|i: int|
            0 <= i < s.len() ==> (#[trigger] s[i]).observed_at.secs < s[k].observed_at.secs || (
            s[i].observed_at.secs == s[k].observed_at.secs && s[i].observed_at.nanos
                <= s[k].observed_at.nanos),
        forall|i: int|
            k < i < s.len() ==> (#[trigger] s[i]).observed_at != s[k].observed_at,
    decreases s.len(),
{
    let front = s.drop_last();
    let n = s.len() - 1;
    if front.len() == 0 {
        assert(latest_reference(front) is None);
        n
    } else {
        let k = lemma_latest_reference_is_latest(front);
        assert(front[k] == s[k]);
        assert forall|i: int| 0 <= i < n implies (#[trigger] s[i]).observed_at.secs
            < front[k].observed_at.secs || (s[i].observed_at.secs == front[k].observed_at.secs
            && s[i].observed_at.nanos <= front[k].observed_at.nanos) by {
            assert(front[i] == s[i]);
        }
        assert forall|i: int| k < i < n implies (#[trigger] s[i]).observed_at
            != front[k].observed_at by {
            assert(front[i] == s[i]);
        }
        if s[k].observed_at.order() > s[n].observed_at.order() {
            k
        } else {
            n
        }
    }
}

/// Where no leap second is near, a state is stale exactly if more time than the freshness
/// lies between it and now, and of the future exactly if it comes after now.
pub proof fn lemma_staleness_counts_nanoseconds(
    input: SimulationInputView,
    now: Timestamp,
    freshness: Span,
)
    requires
        now.nanos < 1_000_000_000,
        input.source_snapshot.ts.nanos < 1_000_000_000,
        input.source_snapshot.ts == input.destination_snapshot.ts,
    ensures
        stale_at(input, now, freshness) <==> (now.secs - input.source_snapshot.ts.secs)
            * 1_000_000_000 + now.nanos - input.source_snapshot.ts.nanos > freshness.secs
            * 1_000_000_000 + freshness.nanos,
        future_at(input, now) <==> (now.secs - input.source_snapshot.ts.secs) * 1_000_000_000
            + now.nanos - input.source_snapshot.ts.nanos < 0,
{
}

} // verus!
