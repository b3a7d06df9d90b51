//! Simulations that are asked for, stored, found again and compared.
use crate::action;
use crate::action::{fresh_id, Recommendation, RecommendationView};
use crate::codec;
use crate::codec::{read_time, time_text, TimeReading};
use crate::domain::{ChannelSnapshot, ChannelSnapshotView};
use crate::finding::{
    Evidence, EvidenceView, Finding, FindingLifecycle, FindingProvenance, FindingProvenanceView,
    FindingView,
};
use crate::json;
use crate::json::{Json, JsonView};
use crate::memory_storage;
use crate::memory_storage::{MemoryStorage, StorageModel};
use crate::model;
use crate::model::{
    compute_input_hash, FindingDirection, LiquidityRedistributionModel,
    LiquidityRedistributionParameters, LiquidityRedistributionParametersView, ModelError,
    SimulationConfidence, SimulationInput, SimulationInputView, SimulationModel, SimulationResult,
    SimulationResultView, SimulationStatus, DEFAULT_FRESHNESS,
};
use crate::records;
use crate::records::{
    SimulationEvent, SimulationEventView, SimulationRecord, SimulationRecordView, StorageError,
    StorageErrorView,
};
use crate::text;
use crate::text::{copy_optional_text, debug_text, is_blank, same_text};
use crate::time;
use crate::time::{current_time, Span, Timestamp};
use vstd::prelude::*;

verus! {

/// The model that simulations are made with.
pub const MODEL_ID: &'static str = "liquidity-redistribution";

/// What a simulation is asked for.
#[derive(Debug, PartialEq, Eq)]
pub struct CreateSimulationCommand {
    pub recommendation_id: String,
    pub model_id: String,
    pub source_channel: String,
    pub destination_channel: String,
    pub amount_sats: u64,
    pub allow_stale: bool,
}

/// The mathematical value of a [`CreateSimulationCommand`].
pub struct CreateSimulationCommandView {
    pub recommendation_id: Seq<char>,
    pub model_id: Seq<char>,
    pub source_channel: Seq<char>,
    pub destination_channel: Seq<char>,
    pub amount_sats: u64,
    pub allow_stale: bool,
}

impl DeepView for CreateSimulationCommand {
    type V = CreateSimulationCommandView;

    open spec fn deep_view(&self) -> CreateSimulationCommandView {
        CreateSimulationCommandView {
            recommendation_id: self.recommendation_id.deep_view(),
            model_id: self.model_id.deep_view(),
            source_channel: self.source_channel.deep_view(),
            destination_channel: self.destination_channel.deep_view(),
            amount_sats: self.amount_sats,
            allow_stale: self.allow_stale,
        }
    }
}

impl Clone for CreateSimulationCommand {
    fn clone(&self) -> (r: Self)
        ensures
            r.deep_view() == self.deep_view(),
    {
        CreateSimulationCommand {
            recommendation_id: self.recommendation_id.clone(),
            model_id: self.model_id.clone(),
            source_channel: self.source_channel.clone(),
            destination_channel: self.destination_channel.clone(),
            amount_sats: self.amount_sats,
            allow_stale: self.allow_stale,
        }
    }
}

/// A stored simulation as it is shown.
#[derive(Debug, PartialEq)]
pub struct SimulationView {
    pub id: String,
    pub recommendation_id: String,
    pub finding_id: String,
    pub action_type: String,
    pub status: SimulationStatus,
    pub model_id: String,
    pub model_version: String,
    pub input_hash: String,
    pub parameters: LiquidityRedistributionParameters,
    pub source_observed_at: Timestamp,
    pub stale: bool,
    pub confidence: SimulationConfidence,
    pub result: Option<SimulationResult>,
    pub error_code: Option<String>,
    pub requested_at: Timestamp,
    pub completed_at: Option<Timestamp>,
    pub no_action_executed: bool,
}

/// The mathematical value of a [`SimulationView`].
pub struct SimulationViewView {
    pub id: Seq<char>,
    pub recommendation_id: Seq<char>,
    pub finding_id: Seq<char>,
    pub action_type: Seq<char>,
    pub status: SimulationStatus,
    pub model_id: Seq<char>,
    pub model_version: Seq<char>,
    pub input_hash: Seq<char>,
    pub parameters: LiquidityRedistributionParametersView,
    pub source_observed_at: Timestamp,
    pub stale: bool,
    pub confidence: SimulationConfidence,
    pub result: Option<SimulationResultView>,
    pub error_code: Option<Seq<char>>,
    pub requested_at: Timestamp,
    pub completed_at: Option<Timestamp>,
    pub no_action_executed: bool,
}

impl DeepView for SimulationView {
    type V = SimulationViewView;

    open spec fn deep_view(&self) -> SimulationViewView {
        SimulationViewView {
            id: self.id.deep_view(),
            recommendation_id: self.recommendation_id.deep_view(),
            finding_id: self.finding_id.deep_view(),
            action_type: self.action_type.deep_view(),
            status: self.status,
            model_id: self.model_id.deep_view(),
            model_version: self.model_version.deep_view(),
            input_hash: self.input_hash.deep_view(),
            parameters: self.parameters.deep_view(),
            source_observed_at: self.source_observed_at,
            stale: self.stale,
            confidence: self.confidence,
            result: self.result.deep_view(),
            error_code: self.error_code.deep_view(),
            requested_at: self.requested_at,
            completed_at: self.completed_at,
            no_action_executed: self.no_action_executed,
        }
    }
}

impl Clone for SimulationView {
    fn clone(&self) -> (r: Self)
        ensures
            r.deep_view() == self.deep_view(),
    {
        SimulationView {
            id: self.id.clone(),
            recommendation_id: self.recommendation_id.clone(),
            finding_id: self.finding_id.clone(),
            action_type: self.action_type.clone(),
            status: self.status,
            model_id: self.model_id.clone(),
            model_version: self.model_version.clone(),
            input_hash: self.input_hash.clone(),
            parameters: self.parameters.clone(),
            source_observed_at: self.source_observed_at,
            stale: self.stale,
            confidence: self.confidence,
            result: self.result.clone(),
            error_code: copy_optional_text(&self.error_code),
            requested_at: self.requested_at,
            completed_at: self.completed_at,
            no_action_executed: self.no_action_executed,
        }
    }
}

/// The simulation that a request led to, and whether it was there before.
#[derive(Debug, PartialEq)]
pub struct CreateSimulationOutcome {
    pub simulation: SimulationView,
    pub reused: bool,
}

/// The mathematical value of a [`CreateSimulationOutcome`].
pub struct CreateSimulationOutcomeView {
    pub simulation: SimulationViewView,
    pub reused: bool,
}

impl DeepView for CreateSimulationOutcome {
    type V = CreateSimulationOutcomeView;

    open spec fn deep_view(&self) -> CreateSimulationOutcomeView {
        CreateSimulationOutcomeView {
            simulation: self.simulation.deep_view(),
            reused: self.reused,
        }
    }
}

impl Clone for CreateSimulationOutcome {
    fn clone(&self) -> (r: Self)
        ensures
            r.deep_view() == self.deep_view(),
    {
        CreateSimulationOutcome {
            simulation: self.simulation.clone(),
            reused: self.reused,
        }
    }
}

/// Which simulations are compared.
#[derive(Debug, PartialEq, Eq)]
pub struct CompareSimulationsCommand {
    pub left_simulation_id: String,
    pub right_simulation_id: String,
}

/// The mathematical value of a [`CompareSimulationsCommand`].
pub struct CompareSimulationsCommandView {
    pub left_simulation_id: Seq<char>,
    pub right_simulation_id: Seq<char>,
}

impl DeepView for CompareSimulationsCommand {
    type V = CompareSimulationsCommandView;

    open spec fn deep_view(&self) -> CompareSimulationsCommandView {
        CompareSimulationsCommandView {
            left_simulation_id: self.left_simulation_id.deep_view(),
            right_simulation_id: self.right_simulation_id.deep_view(),
        }
    }
}

impl Clone for CompareSimulationsCommand {
    fn clone(&self) -> (r: Self)
        ensures
            r.deep_view() == self.deep_view(),
    {
        CompareSimulationsCommand {
            left_simulation_id: self.left_simulation_id.clone(),
            right_simulation_id: self.right_simulation_id.clone(),
        }
    }
}

/// What sets two simulations of one recommendation apart.
#[derive(Debug, PartialEq)]
pub struct SimulationComparison {
    pub recommendation_id: String,
    pub left: SimulationView,
    pub right: SimulationView,
    pub projected_local_balance_delta_msat: i64,
    pub no_action_executed: bool,
}

/// The mathematical value of a [`SimulationComparison`].
pub struct SimulationComparisonView {
    pub recommendation_id: Seq<char>,
    pub left: SimulationViewView,
    pub right: SimulationViewView,
    pub projected_local_balance_delta_msat: i64,
    pub no_action_executed: bool,
}

impl DeepView for SimulationComparison {
    type V = SimulationComparisonView;

    open spec fn deep_view(&self) -> SimulationComparisonView {
        SimulationComparisonView {
            recommendation_id: self.recommendation_id.deep_view(),
            left: self.left.deep_view(),
            right: self.right.deep_view(),
            projected_local_balance_delta_msat: self.projected_local_balance_delta_msat,
            no_action_executed: self.no_action_executed,
        }
    }
}

impl Clone for SimulationComparison {
    fn clone(&self) -> (r: Self)
        ensures
            r.deep_view() == self.deep_view(),
    {
        SimulationComparison {
            recommendation_id: self.recommendation_id.clone(),
            left: self.left.clone(),
            right: self.right.clone(),
            projected_local_balance_delta_msat: self.projected_local_balance_delta_msat,
            no_action_executed: self.no_action_executed,
        }
    }
}

/// What kind of error a request led to.
#[derive(Debug, Clone, Copy, PartialEq, Eq, Structural)]
pub enum SimulationAppErrorKind {
    InvalidRequest,
    UnknownModel,
    RecommendationNotFound,
    FindingNotFound,
    SimulationNotFound,
    FindingInactive,
    MissingContext,
    SnapshotNotFound,
    StaleInput,
    FutureDatedInput,
    UnsupportedRecommendation,
    InvalidInput,
    IncompatibleSimulations,
    Storage,
    ModelFailure,
}

impl DeepView for SimulationAppErrorKind {
    type V = SimulationAppErrorKind;

    open spec fn deep_view(&self) -> SimulationAppErrorKind {
        *self
    }
}

/// Why a request led to no simulation; where it was stored all the same, it is
/// shown.
#[derive(Debug, PartialEq)]
pub struct SimulationAppError {
    pub kind: SimulationAppErrorKind,
    pub message: String,
    pub simulation: Option<Box<SimulationView>>,
}

/// The mathematical value of a [`SimulationAppError`].
pub struct SimulationAppErrorView {
    pub kind: SimulationAppErrorKind,
    pub message: Seq<char>,
    pub simulation: Option<SimulationViewView>,
}

impl DeepView for SimulationAppError {
    type V = SimulationAppErrorView;

    open spec fn deep_view(&self) -> SimulationAppErrorView {
        SimulationAppErrorView {
            kind: self.kind,
            message: self.message@,
            simulation: match self.simulation {
                Some(view) => Some((*view).deep_view()),
                None => None,
            },
        }
    }
}

/// An error of this kind, without a simulation.
pub open spec fn plain(kind: SimulationAppErrorKind, message: Seq<char>) -> SimulationAppErrorView {
    SimulationAppErrorView { kind, message, simulation: None }
}

/// An error of this kind, with a simulation.
pub open spec fn shown_with(
    kind: SimulationAppErrorKind,
    message: Seq<char>,
    simulation: SimulationViewView,
) -> SimulationAppErrorView {
    SimulationAppErrorView { kind, message, simulation: Some(simulation) }
}

/// The error that a storage error leads to.
pub open spec fn stored_badly(e: StorageErrorView) -> SimulationAppErrorView {
    plain(SimulationAppErrorKind::Storage, records::storage_error_text(e))
}

impl SimulationAppError {
    /// An error of this kind, without a simulation.
    pub fn new(kind: SimulationAppErrorKind, message: String) -> (r: SimulationAppError)
        ensures
            r.deep_view() == plain(kind, message@),
    {
        SimulationAppError { kind, message, simulation: None }
    }

    /// An error of this kind, with a simulation.
    pub fn with_simulation(
        kind: SimulationAppErrorKind,
        message: String,
        simulation: SimulationView,
    ) -> (r: SimulationAppError)
        ensures
            r.deep_view() == shown_with(kind, message@, simulation.deep_view()),
    {
        SimulationAppError { kind, message, simulation: Some(Box::new(simulation)) }
    }

    /// The error that a storage error leads to.
    pub fn storage(error: &StorageError) -> (r: SimulationAppError)
        ensures
            r.deep_view() == stored_badly(error.deep_view()),
    {
        SimulationAppError::new(SimulationAppErrorKind::Storage, error.to_text())
    }
}

/// What a function of this module came to, over mathematical values.
pub open spec fn answered<T: DeepView>(r: Result<T, SimulationAppError>) -> Result<
    T::V,
    SimulationAppErrorView,
> {
    match r {
        Ok(v) => Ok(v.deep_view()),
        Err(e) => Err(e.deep_view()),
    }
}

/// The error of a check, over mathematical values.
pub open spec fn objected(r: Result<(), SimulationAppError>) -> Option<SimulationAppErrorView> {
    match r {
        Ok(_) => None,
        Err(e) => Some(e.deep_view()),
    }
}

/// The objection to a value that says nothing.
pub open spec fn empty_value(name: Seq<char>, value: Seq<char>) -> Option<SimulationAppErrorView> {
    if text::blank(value) {
        Some(plain(SimulationAppErrorKind::InvalidRequest, name + " cannot be empty"@))
    } else {
        None
    }
}

/// The objection to a command.
pub open spec fn command_objection(c: CreateSimulationCommandView) -> Option<
    SimulationAppErrorView,
> {
    if text::blank(c.recommendation_id) {
        empty_value("recommendation_id"@, c.recommendation_id)
    } else if text::blank(c.model_id) {
        empty_value("model_id"@, c.model_id)
    } else if text::blank(c.source_channel) {
        empty_value("source_channel"@, c.source_channel)
    } else if text::blank(c.destination_channel) {
        empty_value("destination_channel"@, c.destination_channel)
    } else if c.amount_sats == 0 {
        Some(
            plain(
                SimulationAppErrorKind::InvalidRequest,
                "amount_sats must be greater than zero"@,
            ),
        )
    } else {
        None
    }
}

fn check_value(name: &str, value: &str) -> (r: Result<(), SimulationAppError>)
    ensures
        objected(r) == empty_value(name@, value@),
{
    if is_blank(value) {
        Err(
            SimulationAppError::new(
                SimulationAppErrorKind::InvalidRequest,
                name.to_owned().concat(" cannot be empty"),
            ),
        )
    } else {
        Ok(())
    }
}

/// Checks that a command says everything it has to.
pub fn validate_command(command: &CreateSimulationCommand) -> (r: Result<(), SimulationAppError>)
    ensures
        objected(r) == command_objection(command.deep_view()),
{
    let r = check_value("recommendation_id", command.recommendation_id.as_str());
    if r.is_err() {
        return r;
    }
    let r = check_value("model_id", command.model_id.as_str());
    if r.is_err() {
        return r;
    }
    let r = check_value("source_channel", command.source_channel.as_str());
    if r.is_err() {
        return r;
    }
    let r = check_value("destination_channel", command.destination_channel.as_str());
    if r.is_err() {
        return r;
    }
    if command.amount_sats == 0 {
        return Err(
            SimulationAppError::new(
                SimulationAppErrorKind::InvalidRequest,
                "amount_sats must be greater than zero".to_owned(),
            ),
        );
    }
    Ok(())
}

/// The amount that a command moves, in thousandths of a satoshi, or why it is not
/// carried out.
pub open spec fn commanded_amount(c: CreateSimulationCommandView) -> Result<
    u64,
    SimulationAppErrorView,
> {
    match command_objection(c) {
        Some(e) => Err(e),
        None => if c.model_id != MODEL_ID@ {
            Err(
                plain(
                    SimulationAppErrorKind::UnknownModel,
                    "unknown simulation model: "@ + c.model_id,
                ),
            )
        } else if c.amount_sats * 1000 > u64::MAX {
            Err(plain(SimulationAppErrorKind::InvalidRequest, "amount_sats is too large"@))
        } else {
            Ok((c.amount_sats * 1000) as u64)
        },
    }
}

/// Checks a command and gives the amount that it moves, in thousandths of a
/// satoshi.
pub fn check_command(command: &CreateSimulationCommand) -> (r: Result<u64, SimulationAppError>)
    ensures
        answered(r) == commanded_amount(command.deep_view()),
{
    match validate_command(command) {
        Err(e) => {
            return Err(e);
        },
        Ok(_) => {},
    }
    if !same_text(command.model_id.as_str(), MODEL_ID) {
        return Err(
            SimulationAppError::new(
                SimulationAppErrorKind::UnknownModel,
                "unknown simulation model: ".to_owned().concat(command.model_id.as_str()),
            ),
        );
    }
    match command.amount_sats.checked_mul(1000) {
        Some(amount) => Ok(amount),
        None => Err(
            SimulationAppError::new(
                SimulationAppErrorKind::InvalidRequest,
                "amount_sats is too large".to_owned(),
            ),
        ),
    }
}

/// A value that must be there and say something.
pub open spec fn demanded(value: Option<Seq<char>>, message: Seq<char>) -> Result<
    Seq<char>,
    SimulationAppErrorView,
> {
    match value {
        Some(s) => if text::blank(s) {
            Err(plain(SimulationAppErrorKind::MissingContext, message))
        } else {
            Ok(s)
        },
        None => Err(plain(SimulationAppErrorKind::MissingContext, message)),
    }
}

/// A value that must be there and say something.
pub fn required(value: Option<String>, message: &str) -> (r: Result<String, SimulationAppError>)
    ensures
        answered(r) == demanded(value.deep_view(), message@),
{
    match value {
        Some(s) => if is_blank(s.as_str()) {
            Err(
                SimulationAppError::new(
                    SimulationAppErrorKind::MissingContext,
                    message.to_owned(),
                ),
            )
        } else {
            Ok(s)
        },
        None => Err(
            SimulationAppError::new(SimulationAppErrorKind::MissingContext, message.to_owned()),
        ),
    }
}

/// What is said of a recommendation that the model cannot simulate.
pub open spec fn unsupported() -> SimulationAppErrorView {
    plain(
        SimulationAppErrorKind::UnsupportedRecommendation,
        "recommendation type is unsupported by this model"@,
    )
}

/// That a recommendation is unsupported is said before what else is missing.
pub open spec fn weighed(supported: bool, e: SimulationAppErrorView) -> SimulationAppErrorView {
    if supported || e.kind == SimulationAppErrorKind::Storage {
        e
    } else {
        unsupported()
    }
}

/// That a recommendation is unsupported is said before what else is missing.
pub fn context_or_unsupported(supported: bool, error: SimulationAppError) -> (r: SimulationAppError)
    ensures
        r.deep_view() == weighed(supported, error.deep_view()),
{
    if supported || error.kind == SimulationAppErrorKind::Storage {
        error
    } else {
        SimulationAppError::new(
            SimulationAppErrorKind::UnsupportedRecommendation,
            "recommendation type is unsupported by this model".to_owned(),
        )
    }
}

/// The side of its channel that a finding says is drained.
pub open spec fn direction_in(evidence: Seq<EvidenceView>) -> Option<FindingDirection>
    decreases evidence.len(),
{
    if evidence.len() == 0 {
        None
    } else if evidence[0].key == "direction"@ {
        if json::as_text(evidence[0].value) == Some("outbound"@) {
            Some(FindingDirection::Outbound)
        } else if json::as_text(evidence[0].value) == Some("inbound"@) {
            Some(FindingDirection::Inbound)
        } else {
            None
        }
    } else {
        direction_in(evidence.skip(1))
    }
}

/// The side of its channel that a finding says is drained.
pub fn finding_direction(evidence: &Vec<Evidence>) -> (r: Option<FindingDirection>)
    ensures
        r == direction_in(evidence.deep_view()),
{
    let ghost all = evidence.deep_view();
    let mut i: usize = 0;
    assert(all.skip(0) =~= all);
    while i < evidence.len()
        invariant
            i <= evidence.len(),
            all == evidence.deep_view(),
            direction_in(all.skip(i as int)) == direction_in(all),
        decreases evidence.len() - i,
    {
        assert(all.skip(i as int)[0] == evidence[i as int].deep_view());
        assert(all.skip(i as int).skip(1) =~= all.skip(i + 1));
        if same_text(evidence[i].key.as_str(), "direction") {
            return match evidence[i].value.as_str() {
                Some(s) => if same_text(s, "outbound") {
                    Some(FindingDirection::Outbound)
                } else if same_text(s, "inbound") {
                    Some(FindingDirection::Inbound)
                } else {
                    None
                },
                None => None,
            };
        }
        i += 1;
    }
    None
}

/// Whether the model simulates a recommendation.
pub open spec fn supported(r: RecommendationView) -> bool {
    r.action.action_type == action::ActionType::RebalanceChannel
}

/// What a finding contributes to a simulation.
#[derive(Debug, PartialEq)]
pub struct FindingContext {
    pub node_id: String,
    pub provenance: FindingProvenance,
    pub channel: String,
    pub direction: Option<FindingDirection>,
}

/// The mathematical value of a [`FindingContext`].
pub struct FindingContextView {
    pub node_id: Seq<char>,
    pub provenance: FindingProvenanceView,
    pub channel: Seq<char>,
    pub direction: Option<FindingDirection>,
}

impl DeepView for FindingContext {
    type V = FindingContextView;

    open spec fn deep_view(&self) -> FindingContextView {
        FindingContextView {
            node_id: self.node_id.deep_view(),
            provenance: self.provenance.deep_view(),
            channel: self.channel.deep_view(),
            direction: self.direction,
        }
    }
}

impl Clone for FindingContext {
    fn clone(&self) -> (r: Self)
        ensures
            r.deep_view() == self.deep_view(),
    {
        FindingContext {
            node_id: self.node_id.clone(),
            provenance: self.provenance.clone(),
            channel: self.channel.clone(),
            direction: self.direction,
        }
    }
}

/// What a finding contributes to the simulation of a recommendation.
pub open spec fn context_of(rec: RecommendationView, found: Option<FindingView>) -> Result<
    FindingContextView,
    SimulationAppErrorView,
> {
    match found {
        None => Err(
            plain(
                SimulationAppErrorKind::FindingNotFound,
                "no finding with id "@ + rec.finding_id,
            ),
        ),
        Some(f) => if f.lifecycle != FindingLifecycle::Active {
            Err(
                plain(
                    SimulationAppErrorKind::FindingInactive,
                    "finding "@ + f.id + " is not active"@,
                ),
            )
        } else {
            match demanded(f.node, "finding has no node identity"@) {
                Err(e) => Err(e),
                Ok(node_id) => match f.provenance {
                    None => Err(
                        plain(
                            SimulationAppErrorKind::MissingContext,
                            "finding has no observation provenance"@,
                        ),
                    ),
                    Some(provenance) => match demanded(
                        f.channel,
                        "finding has no channel identity"@,
                    ) {
                        Err(e) => Err(e),
                        Ok(channel) => Ok(
                            FindingContextView {
                                node_id,
                                provenance,
                                channel,
                                direction: direction_in(f.evidence),
                            },
                        ),
                    },
                },
            }
        },
    }
}

/// What a finding contributes to the simulation of a recommendation.
pub fn finding_context(rec: &Recommendation, found: Option<Finding>) -> (r: Result<
    FindingContext,
    SimulationAppError,
>)
    ensures
        answered(r) == context_of(rec.deep_view(), found.deep_view()),
{
    let finding = match found {
        Some(f) => f,
        None => {
            return Err(
                SimulationAppError::new(
                    SimulationAppErrorKind::FindingNotFound,
                    "no finding with id ".to_owned().concat(rec.finding_id.as_str()),
                ),
            );
        },
    };
    if finding.lifecycle != FindingLifecycle::Active {
        return Err(
            SimulationAppError::new(
                SimulationAppErrorKind::FindingInactive,
                "finding ".to_owned().concat(finding.id.as_str()).concat(" is not active"),
            ),
        );
    }
    let direction = finding_direction(&finding.evidence);
    let node_id = match required(finding.node, "finding has no node identity") {
        Ok(s) => s,
        Err(e) => {
            return Err(e);
        },
    };
    let provenance = match finding.provenance {
        Some(p) => p,
        None => {
            return Err(
                SimulationAppError::new(
                    SimulationAppErrorKind::MissingContext,
                    "finding has no observation provenance".to_owned(),
                ),
            );
        },
    };
    let channel = match required(finding.channel, "finding has no channel identity") {
        Ok(s) => s,
        Err(e) => {
            return Err(e);
        },
    };
    Ok(FindingContext { node_id, provenance, channel, direction })
}

/// The latest of the snapshots that were found, the newest first.
pub open spec fn snapshot_of(
    found: Seq<ChannelSnapshotView>,
    channel_id: Seq<char>,
    role: Seq<char>,
) -> Result<ChannelSnapshotView, SimulationAppErrorView> {
    if found.len() > 0 {
        Ok(found[0])
    } else {
        Err(
            plain(
                SimulationAppErrorKind::SnapshotNotFound,
                "no snapshot for "@ + role + " channel "@ + channel_id,
            ),
        )
    }
}

/// The latest of the snapshots that were found, the newest first.
pub fn latest_snapshot(found: &Vec<ChannelSnapshot>, channel_id: &str, role: &str) -> (r: Result<
    ChannelSnapshot,
    SimulationAppError,
>)
    ensures
        answered(r) == snapshot_of(found.deep_view(), channel_id@, role@),
{
    if found.len() > 0 {
        assert(found.deep_view()[0] == found[0].deep_view());
        Ok(found[0].clone())
    } else {
        Err(
            SimulationAppError::new(
                SimulationAppErrorKind::SnapshotNotFound,
                "no snapshot for ".to_owned().concat(role).concat(" channel ").concat(channel_id),
            ),
        )
    }
}

/// The input of a simulation.
pub open spec fn input_of(
    c: CreateSimulationCommandView,
    amount_msat: u64,
    rec: RecommendationView,
    target: Seq<char>,
    context: FindingContextView,
    source: ChannelSnapshotView,
    destination: ChannelSnapshotView,
) -> SimulationInputView {
    SimulationInputView {
        recommendation_id: rec.action.id,
        recommendation_target: target,
        finding_id: rec.finding_id,
        finding_channel: context.channel,
        finding_direction: context.direction,
        node_id: context.node_id,
        network: context.provenance.network,
        provenance: context.provenance,
        action_type: rec.action.action_type,
        model_id: model::model_id_text(),
        model_version: model::model_version_text(),
        parameters: LiquidityRedistributionParametersView {
            source_channel: c.source_channel,
            destination_channel: c.destination_channel,
            amount_msat,
        },
        source_snapshot: source,
        destination_snapshot: destination,
    }
}

/// The input of a simulation.
pub fn assemble_input(
    command: &CreateSimulationCommand,
    amount_msat: u64,
    rec: &Recommendation,
    target: String,
    context: FindingContext,
    source: ChannelSnapshot,
    destination: ChannelSnapshot,
) -> (r: SimulationInput)
    ensures
        r.deep_view() == input_of(
            command.deep_view(),
            amount_msat,
            rec.deep_view(),
            target@,
            context.deep_view(),
            source.deep_view(),
            destination.deep_view(),
        ),
{
    let model = LiquidityRedistributionModel::new();
    SimulationInput {
        recommendation_id: rec.action.id.clone(),
        recommendation_target: target,
        finding_id: rec.finding_id.clone(),
        finding_channel: context.channel,
        finding_direction: context.direction,
        node_id: context.node_id,
        network: context.provenance.network,
        provenance: context.provenance,
        action_type: rec.action.action_type,
        model_id: model.model_id().to_owned(),
        model_version: model.model_version().to_owned(),
        parameters: LiquidityRedistributionParameters {
            source_channel: command.source_channel.clone(),
            destination_channel: command.destination_channel.clone(),
            amount_msat,
        },
        source_snapshot: source,
        destination_snapshot: destination,
    }
}

/// A simulation that can be evaluated.
#[derive(Debug, PartialEq)]
pub struct PreparedSimulation {
    pub recommendation: Recommendation,
    pub input: SimulationInput,
    pub allow_stale: bool,
}

/// The mathematical value of a [`PreparedSimulation`].
pub struct PreparedSimulationView {
    pub recommendation: RecommendationView,
    pub input: SimulationInputView,
    pub allow_stale: bool,
}

impl DeepView for PreparedSimulation {
    type V = PreparedSimulationView;

    open spec fn deep_view(&self) -> PreparedSimulationView {
        PreparedSimulationView {
            recommendation: self.recommendation.deep_view(),
            input: self.input.deep_view(),
            allow_stale: self.allow_stale,
        }
    }
}

impl Clone for PreparedSimulation {
    fn clone(&self) -> (r: Self)
        ensures
            r.deep_view() == self.deep_view(),
    {
        PreparedSimulation {
            recommendation: self.recommendation.clone(),
            input: self.input.clone(),
            allow_stale: self.allow_stale,
        }
    }
}

/// The newest snapshots of a channel of a node, at most one.
pub open spec fn newest_snapshot(m: StorageModel, node: Seq<char>, channel: Seq<char>) -> Seq<
    ChannelSnapshotView,
> {
    memory_storage::newest_where(
        m.channel_snapshots,
        |s: ChannelSnapshotView| s.node_id == Some(node) && s.channel_id == channel,
        1,
    )
}

/// What the rows that were found for a recommendation come to: its finding, and the
/// snapshots of the two channels, the newest first.
pub open spec fn gathered(
    c: CreateSimulationCommandView,
    amount_msat: u64,
    rec: RecommendationView,
    found: Option<FindingView>,
    sources: Seq<ChannelSnapshotView>,
    destinations: Seq<ChannelSnapshotView>,
) -> Result<PreparedSimulationView, SimulationAppErrorView> {
    match context_of(rec, found) {
        Err(e) => Err(e),
        Ok(context) => match demanded(
            rec.action.target,
            "recommendation has no channel target"@,
        ) {
            Err(e) => Err(e),
            Ok(target) => match snapshot_of(sources, c.source_channel, "source"@) {
                Err(e) => Err(e),
                Ok(source) => match snapshot_of(
                    destinations,
                    c.destination_channel,
                    "destination"@,
                ) {
                    Err(e) => Err(e),
                    Ok(destination) => Ok(
                        PreparedSimulationView {
                            recommendation: rec,
                            input: input_of(
                                c,
                                amount_msat,
                                rec,
                                target,
                                context,
                                source,
                                destination,
                            ),
                            allow_stale: c.allow_stale,
                        },
                    ),
                },
            },
        },
    }
}

/// What the rows that were found for a command come to, or what is missing.
pub open spec fn prepared_from(
    c: CreateSimulationCommandView,
    amount_msat: u64,
    rec: Option<RecommendationView>,
    found: Option<FindingView>,
    sources: Seq<ChannelSnapshotView>,
    destinations: Seq<ChannelSnapshotView>,
) -> Result<PreparedSimulationView, SimulationAppErrorView> {
    match rec {
        None => Err(
            plain(
                SimulationAppErrorKind::RecommendationNotFound,
                "no recommendation with id "@ + c.recommendation_id,
            ),
        ),
        Some(rec) => match gathered(c, amount_msat, rec, found, sources, destinations) {
            Ok(p) => Ok(p),
            Err(e) => Err(weighed(supported(rec), e)),
        },
    }
}

/// The node that a finding is about; the empty name where it is about none.
pub open spec fn node_of(found: Option<FindingView>) -> Seq<char> {
    match found {
        Some(f) => match f.node {
            Some(node) => node,
            None => ""@,
        },
        None => ""@,
    }
}

/// What a storage gives for a command, or what is missing.
pub open spec fn prepared(
    m: StorageModel,
    c: CreateSimulationCommandView,
    amount_msat: u64,
) -> Result<PreparedSimulationView, SimulationAppErrorView> {
    let rec = memory_storage::recommendation_of(m.recommendations, c.recommendation_id);
    let found = match rec {
        Some(rec) => memory_storage::finding_of(m.findings, rec.finding_id),
        None => None,
    };
    prepared_from(
        c,
        amount_msat,
        rec,
        found,
        newest_snapshot(m, node_of(found), c.source_channel),
        newest_snapshot(m, node_of(found), c.destination_channel),
    )
}

fn gather(
    command: &CreateSimulationCommand,
    amount_msat: u64,
    rec: &Recommendation,
    found: Option<Finding>,
    sources: &Vec<ChannelSnapshot>,
    destinations: &Vec<ChannelSnapshot>,
) -> (r: Result<PreparedSimulation, SimulationAppError>)
    ensures
        answered(r) == gathered(
            command.deep_view(),
            amount_msat,
            rec.deep_view(),
            found.deep_view(),
            sources.deep_view(),
            destinations.deep_view(),
        ),
{
    let context = match finding_context(rec, found) {
        Ok(c) => c,
        Err(e) => {
            return Err(e);
        },
    };
    let target = match required(
        copy_optional_text(&rec.action.target),
        "recommendation has no channel target",
    ) {
        Ok(t) => t,
        Err(e) => {
            return Err(e);
        },
    };
    let source = match latest_snapshot(sources, command.source_channel.as_str(), "source") {
        Ok(s) => s,
        Err(e) => {
            return Err(e);
        },
    };
    let destination = match latest_snapshot(
        destinations,
        command.destination_channel.as_str(),
        "destination",
    ) {
        Ok(s) => s,
        Err(e) => {
            return Err(e);
        },
    };
    let input = assemble_input(command, amount_msat, rec, target, context, source, destination);
    Ok(PreparedSimulation { recommendation: rec.clone(), input, allow_stale: command.allow_stale })
}

/// Takes what a command needs from the rows that were found for it: its
/// recommendation, the finding of that, and the snapshots of the two channels of the
/// finding's node, the newest first.
pub fn prepare_from(
    command: &CreateSimulationCommand,
    amount_msat: u64,
    rec: Option<Recommendation>,
    found: Option<Finding>,
    sources: &Vec<ChannelSnapshot>,
    destinations: &Vec<ChannelSnapshot>,
) -> (r: Result<PreparedSimulation, SimulationAppError>)
    ensures
        answered(r) == prepared_from(
            command.deep_view(),
            amount_msat,
            rec.deep_view(),
            found.deep_view(),
            sources.deep_view(),
            destinations.deep_view(),
        ),
{
    let rec = match rec {
        Some(rec) => rec,
        None => {
            return Err(
                SimulationAppError::new(
                    SimulationAppErrorKind::RecommendationNotFound,
                    "no recommendation with id ".to_owned().concat(
                        command.recommendation_id.as_str(),
                    ),
                ),
            );
        },
    };
    let supports = LiquidityRedistributionModel::new().supports(&rec);
    match gather(command, amount_msat, &rec, found, sources, destinations) {
        Ok(p) => Ok(p),
        Err(e) => Err(context_or_unsupported(supports, e)),
    }
}

/// Takes from a storage what a command needs.
pub fn prepare(storage: &MemoryStorage, command: &CreateSimulationCommand, amount_msat: u64) -> (r:
    Result<PreparedSimulation, SimulationAppError>)
    ensures
        answered(r) == prepared(storage.model(), command.deep_view(), amount_msat),
{
    let rec = match storage.recommendation_for_action(command.recommendation_id.as_str()) {
        Ok(rec) => rec,
        Err(e) => {
            return Err(SimulationAppError::storage(&e));
        },
    };
    let found = match &rec {
        Some(rec) => match storage.finding_by_id(rec.finding_id.as_str()) {
            Ok(found) => found,
            Err(e) => {
                return Err(SimulationAppError::storage(&e));
            },
        },
        None => None,
    };
    let node = match &found {
        Some(f) => match &f.node {
            Some(node) => node.clone(),
            None => "".to_owned(),
        },
        None => "".to_owned(),
    };
    let sources = match storage.recent_channel_snapshots_for_node(
        node.as_str(),
        command.source_channel.as_str(),
        1,
    ) {
        Ok(s) => s,
        Err(e) => {
            return Err(SimulationAppError::storage(&e));
        },
    };
    let destinations = match storage.recent_channel_snapshots_for_node(
        node.as_str(),
        command.destination_channel.as_str(),
        1,
    ) {
        Ok(s) => s,
        Err(e) => {
            return Err(SimulationAppError::storage(&e));
        },
    };
    prepare_from(command, amount_msat, rec, found, &sources, &destinations)
}

/// The status that a stored name denotes.
pub open spec fn status_named(s: Seq<char>) -> Option<SimulationStatus> {
    if s == "requested"@ {
        Some(SimulationStatus::Requested)
    } else if s == "completed"@ {
        Some(SimulationStatus::Completed)
    } else if s == "unsupported"@ {
        Some(SimulationStatus::Unsupported)
    } else if s == "invalid_input"@ {
        Some(SimulationStatus::InvalidInput)
    } else if s == "stale"@ {
        Some(SimulationStatus::Stale)
    } else if s == "failed"@ {
        Some(SimulationStatus::Failed)
    } else {
        None
    }
}

/// The status that a stored name denotes, or what is said of the name.
pub open spec fn read_status(s: Seq<char>) -> Result<SimulationStatus, SimulationAppErrorView> {
    match status_named(s) {
        Some(status) => Ok(status),
        None => Err(
            plain(
                SimulationAppErrorKind::Storage,
                "invalid persisted simulation status "@ + text::debug_text_of(s),
            ),
        ),
    }
}

/// The status that a stored name denotes.
pub fn parse_status(status: &str) -> (r: Result<SimulationStatus, SimulationAppError>)
    ensures
        answered(r) == read_status(status@),
{
    if same_text(status, "requested") {
        Ok(SimulationStatus::Requested)
    } else if same_text(status, "completed") {
        Ok(SimulationStatus::Completed)
    } else if same_text(status, "unsupported") {
        Ok(SimulationStatus::Unsupported)
    } else if same_text(status, "invalid_input") {
        Ok(SimulationStatus::InvalidInput)
    } else if same_text(status, "stale") {
        Ok(SimulationStatus::Stale)
    } else if same_text(status, "failed") {
        Ok(SimulationStatus::Failed)
    } else {
        Err(
            SimulationAppError::new(
                SimulationAppErrorKind::Storage,
                "invalid persisted simulation status ".to_owned().concat(
                    debug_text(status).as_str(),
                ),
            ),
        )
    }
}

/// The kind of error that a simulation which ended so is answered with.
pub open spec fn kind_of(status: SimulationStatus) -> SimulationAppErrorKind {
    match status {
        SimulationStatus::Unsupported => SimulationAppErrorKind::UnsupportedRecommendation,
        SimulationStatus::Stale => SimulationAppErrorKind::StaleInput,
        SimulationStatus::Failed => SimulationAppErrorKind::ModelFailure,
        _ => SimulationAppErrorKind::InvalidInput,
    }
}

/// The kind of error that a simulation which ended so is answered with.
pub fn error_kind_for_status(status: SimulationStatus) -> (r: SimulationAppErrorKind)
    ensures
        r == kind_of(status),
{
    match status {
        SimulationStatus::Unsupported => SimulationAppErrorKind::UnsupportedRecommendation,
        SimulationStatus::InvalidInput => SimulationAppErrorKind::InvalidInput,
        SimulationStatus::Stale => SimulationAppErrorKind::StaleInput,
        SimulationStatus::Failed => SimulationAppErrorKind::ModelFailure,
        _ => SimulationAppErrorKind::InvalidInput,
    }
}

/// The point in time that a stored text was read as, or what is said of the text.
pub open spec fn time_read(
    label: Seq<char>,
    s: Seq<char>,
    reading: codec::TimeReadingView,
) -> Result<Timestamp, SimulationAppErrorView> {
    match reading {
        codec::TimeReadingView::At(t) => Ok(t),
        codec::TimeReadingView::Bad(message) => Err(
            plain(
                SimulationAppErrorKind::Storage,
                "invalid simulation "@ + label + " "@ + text::debug_text_of(s) + ": "@ + message,
            ),
        ),
    }
}

/// The point in time that a stored text denotes, or what is said of the text.
pub open spec fn time_in(label: Seq<char>, s: Seq<char>) -> Result<
    Timestamp,
    SimulationAppErrorView,
> {
    time_read(label, s, codec::reading_of(s))
}

/// The point in time that a stored text was read as.
pub fn time_from(label: &str, value: &str, reading: TimeReading) -> (r: Result<
    Timestamp,
    SimulationAppError,
>)
    ensures
        answered(r) == time_read(label@, value@, reading.deep_view()),
{
    match reading {
        TimeReading::At(t) => Ok(t),
        TimeReading::Bad(message) => Err(
            SimulationAppError::new(
                SimulationAppErrorKind::Storage,
                "invalid simulation ".to_owned().concat(label).concat(" ").concat(
                    debug_text(value).as_str(),
                ).concat(": ").concat(message.as_str()),
            ),
        ),
    }
}

/// The point in time that a stored text denotes.
pub fn parse_time(label: &str, value: &str) -> (r: Result<Timestamp, SimulationAppError>)
    ensures
        answered(r) == time_in(label@, value@),
{
    time_from(label, value, read_time(value))
}

/// How long observed state counts as fresh.
pub open spec fn freshness() -> Span {
    Span { secs: DEFAULT_FRESHNESS, nanos: 0 }
}

/// The input and the result that a stored simulation was decoded into, or what is
/// wrong with the stored text. The result counts only where one was stored.
#[derive(Debug, PartialEq)]
pub struct DecodedSimulation {
    pub record: SimulationRecord,
    pub input: Result<SimulationInput, String>,
    pub result: Result<SimulationResult, String>,
}

/// The result of a stored simulation, if it came to one.
pub open spec fn stored_result(d: DecodedSimulation) -> Result<
    Option<SimulationResultView>,
    SimulationAppErrorView,
> {
    if d.record.deep_view().projection == JsonView::Null {
        Ok(None)
    } else {
        match d.result {
            Ok(result) => Ok(Some(result.deep_view())),
            Err(message) => Err(
                plain(
                    SimulationAppErrorKind::Storage,
                    "invalid deterministic simulation result: "@ + message@,
                ),
            ),
        }
    }
}

/// What the times of a stored simulation were read as.
#[derive(Debug, PartialEq)]
pub struct ViewTimes {
    pub requested_at: TimeReading,
    pub completed_at: Option<TimeReading>,
}

/// The mathematical value of a [`ViewTimes`].
pub struct ViewTimesView {
    pub requested_at: codec::TimeReadingView,
    pub completed_at: Option<codec::TimeReadingView>,
}

impl DeepView for ViewTimes {
    type V = ViewTimesView;

    open spec fn deep_view(&self) -> ViewTimesView {
        ViewTimesView {
            requested_at: self.requested_at.deep_view(),
            completed_at: self.completed_at.deep_view(),
        }
    }
}

/// What the times of a stored simulation denote.
pub open spec fn times_in(rec: SimulationRecordView) -> ViewTimesView {
    ViewTimesView {
        requested_at: codec::reading_of(rec.requested_at),
        completed_at: codec::optional_view_reading(rec.completed_at),
    }
}

/// When a stored simulation was completed, if it was and the moment was read.
pub open spec fn completion_read(
    rec: SimulationRecordView,
    reading: Option<codec::TimeReadingView>,
) -> Result<Option<Timestamp>, SimulationAppErrorView> {
    match (rec.completed_at, reading) {
        (Some(s), Some(t)) => match time_read("completed_at"@, s, t) {
            Ok(t) => Ok(Some(t)),
            Err(e) => Err(e),
        },
        _ => Ok(None),
    }
}

/// When a stored simulation was completed, if it was.
pub open spec fn stored_completion(rec: SimulationRecordView) -> Result<
    Option<Timestamp>,
    SimulationAppErrorView,
> {
    completion_read(rec, times_in(rec).completed_at)
}

/// How a simulation with this input and result is shown at `now`, where its times
/// were read so. A completed one whose input has grown stale is shown as stale, and
/// none has carried out an action.
pub open spec fn shown_at(
    rec: SimulationRecordView,
    input: SimulationInputView,
    result: Option<SimulationResultView>,
    times: ViewTimesView,
    now: Timestamp,
) -> Result<SimulationViewView, SimulationAppErrorView> {
    match read_status(rec.status) {
        Err(e) => Err(e),
        Ok(persisted) => match time_read("requested_at"@, rec.requested_at, times.requested_at) {
            Err(e) => Err(e),
            Ok(requested_at) => match completion_read(rec, times.completed_at) {
                Err(e) => Err(e),
                Ok(completed_at) => {
                    let stale = model::stale_at(input, now, freshness());
                    Ok(
                        SimulationViewView {
                            id: rec.id,
                            recommendation_id: rec.action_id,
                            finding_id: rec.finding_id,
                            action_type: rec.action_type,
                            status: if persisted == SimulationStatus::Completed && stale {
                                SimulationStatus::Stale
                            } else {
                                persisted
                            },
                            model_id: rec.model_id,
                            model_version: rec.model_version,
                            input_hash: rec.input_hash,
                            parameters: input.parameters,
                            source_observed_at: model::finding_snapshot(input).ts,
                            stale,
                            confidence: match result {
                                Some(r) => r.confidence,
                                None => SimulationConfidence::Unknown,
                            },
                            result,
                            error_code: rec.error_code,
                            requested_at,
                            completed_at,
                            no_action_executed: true,
                        },
                    )
                },
            },
        },
    }
}

/// How a simulation with this input and result is shown at `now`.
pub open spec fn shown_as(
    rec: SimulationRecordView,
    input: SimulationInputView,
    result: Option<SimulationResultView>,
    now: Timestamp,
) -> Result<SimulationViewView, SimulationAppErrorView> {
    shown_at(rec, input, result, times_in(rec), now)
}

/// How a stored simulation is shown at `now`.
pub open spec fn view_of(d: DecodedSimulation, now: Timestamp) -> Result<
    SimulationViewView,
    SimulationAppErrorView,
> {
    match d.input {
        Err(message) => Err(
            plain(
                SimulationAppErrorKind::Storage,
                "invalid canonical simulation input: "@ + message@,
            ),
        ),
        Ok(input) => match stored_result(d) {
            Err(e) => Err(e),
            Ok(result) => shown_as(d.record.deep_view(), input.deep_view(), result, now),
        },
    }
}

/// Shows a simulation with this input and result, whose times were read so.
pub fn show_at(
    record: &SimulationRecord,
    input: &SimulationInput,
    result: Option<SimulationResult>,
    times: ViewTimes,
    now: Timestamp,
) -> (r: Result<SimulationView, SimulationAppError>)
    ensures
        answered(r) == shown_at(
            record.deep_view(),
            input.deep_view(),
            result.deep_view(),
            times.deep_view(),
            now,
        ),
{
    let persisted = match parse_status(record.status.as_str()) {
        Ok(s) => s,
        Err(e) => {
            return Err(e);
        },
    };
    let stale = input.is_stale_at(now, Span::seconds(DEFAULT_FRESHNESS));
    let status = if persisted == SimulationStatus::Completed && stale {
        SimulationStatus::Stale
    } else {
        persisted
    };
    let requested_at = match time_from(
        "requested_at",
        record.requested_at.as_str(),
        times.requested_at,
    ) {
        Ok(t) => t,
        Err(e) => {
            return Err(e);
        },
    };
    let completed_at = match (&record.completed_at, times.completed_at) {
        (Some(s), Some(reading)) => match time_from("completed_at", s.as_str(), reading) {
            Ok(t) => Some(t),
            Err(e) => {
                return Err(e);
            },
        },
        _ => None,
    };
    let confidence = match &result {
        Some(r) => r.confidence,
        None => SimulationConfidence::Unknown,
    };
    Ok(
        SimulationView {
            id: record.id.clone(),
            recommendation_id: record.action_id.clone(),
            finding_id: record.finding_id.clone(),
            action_type: record.action_type.clone(),
            status,
            model_id: record.model_id.clone(),
            model_version: record.model_version.clone(),
            input_hash: record.input_hash.clone(),
            parameters: input.parameters.clone(),
            source_observed_at: input.observed_at(),
            stale,
            confidence,
            result,
            error_code: copy_optional_text(&record.error_code),
            requested_at,
            completed_at,
            no_action_executed: true,
        },
    )
}

fn show(
    record: &SimulationRecord,
    input: &SimulationInput,
    result: Option<SimulationResult>,
    now: Timestamp,
) -> (r: Result<SimulationView, SimulationAppError>)
    ensures
        answered(r) == shown_as(
            record.deep_view(),
            input.deep_view(),
            result.deep_view(),
            now,
        ),
{
    let requested_at = read_time(record.requested_at.as_str());
    let completed_at = match &record.completed_at {
        Some(s) => Some(read_time(s.as_str())),
        None => None,
    };
    show_at(record, input, result, ViewTimes { requested_at, completed_at }, now)
}

/// How a stored simulation is shown at `now`.
pub fn simulation_view(decoded: &DecodedSimulation, now: Timestamp) -> (r: Result<
    SimulationView,
    SimulationAppError,
>)
    ensures
        answered(r) == view_of(*decoded, now),
{
    let input = match &decoded.input {
        Ok(input) => input,
        Err(message) => {
            return Err(
                SimulationAppError::new(
                    SimulationAppErrorKind::Storage,
                    "invalid canonical simulation input: ".to_owned().concat(message.as_str()),
                ),
            );
        },
    };
    let result = if decoded.record.projection.is_null() {
        None
    } else {
        match &decoded.result {
            Ok(result) => Some(result.clone()),
            Err(message) => {
                return Err(
                    SimulationAppError::new(
                        SimulationAppErrorKind::Storage,
                        "invalid deterministic simulation result: ".to_owned().concat(
                            message.as_str(),
                        ),
                    ),
                );
            },
        }
    };
    show(&decoded.record, input, result, now)
}

/// How several stored simulations are shown; the first that cannot be read is
/// what is said of all.
pub open spec fn views_of(all: Seq<DecodedSimulation>, now: Timestamp) -> Result<
    Seq<SimulationViewView>,
    SimulationAppErrorView,
>
    decreases all.len(),
{
    if all.len() == 0 {
        Ok(seq![])
    } else {
        match views_of(all.drop_last(), now) {
            Err(e) => Err(e),
            Ok(before) => match view_of(all.last(), now) {
                Err(e) => Err(e),
                Ok(view) => Ok(before.push(view)),
            },
        }
    }
}

/// The views of several stored simulations, over mathematical values.
pub open spec fn listed(r: Result<Vec<SimulationView>, SimulationAppError>) -> Result<
    Seq<SimulationViewView>,
    SimulationAppErrorView,
> {
    match r {
        Ok(views) => Ok(views.deep_view()),
        Err(e) => Err(e.deep_view()),
    }
}

proof fn lemma_first_bad_view(all: Seq<DecodedSimulation>, now: Timestamp, k: int)
    requires
        0 <= k < all.len(),
        views_of(all.take(k + 1), now) is Err,
    ensures
        views_of(all, now) == views_of(all.take(k + 1), now),
    decreases all.len(),
{
    if k + 1 < all.len() {
        assert(all.drop_last().take(k + 1) =~= all.take(k + 1));
        lemma_first_bad_view(all.drop_last(), now, k);
    } else {
        assert(all.take(k + 1) =~= all);
    }
}

/// How several stored simulations are shown.
pub fn list_simulations(found: &Vec<DecodedSimulation>, now: Timestamp) -> (r: Result<
    Vec<SimulationView>,
    SimulationAppError,
>)
    ensures
        listed(r) == views_of(found@, now),
{
    let mut out: Vec<SimulationView> = Vec::new();
    let mut i: usize = 0;
    assert(out.deep_view() =~= seq![]);
    while i < found.len()
        invariant
            i <= found.len(),
            views_of(found@.take(i as int), now) == Ok::<
                Seq<SimulationViewView>,
                SimulationAppErrorView,
            >(out.deep_view()),
        decreases found.len() - i,
    {
        assert(found@.take(i + 1).drop_last() =~= found@.take(i as int));
        assert(found@.take(i + 1).last() == found[i as int]);
        match simulation_view(&found[i], now) {
            Ok(view) => {
                let ghost before = out.deep_view();
                let ghost v = view.deep_view();
                out.push(view);
                assert(out.deep_view() =~= before.push(v));
            },
            Err(e) => {
                proof {
                    lemma_first_bad_view(found@, now, i as int);
                }
                return Err(e);
            },
        }
        i += 1;
    }
    assert(found@.take(i as int) =~= found@);
    Ok(out)
}

/// What becomes of a request whose input was simulated before.
pub enum SettlementView {
    /// The simulation that is there answers the request.
    Reuse(SimulationViewView),
    /// The request is refused.
    Refuse(SimulationAppErrorView),
    /// The input is evaluated again.
    Evaluate,
}

/// What becomes of a request whose input was simulated before.
#[derive(Debug, PartialEq)]
pub enum Settlement {
    /// The simulation that is there answers the request.
    Reuse(SimulationView),
    /// The request is refused.
    Refuse(SimulationAppError),
    /// The input is evaluated again.
    Evaluate,
}

impl DeepView for Settlement {
    type V = SettlementView;

    open spec fn deep_view(&self) -> SettlementView {
        match self {
            Settlement::Reuse(view) => SettlementView::Reuse(view.deep_view()),
            Settlement::Refuse(e) => SettlementView::Refuse(e.deep_view()),
            Settlement::Evaluate => SettlementView::Evaluate,
        }
    }
}

/// What becomes of a request whose input was simulated before. A result is used
/// again, but a stale one only where that is allowed. A request that was refused is
/// refused again, but for one that was stale and is now allowed to be.
pub open spec fn settled_shown(
    rec: SimulationRecordView,
    shown: Result<SimulationViewView, SimulationAppErrorView>,
    allow_stale: bool,
) -> SettlementView {
    if rec.projection == JsonView::Null && allow_stale && rec.status == "stale"@ {
        SettlementView::Evaluate
    } else {
        match shown {
            Err(e) => SettlementView::Refuse(e),
            Ok(view) => if rec.projection == JsonView::Null {
                SettlementView::Refuse(
                    shown_with(
                        kind_of(view.status),
                        "identical simulation request "@ + rec.id
                            + " already ended with status "@ + view.status.name(),
                        view,
                    ),
                )
            } else if view.stale && !allow_stale {
                SettlementView::Refuse(
                    shown_with(
                        SimulationAppErrorKind::StaleInput,
                        "identical simulation result is stale; inspect it before allowing stale input"@,
                        view,
                    ),
                )
            } else {
                SettlementView::Reuse(view)
            },
        }
    }
}

/// What becomes of a request at `now` whose input was simulated before.
pub open spec fn settled(
    existing: DecodedSimulation,
    allow_stale: bool,
    now: Timestamp,
) -> SettlementView {
    settled_shown(existing.record.deep_view(), view_of(existing, now), allow_stale)
}

/// Decides what becomes of a request whose input was simulated before, from how that
/// simulation is shown.
pub fn settle_shown(
    record: &SimulationRecord,
    shown: Result<SimulationView, SimulationAppError>,
    allow_stale: bool,
) -> (r: Settlement)
    ensures
        r.deep_view() == settled_shown(record.deep_view(), answered(shown), allow_stale),
{
    let has_result = !record.projection.is_null();
    if !has_result && allow_stale && same_text(record.status.as_str(), "stale") {
        return Settlement::Evaluate;
    }
    let view = match shown {
        Ok(view) => view,
        Err(e) => {
            return Settlement::Refuse(e);
        },
    };
    if has_result {
        if view.stale && !allow_stale {
            Settlement::Refuse(
                SimulationAppError::with_simulation(
                    SimulationAppErrorKind::StaleInput,
                    "identical simulation result is stale; inspect it before allowing stale input".to_owned(),
                    view,
                ),
            )
        } else {
            Settlement::Reuse(view)
        }
    } else {
        Settlement::Refuse(
            SimulationAppError::with_simulation(
                error_kind_for_status(view.status),
                "identical simulation request ".to_owned().concat(record.id.as_str()).concat(
                    " already ended with status ",
                ).concat(view.status.as_str()),
                view,
            ),
        )
    }
}

/// Decides what becomes of a request whose input was simulated before.
pub fn settle(existing: &DecodedSimulation, allow_stale: bool, now: Timestamp) -> (r: Settlement)
    ensures
        r.deep_view() == settled(*existing, allow_stale, now),
{
    settle_shown(&existing.record, simulation_view(existing, now), allow_stale)
}

/// Why a simulation came to no result.
#[derive(Debug, PartialEq, Eq)]
pub struct Refusal {
    pub kind: SimulationAppErrorKind,
    pub code: String,
    pub message: String,
}

/// The mathematical value of a [`Refusal`].
pub struct RefusalView {
    pub kind: SimulationAppErrorKind,
    pub code: Seq<char>,
    pub message: Seq<char>,
}

impl DeepView for Refusal {
    type V = RefusalView;

    open spec fn deep_view(&self) -> RefusalView {
        RefusalView {
            kind: self.kind,
            code: self.code.deep_view(),
            message: self.message.deep_view(),
        }
    }
}

impl Clone for Refusal {
    fn clone(&self) -> (r: Self)
        ensures
            r.deep_view() == self.deep_view(),
    {
        Refusal {
            kind: self.kind,
            code: self.code.clone(),
            message: self.message.clone(),
        }
    }
}

/// What a simulation came to: a result, or a reason why there is none.
#[derive(Debug, PartialEq)]
pub struct Evaluation {
    pub status: SimulationStatus,
    pub result: Option<SimulationResult>,
    pub refusal: Option<Refusal>,
}

/// The mathematical value of a [`Evaluation`].
pub struct EvaluationView {
    pub status: SimulationStatus,
    pub result: Option<SimulationResultView>,
    pub refusal: Option<RefusalView>,
}

impl DeepView for Evaluation {
    type V = EvaluationView;

    open spec fn deep_view(&self) -> EvaluationView {
        EvaluationView {
            status: self.status,
            result: self.result.deep_view(),
            refusal: self.refusal.deep_view(),
        }
    }
}

impl Clone for Evaluation {
    fn clone(&self) -> (r: Self)
        ensures
            r.deep_view() == self.deep_view(),
    {
        Evaluation {
            status: self.status,
            result: self.result.clone(),
            refusal: self.refusal.clone(),
        }
    }
}

/// An evaluation without a result.
pub open spec fn refused_as(
    status: SimulationStatus,
    kind: SimulationAppErrorKind,
    code: Seq<char>,
    message: Seq<char>,
) -> EvaluationView {
    EvaluationView { status, result: None, refusal: Some(RefusalView { kind, code, message }) }
}

/// What a simulation comes to: it must be supported, its input must not be dated
/// after the request, stale input must be allowed, and the model must accept it.
pub open spec fn evaluation_of(
    p: PreparedSimulationView,
    canonical: Seq<u8>,
    requested_at: Timestamp,
) -> EvaluationView {
    let stale = model::stale_at(p.input, requested_at, freshness());
    if !supported(p.recommendation) {
        refused_as(
            SimulationStatus::Unsupported,
            SimulationAppErrorKind::UnsupportedRecommendation,
            "unsupported_recommendation"@,
            "recommendation type is unsupported by this model"@,
        )
    } else if model::future_at(p.input, requested_at) {
        refused_as(
            SimulationStatus::InvalidInput,
            SimulationAppErrorKind::FutureDatedInput,
            "invalid_input"@,
            "source snapshots are dated after the simulation request"@,
        )
    } else if stale && !p.allow_stale {
        refused_as(
            SimulationStatus::Stale,
            SimulationAppErrorKind::StaleInput,
            "stale_input"@,
            "source snapshots are stale; inspect them before allowing stale input"@,
        )
    } else {
        match model::refusal(p.input) {
            None => EvaluationView {
                status: if stale {
                    SimulationStatus::Stale
                } else {
                    SimulationStatus::Completed
                },
                result: Some(model::projection(p.input, canonical)),
                refusal: None,
            },
            Some(model::ModelErrorView::Unsupported { model_id }) => refused_as(
                SimulationStatus::Unsupported,
                SimulationAppErrorKind::UnsupportedRecommendation,
                "unsupported_recommendation"@,
                "recommendation type is unsupported by this model"@,
            ),
            Some(model::ModelErrorView::InvalidInput(message)) => refused_as(
                SimulationStatus::InvalidInput,
                SimulationAppErrorKind::InvalidInput,
                "invalid_input"@,
                message,
            ),
            Some(e) => refused_as(
                SimulationStatus::Failed,
                SimulationAppErrorKind::ModelFailure,
                "model_failure"@,
                model::model_error_text(e),
            ),
        }
    }
}

fn refuse(
    status: SimulationStatus,
    kind: SimulationAppErrorKind,
    code: &str,
    message: String,
) -> (r: Evaluation)
    ensures
        r.deep_view() == refused_as(status, kind, code@, message@),
{
    Evaluation {
        status,
        result: None,
        refusal: Some(Refusal { kind, code: code.to_owned(), message }),
    }
}

/// Evaluates a simulation whose input is encoded as `canonical`.
pub fn evaluate(prepared: &PreparedSimulation, canonical: &[u8], requested_at: Timestamp) -> (r:
    Evaluation)
    ensures
        r.deep_view() == evaluation_of(prepared.deep_view(), canonical@, requested_at),
{
    let model = LiquidityRedistributionModel::new();
    let input = &prepared.input;
    let stale = input.is_stale_at(requested_at, Span::seconds(DEFAULT_FRESHNESS));
    if !model.supports(&prepared.recommendation) {
        return refuse(
            SimulationStatus::Unsupported,
            SimulationAppErrorKind::UnsupportedRecommendation,
            "unsupported_recommendation",
            "recommendation type is unsupported by this model".to_owned(),
        );
    }
    if input.is_future_at(requested_at) {
        return refuse(
            SimulationStatus::InvalidInput,
            SimulationAppErrorKind::FutureDatedInput,
            "invalid_input",
            "source snapshots are dated after the simulation request".to_owned(),
        );
    }
    if stale && !prepared.allow_stale {
        return refuse(
            SimulationStatus::Stale,
            SimulationAppErrorKind::StaleInput,
            "stale_input",
            "source snapshots are stale; inspect them before allowing stale input".to_owned(),
        );
    }
    match model.simulate(input, canonical) {
        Ok(result) => Evaluation {
            status: if stale {
                SimulationStatus::Stale
            } else {
                SimulationStatus::Completed
            },
            result: Some(result),
            refusal: None,
        },
        Err(ModelError::Unsupported { model_id }) => refuse(
            SimulationStatus::Unsupported,
            SimulationAppErrorKind::UnsupportedRecommendation,
            "unsupported_recommendation",
            "recommendation type is unsupported by this model".to_owned(),
        ),
        Err(ModelError::InvalidInput(message)) => refuse(
            SimulationStatus::InvalidInput,
            SimulationAppErrorKind::InvalidInput,
            "invalid_input",
            message,
        ),
        Err(e) => refuse(
            SimulationStatus::Failed,
            SimulationAppErrorKind::ModelFailure,
            "model_failure",
            e.to_text(),
        ),
    }
}

/// An input and, where there is one, a result as they are stored.
#[derive(Debug, PartialEq, Eq)]
pub struct EncodedSimulation {
    pub canonical_input: Json,
    pub assumptions: Json,
    pub warnings: Json,
    pub projection: Json,
}

/// The mathematical value of a [`EncodedSimulation`].
pub struct EncodedSimulationView {
    pub canonical_input: JsonView,
    pub assumptions: JsonView,
    pub warnings: JsonView,
    pub projection: JsonView,
}

impl DeepView for EncodedSimulation {
    type V = EncodedSimulationView;

    open spec fn deep_view(&self) -> EncodedSimulationView {
        EncodedSimulationView {
            canonical_input: self.canonical_input.deep_view(),
            assumptions: self.assumptions.deep_view(),
            warnings: self.warnings.deep_view(),
            projection: self.projection.deep_view(),
        }
    }
}

impl Clone for EncodedSimulation {
    fn clone(&self) -> (r: Self)
        ensures
            r.deep_view() == self.deep_view(),
    {
        EncodedSimulation {
            canonical_input: self.canonical_input.clone(),
            assumptions: self.assumptions.clone(),
            warnings: self.warnings.clone(),
            projection: self.projection.clone(),
        }
    }
}

/// The record of an evaluated simulation.
pub open spec fn record_of(
    id: Seq<char>,
    p: PreparedSimulationView,
    input_hash: Seq<char>,
    e: EvaluationView,
    encoded: EncodedSimulationView,
    requested_at: Timestamp,
    completed_at: Timestamp,
) -> SimulationRecordView {
    SimulationRecordView {
        id,
        action_id: p.recommendation.action.id,
        finding_id: p.recommendation.finding_id,
        action_type: p.recommendation.action.action_type.name(),
        status: e.status.name(),
        model_id: p.input.model_id,
        model_version: p.input.model_version,
        input_hash,
        confidence: match e.result {
            Some(result) => result.confidence.name(),
            None => "unknown"@,
        },
        assumptions: if e.result is Some {
            encoded.assumptions
        } else {
            JsonView::Compound("[]"@)
        },
        warnings: if e.result is Some {
            encoded.warnings
        } else {
            JsonView::Compound("[]"@)
        },
        explanation: ""@,
        canonical_input: encoded.canonical_input,
        projection: if e.result is Some {
            encoded.projection
        } else {
            JsonView::Null
        },
        source_observed_at: Some(time_shown(model::finding_snapshot(p.input).ts)),
        requested_at: time_shown(requested_at),
        completed_at: Some(time_shown(completed_at)),
        error_code: match e.refusal {
            Some(refusal) => Some(refusal.code),
            None => None,
        },
        created_at: time_shown(requested_at),
    }
}

/// The text that stands for a point in time.
pub open spec fn time_shown(t: Timestamp) -> Seq<char> {
    time::rfc3339_of(t.secs, t.nanos)
}

/// The record of an evaluated simulation.
pub fn simulation_record(
    id: &str,
    prepared: &PreparedSimulation,
    input_hash: &str,
    evaluation: &Evaluation,
    encoded: &EncodedSimulation,
    requested_at: Timestamp,
    completed_at: Timestamp,
) -> (r: SimulationRecord)
    requires
        codec::writable(model::finding_snapshot(prepared.deep_view().input).ts),
        codec::writable(requested_at),
        codec::writable(completed_at),
    ensures
        r.deep_view() == record_of(
            id@,
            prepared.deep_view(),
            input_hash@,
            evaluation.deep_view(),
            encoded.deep_view(),
            requested_at,
            completed_at,
        ),
        codec::readable(requested_at) ==> time_in("requested_at"@, r.requested_at@) == Ok::<
            Timestamp,
            SimulationAppErrorView,
        >(requested_at),
        codec::readable(completed_at) ==> stored_completion(r.deep_view()) == Ok::<
            Option<Timestamp>,
            SimulationAppErrorView,
        >(Some(completed_at)),
{
    let has_result = evaluation.result.is_some();
    let confidence = match &evaluation.result {
        Some(result) => result.confidence.as_str().to_owned(),
        None => "unknown".to_owned(),
    };
    let error_code = match &evaluation.refusal {
        Some(refusal) => Some(refusal.code.clone()),
        None => None,
    };
    SimulationRecord {
        id: id.to_owned(),
        action_id: prepared.recommendation.action.id.clone(),
        finding_id: prepared.recommendation.finding_id.clone(),
        action_type: prepared.recommendation.action.action_type.as_str().to_owned(),
        status: evaluation.status.as_str().to_owned(),
        model_id: prepared.input.model_id.clone(),
        model_version: prepared.input.model_version.clone(),
        input_hash: input_hash.to_owned(),
        confidence,
        assumptions: if has_result {
            encoded.assumptions.clone()
        } else {
            Json::Compound("[]".to_owned())
        },
        warnings: if has_result {
            encoded.warnings.clone()
        } else {
            Json::Compound("[]".to_owned())
        },
        explanation: "".to_owned(),
        canonical_input: encoded.canonical_input.clone(),
        projection: if has_result {
            encoded.projection.clone()
        } else {
            Json::Null
        },
        source_observed_at: Some(time_text(&prepared.input.observed_at())),
        requested_at: time_text(&requested_at),
        completed_at: Some(time_text(&completed_at)),
        error_code,
        created_at: time_text(&requested_at),
    }
}

/// The steps in the life of a simulation: it was requested, and it ended.
pub open spec fn events_of(
    rec: SimulationRecordView,
    request_id: Seq<char>,
    end_id: Seq<char>,
) -> Seq<SimulationEventView> {
    seq![
        SimulationEventView {
            id: request_id,
            simulation_id: rec.id,
            status: "requested"@,
            error_code: None,
            timestamp: rec.requested_at,
        },
        SimulationEventView {
            id: end_id,
            simulation_id: rec.id,
            status: rec.status,
            error_code: rec.error_code,
            timestamp: match rec.completed_at {
                Some(t) => t,
                None => rec.requested_at,
            },
        },
    ]
}

/// The steps in the life of a simulation, each under an identity of its own.
pub fn lifecycle_events(record: &SimulationRecord, request_id: &str, end_id: &str) -> (r: Vec<
    SimulationEvent,
>)
    ensures
        r.deep_view() == events_of(record.deep_view(), request_id@, end_id@),
        r.len() == 2,
{
    let timestamp = match &record.completed_at {
        Some(t) => t.clone(),
        None => record.requested_at.clone(),
    };
    let mut out: Vec<SimulationEvent> = Vec::new();
    out.push(
        SimulationEvent {
            id: request_id.to_owned(),
            simulation_id: record.id.clone(),
            status: SimulationStatus::Requested.as_str().to_owned(),
            error_code: None,
            timestamp: record.requested_at.clone(),
        },
    );
    out.push(
        SimulationEvent {
            id: end_id.to_owned(),
            simulation_id: record.id.clone(),
            status: record.status.clone(),
            error_code: copy_optional_text(&record.error_code),
            timestamp,
        },
    );
    assert(out.deep_view() =~= events_of(record.deep_view(), request_id@, end_id@));
    out
}

/// A storage after a step was appended, and why it could not be.
pub open spec fn with_event(m: StorageModel, e: SimulationEventView) -> (
    StorageModel,
    Option<StorageErrorView>,
) {
    if memory_storage::event_known(m.simulation_events, e.id) {
        (m, Some(StorageErrorView::Backend("duplicate simulation event "@ + e.id)))
    } else {
        (StorageModel { simulation_events: m.simulation_events.push(e), ..m }, None)
    }
}

/// A storage after a simulation and the steps of its life were stored, and why they
/// could not be.
pub open spec fn persisted(
    m: StorageModel,
    rec: SimulationRecordView,
    request_id: Seq<char>,
    end_id: Seq<char>,
) -> (StorageModel, Option<StorageErrorView>) {
    match memory_storage::record_conflict(m.simulation_records, rec) {
        Some(message) => (m, Some(StorageErrorView::Backend(message))),
        None => {
            let events = events_of(rec, request_id, end_id);
            let stored = StorageModel {
                simulation_records: memory_storage::with_record(m.simulation_records, rec),
                ..m
            };
            let requested = with_event(stored, events[0]);
            if requested.1 is Some {
                requested
            } else {
                with_event(requested.0, events[1])
            }
        },
    }
}

/// Stores a simulation and the steps of its life.
pub fn persist_outcome(
    storage: &mut MemoryStorage,
    record: &SimulationRecord,
    request_id: &str,
    end_id: &str,
) -> (r: Result<(), SimulationAppError>)
    ensures
        final(storage).set_aside() == old(storage).set_aside(),
        final(storage).model() == persisted(
            old(storage).model(),
            record.deep_view(),
            request_id@,
            end_id@,
        ).0,
        objected(r) == (match persisted(
            old(storage).model(),
            record.deep_view(),
            request_id@,
            end_id@,
        ).1 {
            Some(e) => Some(stored_badly(e)),
            None => None,
        }),
{
    match storage.save_simulation_v2(record) {
        Ok(_) => {},
        Err(e) => {
            return Err(SimulationAppError::storage(&e));
        },
    }
    let events = lifecycle_events(record, request_id, end_id);
    assert(events.deep_view()[0] == events[0].deep_view());
    assert(events.deep_view()[1] == events[1].deep_view());
    match storage.append_simulation_event(&events[0]) {
        Ok(_) => {},
        Err(e) => {
            return Err(SimulationAppError::storage(&e));
        },
    }
    match storage.append_simulation_event(&events[1]) {
        Ok(_) => Ok(()),
        Err(e) => Err(SimulationAppError::storage(&e)),
    }
}

/// Begins a request for a simulation: checks the command, opens a transaction and
/// takes from the storage what the simulation needs. The transaction stays open
/// only where the simulation is prepared.
pub fn begin_simulation(
    storage: &mut MemoryStorage,
    command: &CreateSimulationCommand,
) -> (r: Result<PreparedSimulation, SimulationAppError>)
    ensures
        final(storage).model() == old(storage).model(),
        match commanded_amount(command.deep_view()) {
            Err(e) => answered(r) == Err::<PreparedSimulationView, SimulationAppErrorView>(e)
                && final(storage).set_aside() == old(storage).set_aside(),
            Ok(amount) => if old(storage).set_aside() is Some {
                answered(r) == Err::<PreparedSimulationView, SimulationAppErrorView>(
                    stored_badly(StorageErrorView::Backend("nested transaction attempted"@)),
                ) && final(storage).set_aside() == old(storage).set_aside()
            } else {
                answered(r) == prepared(old(storage).model(), command.deep_view(), amount)
                    && final(storage).set_aside() == (if r is Ok {
                    Some(old(storage).model())
                } else {
                    None
                })
            },
        },
{
    let amount: u64 = match check_command(command) {
        Ok(amount) => amount,
        Err(e) => {
            return Err(e);
        },
    };
    match storage.begin_transaction() {
        Ok(_) => {},
        Err(e) => {
            return Err(SimulationAppError::storage(&e));
        },
    }
    match prepare(storage, command, amount) {
        Ok(p) => Ok(p),
        Err(e) => match storage.rollback_transaction() {
            Ok(_) => Err(e),
            Err(failed) => Err(SimulationAppError::storage(&failed)),
        },
    }
}

/// Ends a request whose input was simulated before, unless it has to be evaluated
/// again. Nothing was written, but a refusal that shows a simulation closes the
/// transaction as one that was.
pub fn answer_existing(
    storage: &mut MemoryStorage,
    existing: &DecodedSimulation,
    allow_stale: bool,
    now: Timestamp,
) -> (r: Option<Result<CreateSimulationOutcome, SimulationAppError>>)
    requires
        old(storage).set_aside() is Some,
    ensures
        match settled(*existing, allow_stale, now) {
            SettlementView::Evaluate => r is None && final(storage).model() == old(storage).model()
                && final(storage).set_aside() == old(storage).set_aside(),
            SettlementView::Reuse(view) => r is Some && answered(r->0) == Ok::<
                CreateSimulationOutcomeView,
                SimulationAppErrorView,
            >(CreateSimulationOutcomeView { simulation: view, reused: true })
                && final(storage).set_aside() is None && final(storage).model()
                == old(storage).set_aside()->0,
            SettlementView::Refuse(e) => r is Some && answered(r->0) == Err::<
                CreateSimulationOutcomeView,
                SimulationAppErrorView,
            >(e) && final(storage).set_aside() is None && final(storage).model() == (
            if e.simulation is Some {
                old(storage).model()
            } else {
                old(storage).set_aside()->0
            }),
        },
{
    match settle(existing, allow_stale, now) {
        Settlement::Evaluate => None,
        Settlement::Reuse(simulation) => match storage.rollback_transaction() {
            Ok(_) => Some(Ok(CreateSimulationOutcome { simulation, reused: true })),
            Err(failed) => Some(Err(SimulationAppError::storage(&failed))),
        },
        Settlement::Refuse(e) => {
            let closed = if e.simulation.is_some() {
                storage.commit_transaction()
            } else {
                storage.rollback_transaction()
            };
            match closed {
                Ok(_) => Some(Err(e)),
                Err(failed) => Some(Err(SimulationAppError::storage(&failed))),
            }
        },
    }
}

/// What a request is answered once its simulation is evaluated and shown so.
pub open spec fn shown_answer(
    shown: Result<SimulationViewView, SimulationAppErrorView>,
    e: EvaluationView,
) -> Result<CreateSimulationOutcomeView, SimulationAppErrorView> {
    match shown {
        Err(unreadable) => Err(unreadable),
        Ok(view) => match e.refusal {
            Some(refusal) => Err(shown_with(refusal.kind, refusal.message, view)),
            None => Ok(CreateSimulationOutcomeView { simulation: view, reused: false }),
        },
    }
}

/// What a request is answered once its simulation is evaluated: the simulation, or a
/// refusal that shows it.
pub fn answer_shown(
    shown: Result<SimulationView, SimulationAppError>,
    evaluation: &Evaluation,
) -> (r: Result<CreateSimulationOutcome, SimulationAppError>)
    ensures
        answered(r) == shown_answer(answered(shown), evaluation.deep_view()),
{
    match shown {
        Err(e) => Err(e),
        Ok(view) => match &evaluation.refusal {
            Some(refusal) => Err(
                SimulationAppError::with_simulation(refusal.kind, refusal.message.clone(), view),
            ),
            None => Ok(CreateSimulationOutcome { simulation: view, reused: false }),
        },
    }
}

/// What a request is answered once its simulation is evaluated.
pub open spec fn new_answer(
    rec: SimulationRecordView,
    input: SimulationInputView,
    e: EvaluationView,
    completed_at: Timestamp,
) -> Result<CreateSimulationOutcomeView, SimulationAppErrorView> {
    shown_answer(shown_as(rec, input, e.result, completed_at), e)
}

/// What a request is answered once its simulation is evaluated.
pub fn answer_new(
    record: &SimulationRecord,
    input: &SimulationInput,
    evaluation: &Evaluation,
    completed_at: Timestamp,
) -> (r: Result<CreateSimulationOutcome, SimulationAppError>)
    ensures
        answered(r) == new_answer(
            record.deep_view(),
            input.deep_view(),
            evaluation.deep_view(),
            completed_at,
        ),
{
    answer_shown(show(record, input, evaluation.result.clone(), completed_at), evaluation)
}

/// Whether what a request wrote stays: it does where the answer shows a simulation
/// that was not there before, or refuses one.
pub open spec fn kept(answer: Result<CreateSimulationOutcomeView, SimulationAppErrorView>) -> bool {
    match answer {
        Ok(outcome) => !outcome.reused,
        Err(e) => e.simulation is Some,
    }
}

/// Whether what a request wrote stays.
pub fn is_kept(answer: &Result<CreateSimulationOutcome, SimulationAppError>) -> (r: bool)
    ensures
        r == kept(answered(*answer)),
{
    match answer {
        Ok(outcome) => !outcome.reused,
        Err(e) => e.simulation.is_some(),
    }
}

/// What a request leads to once its simulation is evaluated, and the storage after
/// it: `before` is what was stored when the request began and `m` what is stored
/// now. What is shown is stored, and otherwise nothing is.
pub open spec fn concluded(
    before: StorageModel,
    m: StorageModel,
    rec: SimulationRecordView,
    input: SimulationInputView,
    e: EvaluationView,
    completed_at: Timestamp,
    request_id: Seq<char>,
    end_id: Seq<char>,
) -> (StorageModel, Result<CreateSimulationOutcomeView, SimulationAppErrorView>) {
    let after = persisted(m, rec, request_id, end_id);
    match after.1 {
        Some(failed) => (before, Err(stored_badly(failed))),
        None => {
            let answer = new_answer(rec, input, e, completed_at);
            (
                if kept(answer) {
                    after.0
                } else {
                    before
                },
                answer,
            )
        },
    }
}

/// Ends a request whose simulation is evaluated: stores it with the steps of its
/// life and commits, or stores nothing.
pub fn conclude_simulation(
    storage: &mut MemoryStorage,
    record: &SimulationRecord,
    input: &SimulationInput,
    evaluation: &Evaluation,
    completed_at: Timestamp,
    request_id: &str,
    end_id: &str,
) -> (r: Result<CreateSimulationOutcome, SimulationAppError>)
    requires
        old(storage).set_aside() is Some,
    ensures
        final(storage).set_aside() is None,
        (final(storage).model(), answered(r)) == concluded(
            old(storage).set_aside()->0,
            old(storage).model(),
            record.deep_view(),
            input.deep_view(),
            evaluation.deep_view(),
            completed_at,
            request_id@,
            end_id@,
        ),
{
    let answer = match persist_outcome(storage, record, request_id, end_id) {
        Ok(_) => answer_new(record, input, evaluation, completed_at),
        Err(e) => Err(e),
    };
    let closed = if is_kept(&answer) {
        storage.commit_transaction()
    } else {
        storage.rollback_transaction()
    };
    match closed {
        Ok(_) => answer,
        Err(failed) => Err(SimulationAppError::storage(&failed)),
    }
}

/// What a request leads to once its simulation is evaluated, under these
/// identities and at this moment, and the storage after it.
pub open spec fn stored_as(
    before: StorageModel,
    m: StorageModel,
    p: PreparedSimulationView,
    canonical: Seq<u8>,
    e: EvaluationView,
    encoded: EncodedSimulationView,
    requested_at: Timestamp,
    completed_at: Timestamp,
    ids: (Seq<char>, Seq<char>, Seq<char>),
) -> (StorageModel, Result<CreateSimulationOutcomeView, SimulationAppErrorView>) {
    concluded(
        before,
        m,
        record_of(
            ids.0,
            p,
            model::input_hash_text(canonical),
            e,
            encoded,
            requested_at,
            completed_at,
        ),
        p.input,
        e,
        completed_at,
        ids.1,
        ids.2,
    )
}

/// Whether each of three identities has the form of a random one.
pub open spec fn random_ids(ids: (Seq<char>, Seq<char>, Seq<char>)) -> bool {
    action::is_random_id(ids.0) && action::is_random_id(ids.1) && action::is_random_id(ids.2)
}

/// Stores an evaluated simulation under fresh identities, completed now, and ends
/// the request.
pub fn store_simulation(
    storage: &mut MemoryStorage,
    prepared: &PreparedSimulation,
    canonical: &[u8],
    evaluation: &Evaluation,
    encoded: &EncodedSimulation,
    requested_at: Timestamp,
) -> (r: Result<CreateSimulationOutcome, SimulationAppError>)
    requires
        old(storage).set_aside() is Some,
        codec::writable(model::finding_snapshot(prepared.deep_view().input).ts),
        codec::writable(requested_at),
    ensures
        final(storage).set_aside() is None,
        exists|completed_at: Timestamp, ids: (Seq<char>, Seq<char>, Seq<char>)|
            time::shown_by_clock(completed_at) && random_ids(ids) && (
            final(storage).model(),
            answered(r),
            ) == #[trigger] stored_as(
                old(storage).set_aside()->0,
                old(storage).model(),
                prepared.deep_view(),
                canonical@,
                evaluation.deep_view(),
                encoded.deep_view(),
                requested_at,
                completed_at,
                ids,
            ),
{
    let completed_at = current_time();
    let id = fresh_id();
    let request_id = fresh_id();
    let end_id = fresh_id();
    let input_hash = compute_input_hash(canonical);
    let record = simulation_record(
        id.as_str(),
        prepared,
        input_hash.as_str(),
        evaluation,
        encoded,
        requested_at,
        completed_at,
    );
    let ghost before = *storage;
    assert(random_ids((id@, request_id@, end_id@)));
    let r = conclude_simulation(
        storage,
        &record,
        &prepared.input,
        evaluation,
        completed_at,
        request_id.as_str(),
        end_id.as_str(),
    );
    assert((storage.model(), answered(r)) == stored_as(
        before.set_aside()->0,
        before.model(),
        prepared.deep_view(),
        canonical@,
        evaluation.deep_view(),
        encoded.deep_view(),
        requested_at,
        completed_at,
        (id@, request_id@, end_id@),
    ));
    r
}

/// The simulation that was asked for.
pub open spec fn present(
    found: Result<Option<SimulationViewView>, SimulationAppErrorView>,
    id: Seq<char>,
) -> Result<SimulationViewView, SimulationAppErrorView> {
    match found {
        Err(e) => Err(e),
        Ok(Some(view)) => Ok(view),
        Ok(None) => Err(
            plain(SimulationAppErrorKind::SimulationNotFound, "no simulation with id "@ + id),
        ),
    }
}

fn present_view(
    found: Result<Option<SimulationView>, SimulationAppError>,
    id: &str,
) -> (r: Result<SimulationView, SimulationAppError>)
    ensures
        answered(r) == present(answered(found), id@),
{
    match found {
        Err(e) => Err(e),
        Ok(Some(view)) => Ok(view),
        Ok(None) => Err(
            SimulationAppError::new(
                SimulationAppErrorKind::SimulationNotFound,
                "no simulation with id ".to_owned().concat(id),
            ),
        ),
    }
}

/// Whether two simulations can be compared: both came to a result, for one
/// recommendation, by one model.
pub open spec fn comparable(left: SimulationViewView, right: SimulationViewView) -> bool {
    left.recommendation_id == right.recommendation_id && left.model_id == right.model_id
        && left.model_version == right.model_version && left.result is Some
        && right.result is Some
}

/// What sets two simulations apart.
pub open spec fn difference(left: SimulationViewView, right: SimulationViewView) -> Result<
    SimulationComparisonView,
    SimulationAppErrorView,
> {
    let delta = right.result->0.projected.local_balance_msat
        - left.result->0.projected.local_balance_msat;
    if !comparable(left, right) {
        Err(
            plain(
                SimulationAppErrorKind::IncompatibleSimulations,
                "simulations must be completed projections for the same recommendation and model"@,
            ),
        )
    } else if !(i64::MIN <= delta <= i64::MAX) {
        Err(
            plain(
                SimulationAppErrorKind::IncompatibleSimulations,
                "projected balance difference exceeds the supported comparison range"@,
            ),
        )
    } else {
        Ok(
            SimulationComparisonView {
                recommendation_id: left.recommendation_id,
                left,
                right,
                projected_local_balance_delta_msat: delta as i64,
                no_action_executed: true,
            },
        )
    }
}

/// What a comparison comes to, of the simulations that were found.
pub open spec fn compared(
    c: CompareSimulationsCommandView,
    left: Result<Option<SimulationViewView>, SimulationAppErrorView>,
    right: Result<Option<SimulationViewView>, SimulationAppErrorView>,
) -> Result<SimulationComparisonView, SimulationAppErrorView> {
    if text::blank(c.left_simulation_id) || text::blank(c.right_simulation_id) {
        Err(plain(SimulationAppErrorKind::InvalidRequest, "simulation IDs cannot be empty"@))
    } else {
        match present(left, c.left_simulation_id) {
            Err(e) => Err(e),
            Ok(left) => match present(right, c.right_simulation_id) {
                Err(e) => Err(e),
                Ok(right) => difference(left, right),
            },
        }
    }
}

/// Compares the simulations that were found. The difference of the projected
/// ratios is left to the caller, being no whole number.
pub fn compare_simulations(
    command: &CompareSimulationsCommand,
    left: Result<Option<SimulationView>, SimulationAppError>,
    right: Result<Option<SimulationView>, SimulationAppError>,
) -> (r: Result<SimulationComparison, SimulationAppError>)
    ensures
        answered(r) == compared(command.deep_view(), answered(left), answered(right)),
{
    if is_blank(command.left_simulation_id.as_str()) || is_blank(
        command.right_simulation_id.as_str(),
    ) {
        return Err(
            SimulationAppError::new(
                SimulationAppErrorKind::InvalidRequest,
                "simulation IDs cannot be empty".to_owned(),
            ),
        );
    }
    let left = match present_view(left, command.left_simulation_id.as_str()) {
        Ok(view) => view,
        Err(e) => {
            return Err(e);
        },
    };
    let right = match present_view(right, command.right_simulation_id.as_str()) {
        Ok(view) => view,
        Err(e) => {
            return Err(e);
        },
    };
    let same = same_text(left.recommendation_id.as_str(), right.recommendation_id.as_str())
        && same_text(left.model_id.as_str(), right.model_id.as_str()) && same_text(
        left.model_version.as_str(),
        right.model_version.as_str(),
    );
    let delta: Option<i128> = match (&left.result, &right.result) {
        (Some(l), Some(r)) => if same {
            Some(
                r.projected.local_balance_msat as i128 - l.projected.local_balance_msat as i128,
            )
        } else {
            None
        },
        _ => None,
    };
    match delta {
        None => Err(
            SimulationAppError::new(
                SimulationAppErrorKind::IncompatibleSimulations,
                "simulations must be completed projections for the same recommendation and model".to_owned(),
            ),
        ),
        Some(delta) => if delta < i64::MIN as i128 || delta > i64::MAX as i128 {
            Err(
                SimulationAppError::new(
                    SimulationAppErrorKind::IncompatibleSimulations,
                    "projected balance difference exceeds the supported comparison range".to_owned(),
                ),
            )
        } else {
            Ok(
                SimulationComparison {
                    recommendation_id: left.recommendation_id.clone(),
                    left,
                    right,
                    projected_local_balance_delta_msat: delta as i64,
                    no_action_executed: true,
                },
            )
        },
    }
}

/// A request either shows a simulation, which is then stored with the two steps of
/// its life, or leaves the storage as it was when the request began.
pub proof fn lemma_requests_store_what_they_show(
    before: StorageModel,
    rec: SimulationRecordView,
    input: SimulationInputView,
    e: EvaluationView,
    completed_at: Timestamp,
    request_id: Seq<char>,
    end_id: Seq<char>,
)
    ensures
        ({
            let (after, answer) = concluded(
                before,
                before,
                rec,
                input,
                e,
                completed_at,
                request_id,
                end_id,
            );
            let shown = answer is Ok || answer->Err_0.simulation is Some;
            &&& !shown ==> after == before
            &&& shown ==> after.simulation_records == memory_storage::with_record(
                before.simulation_records,
                rec,
            ) && after.simulation_events == before.simulation_events + events_of(
                rec,
                request_id,
                end_id,
            ) && request_id != end_id
            &&& after == (StorageModel {
                simulation_records: after.simulation_records,
                simulation_events: after.simulation_events,
                ..before
            })
        }),
{
    let events = events_of(rec, request_id, end_id);
    let (after, answer) = concluded(
        before,
        before,
        rec,
        input,
        e,
        completed_at,
        request_id,
        end_id,
    );
    let once = before.simulation_events.push(events[0]);
    assert(once[once.len() - 1].id == request_id);
    if answer is Ok || answer->Err_0.simulation is Some {
        assert(after.simulation_events =~= before.simulation_events + events);
    }
}

/// No simulation that is shown has carried out an action, and a stale one is
/// never shown as completed.
pub proof fn lemma_views_claim_no_action(
    rec: SimulationRecordView,
    input: SimulationInputView,
    result: Option<SimulationResultView>,
    now: Timestamp,
)
    requires
        shown_as(rec, input, result, now) is Ok,
    ensures
        shown_as(rec, input, result, now)->Ok_0.no_action_executed,
        shown_as(rec, input, result, now)->Ok_0.stale ==> shown_as(
            rec,
            input,
            result,
            now,
        )->Ok_0.status != SimulationStatus::Completed,
{
}

/// An evaluation has a result or a reason why it has none, and never both. Stale
/// input comes to a result only where it is allowed, and input dated after the
/// request never does.
pub proof fn lemma_evaluations_are_reasoned(
    p: PreparedSimulationView,
    canonical: Seq<u8>,
    requested_at: Timestamp,
)
    ensures
        evaluation_of(p, canonical, requested_at).result is Some == (evaluation_of(
            p,
            canonical,
            requested_at,
        ).refusal is None),
        evaluation_of(p, canonical, requested_at).result is Some ==> !model::future_at(
            p.input,
            requested_at,
        ) && (model::stale_at(p.input, requested_at, freshness()) ==> p.allow_stale) && supported(
            p.recommendation,
        ) && model::refusal(p.input) is None,
{
}

/// What an evaluation leads to is stored with a status that fits whether it has a
/// result.
pub proof fn lemma_recorded_outcomes_are_consistent(
    id: Seq<char>,
    p: PreparedSimulationView,
    canonical: Seq<u8>,
    encoded: EncodedSimulationView,
    requested_at: Timestamp,
    completed_at: Timestamp,
)
    requires
        encoded.projection != JsonView::Null,
    ensures
        codec::outcome_refusal(
            record_of(
                id,
                p,
                model::input_hash_text(canonical),
                evaluation_of(p, canonical, requested_at),
                encoded,
                requested_at,
                completed_at,
            ),
        ) is None,
{
    reveal_strlit("completed");
    reveal_strlit("unsupported");
    reveal_strlit("invalid_input");
    reveal_strlit("failed");
    reveal_strlit("stale");
    assert("completed"@.len() == 9 && "unsupported"@.len() == 11 && "invalid_input"@.len() == 13
        && "failed"@.len() == 6 && "stale"@.len() == 5);
}

/// The name of a status denotes it.
pub proof fn lemma_status_reads_back(status: SimulationStatus)
    ensures
        status_named(status.name()) == Some(status),
{
    reveal_strlit("requested");
    reveal_strlit("completed");
    reveal_strlit("unsupported");
    reveal_strlit("invalid_input");
    reveal_strlit("failed");
    reveal_strlit("stale");
    assert("requested"@.len() == 9 && "completed"@.len() == 9 && "unsupported"@.len() == 11
        && "invalid_input"@.len() == 13 && "failed"@.len() == 6 && "stale"@.len() == 5);
    assert("requested"@[0] == 'r' && "completed"@[0] == 'c');
}

/// A command is taken exactly if each of its four names shows, its model is the
/// one there is, and its amount is some and can be told in millisatoshis. The
/// amount is that of a thousand millisatoshis to the satoshi.
pub proof fn lemma_which_commands_are_taken(c: CreateSimulationCommandView)
    ensures
        commanded_amount(c) is Ok <==> {
            &&& exists|i: int|
                0 <= i < c.recommendation_id.len() && !text::white(
                    #[trigger] c.recommendation_id[i],
                )
            &&& exists|i: int| 0 <= i < c.model_id.len() && !text::white(#[trigger] c.model_id[i])
            &&& exists|i: int|
                0 <= i < c.source_channel.len() && !text::white(#[trigger] c.source_channel[i])
            &&& exists|i: int|
                0 <= i < c.destination_channel.len() && !text::white(
                    #[trigger] c.destination_channel[i],
                )
            &&& c.model_id == MODEL_ID@
            &&& 0 < c.amount_sats
            &&& c.amount_sats * 1000 <= u64::MAX
        },
        commanded_amount(c) is Ok ==> commanded_amount(c)->Ok_0 == c.amount_sats * 1000,
        commanded_amount(c) is Err ==> commanded_amount(c)->Err_0.simulation is None && (
        commanded_amount(c)->Err_0.kind is InvalidRequest || commanded_amount(c)->Err_0.kind
            is UnknownModel),
        commanded_amount(c) is Err && commanded_amount(c)->Err_0.kind is UnknownModel ==> c.model_id
            != MODEL_ID@,
{
}

/// What was simulated before is shown again exactly if it has a result that can
/// be shown and is not stale, or stale input is allowed. It is simulated anew
/// exactly if it had no result for being stale, and stale input is allowed now.
/// Whatever else came of it is refused again.
pub proof fn lemma_what_is_shown_again(
    rec: SimulationRecordView,
    shown: Result<SimulationViewView, SimulationAppErrorView>,
    allow_stale: bool,
)
    ensures
        ({
            let s = settled_shown(rec, shown, allow_stale);
            &&& s is Reuse <==> shown is Ok && !(rec.projection is Null) && (shown->Ok_0.stale
                ==> allow_stale)
            &&& s is Reuse ==> s->Reuse_0 == shown->Ok_0
            &&& s is Evaluate <==> rec.projection is Null && rec.status == "stale"@ && allow_stale
            &&& s is Refuse && shown is Err ==> s->Refuse_0 == shown->Err_0
            &&& s is Refuse && shown is Ok ==> s->Refuse_0.simulation == Some(shown->Ok_0)
            &&& s is Refuse && shown is Ok && !(rec.projection is Null) ==> s->Refuse_0.kind
                is StaleInput
        }),
{
}

/// What refuses a request again tells by its kind how the first one ended.
pub proof fn lemma_kinds_follow_the_status(status: SimulationStatus)
    ensures
        kind_of(status) is UnsupportedRecommendation <==> status is Unsupported,
        kind_of(status) is StaleInput <==> status is Stale,
        kind_of(status) is ModelFailure <==> status is Failed,
        kind_of(status) is InvalidInput <==> status is InvalidInput || status is Requested
            || status is Completed,
{
}

/// A simulation that is shown is stale exactly if the snapshot of the finding's
/// channel is more than a quarter of an hour old; only then does a completed one
/// show as stale. Everything else is shown as it was stored. Moments are taken
/// to lie in no leap second.
pub proof fn lemma_what_a_view_shows(
    rec: SimulationRecordView,
    input: SimulationInputView,
    result: Option<SimulationResultView>,
    now: Timestamp,
)
    requires
        shown_as(rec, input, result, now) is Ok,
        now.nanos < 1_000_000_000,
        model::finding_snapshot(input).ts.nanos < 1_000_000_000,
    ensures
        ({
            let v = shown_as(rec, input, result, now)->Ok_0;
            let seen = model::finding_snapshot(input).ts;
            let stored = status_named(rec.status);
            &&& v.source_observed_at == seen
            &&& v.stale <==> (now.secs - seen.secs) * 1_000_000_000 + (now.nanos - seen.nanos)
                > 900 * 1_000_000_000
            &&& stored is Some
            &&& stored->0 is Completed && v.stale ==> v.status is Stale
            &&& !(stored->0 is Completed && v.stale) ==> v.status == stored->0
            &&& v.id == rec.id && v.recommendation_id == rec.action_id && v.finding_id
                == rec.finding_id && v.action_type == rec.action_type
            &&& v.model_id == rec.model_id && v.model_version == rec.model_version
                && v.input_hash == rec.input_hash && v.error_code == rec.error_code
            &&& v.parameters == input.parameters && v.result == result
            &&& result is Some ==> v.confidence == result->0.confidence
            &&& result is None ==> v.confidence is Unknown
            &&& rec.completed_at is None ==> v.completed_at is None
        }),
{
}

/// A simulation has a result exactly if the recommendation is to rebalance, the
/// snapshot is not dated after the request, the snapshot is at most a quarter of
/// an hour old or stale input is allowed, and the model has nothing against the
/// input. It is completed exactly if it has a result from a snapshot of that age.
/// Moments are taken to lie in no leap second.
pub proof fn lemma_what_comes_to_a_result(
    p: PreparedSimulationView,
    canonical: Seq<u8>,
    requested_at: Timestamp,
)
    requires
        requested_at.nanos < 1_000_000_000,
        model::finding_snapshot(p.input).ts.nanos < 1_000_000_000,
    ensures
        ({
            let e = evaluation_of(p, canonical, requested_at);
            let seen = model::finding_snapshot(p.input).ts;
            let age = (requested_at.secs - seen.secs) * 1_000_000_000 + (requested_at.nanos
                - seen.nanos);
            let rebalance = p.recommendation.action.action_type is RebalanceChannel;
            &&& e.result is Some <==> {
                &&& rebalance
                &&& age >= 0
                &&& age <= 900 * 1_000_000_000 || p.allow_stale
                &&& model::refusal(p.input) is None
            }
            &&& e.result is Some ==> e.result->0 == model::projection(p.input, canonical)
            &&& e.status is Completed <==> e.result is Some && age <= 900 * 1_000_000_000
            &&& !rebalance ==> e.status is Unsupported
            &&& rebalance && age < 0 ==> e.status is InvalidInput && e.refusal is Some
                && e.refusal->0.kind is FutureDatedInput
            &&& rebalance && age > 900 * 1_000_000_000 && !p.allow_stale ==> e.status is Stale
                && e.refusal is Some && e.refusal->0.kind is StaleInput
            &&& rebalance && age > 900 * 1_000_000_000 && e.result is Some ==> e.status is Stale
        }),
{
}

/// Two simulations can be compared exactly if both have a result, from one model
/// in one version for one recommendation, and their balances lie no further apart
/// than can be told. What is told is by how much the right one's projected balance
/// exceeds the left one's.
pub proof fn lemma_what_a_comparison_tells(left: SimulationViewView, right: SimulationViewView)
    ensures
        ({
            let r = difference(left, right);
            let delta = right.result->0.projected.local_balance_msat
                - left.result->0.projected.local_balance_msat;
            &&& r is Ok <==> {
                &&& left.result is Some && right.result is Some
                &&& left.recommendation_id == right.recommendation_id
                &&& left.model_id == right.model_id
                &&& left.model_version == right.model_version
                &&& -0x8000_0000_0000_0000 <= delta < 0x8000_0000_0000_0000
            }
            &&& r is Ok ==> {
                &&& r->Ok_0.projected_local_balance_delta_msat
                    + left.result->0.projected.local_balance_msat
                    == right.result->0.projected.local_balance_msat
                &&& r->Ok_0.left == left && r->Ok_0.right == right
                &&& r->Ok_0.recommendation_id == left.recommendation_id
                &&& r->Ok_0.no_action_executed
            }
            &&& r is Err ==> r->Err_0.kind is IncompatibleSimulations
        }),
{
}

/// Compared the other way round, two simulations differ by as much in the other
/// direction.
pub proof fn lemma_comparing_is_antisymmetric(left: SimulationViewView, right: SimulationViewView)
    requires
        difference(left, right) is Ok,
        difference(right, left) is Ok,
    ensures
        difference(left, right)->Ok_0.projected_local_balance_delta_msat + difference(
            right,
            left,
        )->Ok_0.projected_local_balance_delta_msat == 0,
{
}

/// Only simulations with identities that show are compared, the left one being
/// looked for first.
pub proof fn lemma_what_is_compared(
    c: CompareSimulationsCommandView,
    left: Result<Option<SimulationViewView>, SimulationAppErrorView>,
    right: Result<Option<SimulationViewView>, SimulationAppErrorView>,
)
    ensures
        ({
            let r = compared(c, left, right);
            let named = !text::blank(c.left_simulation_id) && !text::blank(c.right_simulation_id);
            &&& !named ==> r is Err && r->Err_0.kind is InvalidRequest
            &&& named && left is Err ==> r is Err && r->Err_0 == left->Err_0
            &&& named && left is Ok && left->Ok_0 is None ==> r is Err && r->Err_0.kind
                is SimulationNotFound && r->Err_0.message == "no simulation with id "@
                + c.left_simulation_id
            &&& named && left is Ok && left->Ok_0 is Some && right is Ok && right->Ok_0 is None
                ==> r is Err && r->Err_0.kind is SimulationNotFound && r->Err_0.message
                == "no simulation with id "@ + c.right_simulation_id
            &&& named && left is Ok && left->Ok_0 is Some && right is Ok && right->Ok_0 is Some
                ==> r == difference(left->Ok_0->0, right->Ok_0->0)
        }),
{
}

/// A finding gives a simulation its context exactly if it is there and active,
/// with a node and a channel whose names show and with a provenance; the context
/// is made of these.
pub proof fn lemma_what_a_context_takes(rec: RecommendationView, found: Option<FindingView>)
    ensures
        ({
            let r = context_of(rec, found);
            &&& r is Ok <==> {
                &&& found is Some
                &&& found->0.lifecycle is Active
                &&& found->0.node is Some && exists|i: int|
                    0 <= i < found->0.node->0.len() && !text::white(#[trigger] found->0.node->0[i])
                &&& found->0.provenance is Some
                &&& found->0.channel is Some && exists|i: int|
                    0 <= i < found->0.channel->0.len() && !text::white(
                        #[trigger] found->0.channel->0[i],
                    )
            }
            &&& r is Ok ==> {
                &&& Some(r->Ok_0.node_id) == found->0.node
                &&& Some(r->Ok_0.channel) == found->0.channel
                &&& Some(r->Ok_0.provenance) == found->0.provenance
                &&& r->Ok_0.direction == direction_in(found->0.evidence)
            }
            &&& found is None ==> r is Err && r->Err_0.kind is FindingNotFound
            &&& found is Some && !(found->0.lifecycle is Active) ==> r is Err && r->Err_0.kind
                is FindingInactive
        }),
{
}

/// The direction of a finding is what its first evidence of that name says, if
/// it says `outbound` or `inbound`.
pub proof fn lemma_the_first_direction_counts(evidence: Seq<EvidenceView>, first: EvidenceView)
    ensures
        direction_in(seq![]) is None,
        first.key != "direction"@ ==> direction_in(seq![first] + evidence) == direction_in(
            evidence,
        ),
        first.key == "direction"@ ==> {
            &&& direction_in(seq![first] + evidence) == Some(FindingDirection::Outbound)
                <==> first.value == JsonView::Text("outbound"@)
            &&& direction_in(seq![first] + evidence) == Some(FindingDirection::Inbound)
                <==> first.value == JsonView::Text("inbound"@)
        },
{
    reveal_strlit("outbound");
    reveal_strlit("inbound");
    assert("outbound"@.len() != "inbound"@.len());
    assert((seq![first] + evidence).skip(1) =~= evidence);
}

/// The snapshot that is taken of a channel is the one stored last of those of
/// that channel at that node.
pub proof fn lemma_the_last_snapshot_is_taken(
    m: StorageModel,
    s: ChannelSnapshotView,
    node: Seq<char>,
    channel: Seq<char>,
)
    ensures
        ({
            let after = StorageModel { channel_snapshots: m.channel_snapshots.push(s), ..m };
            &&& s.node_id == Some(node) && s.channel_id == channel ==> newest_snapshot(
                after,
                node,
                channel,
            ) == seq![s]
            &&& s.node_id != Some(node) || s.channel_id != channel ==> newest_snapshot(
                after,
                node,
                channel,
            ) == newest_snapshot(m, node, channel)
        }),
{
    let keep = |e: ChannelSnapshotView| e.node_id == Some(node) && e.channel_id == channel;
    memory_storage::lemma_newest_come_first(m.channel_snapshots, keep, s, 0);
    memory_storage::lemma_newest_come_first(m.channel_snapshots, keep, s, 1);
    assert(seq![s] + memory_storage::newest_where(m.channel_snapshots, keep, 0) =~= seq![s]);
}

/// What is made ready is about the recommendation and the finding it answers, as
/// both are stored, and about the two channels and the amount of the command, the
/// snapshots each in its own place.
pub proof fn lemma_what_is_made_ready(
    c: CreateSimulationCommandView,
    amount_msat: u64,
    rec: Option<RecommendationView>,
    found: Option<FindingView>,
    sources: Seq<ChannelSnapshotView>,
    destinations: Seq<ChannelSnapshotView>,
)
    ensures
        ({
            let r = prepared_from(c, amount_msat, rec, found, sources, destinations);
            &&& r is Ok <==> {
                &&& rec is Some
                &&& context_of(rec->0, found) is Ok
                &&& rec->0.action.target is Some && !text::blank(rec->0.action.target->0)
                &&& sources.len() > 0
                &&& destinations.len() > 0
            }
            &&& r is Ok ==> {
                let p = r->Ok_0;
                &&& p.recommendation == rec->0
                &&& p.allow_stale == c.allow_stale
                &&& p.input.recommendation_id == rec->0.action.id
                &&& Some(p.input.recommendation_target) == rec->0.action.target
                &&& p.input.action_type == rec->0.action.action_type
                &&& p.input.finding_id == rec->0.finding_id
                &&& Some(p.input.finding_channel) == found->0.channel
                &&& p.input.finding_direction == direction_in(found->0.evidence)
                &&& Some(p.input.node_id) == found->0.node
                &&& Some(p.input.provenance) == found->0.provenance
                &&& p.input.network == found->0.provenance->0.network
                &&& p.input.parameters.source_channel == c.source_channel
                &&& p.input.parameters.destination_channel == c.destination_channel
                &&& p.input.parameters.amount_msat == amount_msat
                &&& p.input.source_snapshot == sources[0]
                &&& p.input.destination_snapshot == destinations[0]
            }
            &&& rec is None ==> r is Err && r->Err_0.kind is RecommendationNotFound
            &&& r is Err && rec is Some && !(rec->0.action.action_type is RebalanceChannel)
                ==> r->Err_0.kind is UnsupportedRecommendation
        }),
{
}

/// What is stored of a simulation: what it was about, how it ended, and when. A
/// projection is stored exactly if there is a result, a code of an error exactly
/// if it was refused.
pub proof fn lemma_what_is_stored_of_a_run(
    id: Seq<char>,
    p: PreparedSimulationView,
    input_hash: Seq<char>,
    e: EvaluationView,
    encoded: EncodedSimulationView,
    requested_at: Timestamp,
    completed_at: Timestamp,
)
    ensures
        ({
            let r = record_of(id, p, input_hash, e, encoded, requested_at, completed_at);
            &&& r.id == id && r.input_hash == input_hash
            &&& r.action_id == p.recommendation.action.id
            &&& r.finding_id == p.recommendation.finding_id
            &&& r.action_type == p.recommendation.action.action_type.name()
            &&& status_named(r.status) == Some(e.status)
            &&& r.canonical_input == encoded.canonical_input
            &&& e.result is Some ==> r.projection == encoded.projection && r.assumptions
                == encoded.assumptions && r.warnings == encoded.warnings && r.confidence
                == e.result->0.confidence.name()
            &&& e.result is None ==> r.projection is Null && r.confidence == "unknown"@
            &&& e.refusal is Some ==> r.error_code == Some(e.refusal->0.code)
            &&& e.refusal is None ==> r.error_code is None
            &&& r.requested_at == r.created_at
            &&& r.requested_at == time::rfc3339_of(
                requested_at.secs,
                requested_at.nanos,
            )
            &&& r.completed_at == Some(time::rfc3339_of(completed_at.secs, completed_at.nanos))
            &&& r.source_observed_at == Some(
                time::rfc3339_of(
                    model::finding_snapshot(p.input).ts.secs,
                    model::finding_snapshot(p.input).ts.nanos,
                ),
            )
        }),
{
    lemma_status_reads_back(e.status);
}

/// A run has two events, both its own: it was requested, and it ended as its
/// record says.
pub proof fn lemma_what_events_a_run_has(
    rec: SimulationRecordView,
    request_id: Seq<char>,
    end_id: Seq<char>,
)
    ensures
        ({
            let events = events_of(rec, request_id, end_id);
            &&& events.len() == 2
            &&& events[0].id == request_id && events[1].id == end_id
            &&& events[0].simulation_id == rec.id && events[1].simulation_id == rec.id
            &&& status_named(events[0].status) == Some(SimulationStatus::Requested)
            &&& events[0].error_code is None && events[0].timestamp == rec.requested_at
            &&& events[1].status == rec.status && events[1].error_code == rec.error_code
            &&& rec.completed_at is Some ==> Some(events[1].timestamp) == rec.completed_at
        }),
{
}

/// A new simulation is shown as new, and a refused one with the kind and the words
/// of its refusal.
pub proof fn lemma_what_a_new_run_answers(
    shown: Result<SimulationViewView, SimulationAppErrorView>,
    e: EvaluationView,
)
    ensures
        ({
            let r = shown_answer(shown, e);
            &&& r is Ok <==> shown is Ok && e.refusal is None
            &&& r is Ok ==> !r->Ok_0.reused && r->Ok_0.simulation == shown->Ok_0
            &&& shown is Ok && e.refusal is Some ==> r->Err_0.kind == e.refusal->0.kind
                && r->Err_0.message == e.refusal->0.message && r->Err_0.simulation == Some(
                shown->Ok_0,
            )
            &&& shown is Err ==> r is Err && r->Err_0 == shown->Err_0
        }),
{
}

/// A list of simulations shows all of them in their order, or the first error
/// there is.
pub proof fn lemma_lists_show_all_or_the_first_error(
    all: Seq<DecodedSimulation>,
    one: DecodedSimulation,
    now: Timestamp,
)
    ensures
        views_of(seq![], now) is Ok && views_of(seq![], now)->Ok_0.len() == 0,
        views_of(all, now) is Err ==> views_of(all.push(one), now) == views_of(all, now),
        views_of(all, now) is Ok && view_of(one, now) is Ok ==> views_of(all.push(one), now) is Ok
            && views_of(all.push(one), now)->Ok_0 == views_of(all, now)->Ok_0.push(
            view_of(one, now)->Ok_0,
        ),
        views_of(all, now) is Ok && view_of(one, now) is Err ==> views_of(all.push(one), now)
            is Err && views_of(all.push(one), now)->Err_0 == view_of(one, now)->Err_0,
{
    assert(all.push(one).drop_last() =~= all);
}

/// A command is made ready from what is stored: the recommendation it names, the
/// finding that this answers, and the last snapshots of the two channels at the
/// finding's node.
pub proof fn lemma_commands_are_made_ready_from_storage(
    m: StorageModel,
    c: CreateSimulationCommandView,
    amount_msat: u64,
)
    ensures
        ({
            let r = prepared(m, c, amount_msat);
            let rec = memory_storage::recommendation_of(m.recommendations, c.recommendation_id);
            &&& rec is None ==> r is Err && r->Err_0.kind is RecommendationNotFound
            &&& r is Ok ==> {
                let p = r->Ok_0;
                let found = memory_storage::finding_of(m.findings, rec->0.finding_id);
                let node = found->0.node->0;
                &&& rec == Some(p.recommendation)
                &&& found is Some && found->0.lifecycle is Active && found->0.node is Some
                &&& p.input.node_id == node
                &&& newest_snapshot(m, node, c.source_channel).len() > 0
                &&& p.input.source_snapshot == newest_snapshot(m, node, c.source_channel)[0]
                &&& newest_snapshot(m, node, c.destination_channel).len() > 0
                &&& p.input.destination_snapshot == newest_snapshot(
                    m,
                    node,
                    c.destination_channel,
                )[0]
                &&& p.input.parameters.amount_msat == amount_msat
            }
        }),
{
}

/// A stored simulation is shown with a result exactly if it has a projection, and
/// the result is what that projection was read as. One whose input cannot be
/// read, or whose projection cannot, is not shown.
pub proof fn lemma_what_a_stored_run_shows(d: DecodedSimulation, now: Timestamp)
    ensures
        ({
            let r = view_of(d, now);
            let projected = !(d.record.deep_view().projection is Null);
            &&& r is Ok ==> d.input is Ok && (projected ==> d.result is Ok)
            &&& r is Ok && !projected ==> r->Ok_0.result is None
            &&& r is Ok && projected ==> r->Ok_0.result == Some(d.result->Ok_0.deep_view())
            &&& r is Ok ==> r->Ok_0.id == d.record.deep_view().id && r->Ok_0.parameters
                == d.input->Ok_0.deep_view().parameters
            &&& d.input is Err || (projected && d.result is Err) ==> r is Err && r->Err_0.kind
                is Storage
        }),
{
}

} // verus!
