//! How stored rows are read and written. What a row says that it cannot say is
//! an error, never a guess.
use crate::action::{
    Action, ActionStage, ActionType, ActionView, AuditEntry, AuditEntryView, Rationale,
    Recommendation, RecommendationView,
};
use crate::domain::{BitcoinNetwork, ChannelSnapshot, ChannelSnapshotView, ChannelStatus};
use crate::execution;
use crate::execution::stage_text;
use crate::finding;
use crate::finding::{
    Evidence, Finding, FindingLifecycle, FindingProvenance, FindingView, Severity,
    FINDING_SCHEMA_VERSION,
};
use crate::identity;
use crate::identity::status_tag;
use crate::json;
use crate::json::{pointer_text, text_field, value_field, Json, JsonView, Params};
use crate::model;
use crate::model::compute_input_hash;
use crate::ratio::Ratio;
use crate::records;
use crate::records::{
    AlertState, DeliveryStatus, SimulationEvent, SimulationEventView, SimulationRecord,
    SimulationRecordView, StorageError, StorageErrorView,
};
use crate::simulator::{Simulation, SimulationProjection, SimulationView};
use crate::status::{ComponentState, OperationalState, SourceState};
use crate::text;
use crate::text::{copy_optional_text, debug_text, same_text};
use crate::time;
use crate::time::{format_rfc3339, parse_rfc3339, shown_rfc3339, Timestamp, MAX_SECOND, MIN_SECOND};
use vstd::prelude::*;

verus! {

/// A column that does not say what it should.
#[derive(Debug, PartialEq, Eq)]
pub struct ColumnError {
    pub index: usize,
    pub message: String,
}

/// The mathematical value of a [`ColumnError`].
pub struct ColumnErrorView {
    pub index: nat,
    pub message: Seq<char>,
}

impl DeepView for ColumnError {
    type V = ColumnErrorView;

    open spec fn deep_view(&self) -> ColumnErrorView {
        ColumnErrorView { index: self.index as nat, message: self.message@ }
    }
}

/// The storage error that a bad column makes.
pub open spec fn column_corrupt(e: ColumnErrorView) -> StorageErrorView {
    StorageErrorView::Corrupt(
        "Conversion error from type Text at index: "@ + text::decimal(e.index) + ", "@ + e.message,
    )
}

impl ColumnError {
    /// The storage error that the bad column makes.
    pub fn into_storage_error(self) -> (r: StorageError)
        ensures
            r.deep_view() == column_corrupt(self.deep_view()),
    {
        StorageError::Corrupt(
            "Conversion error from type Text at index: ".to_owned().concat(
                text::u64_text(self.index as u64).as_str(),
            ).concat(", ").concat(self.message.as_str()),
        )
    }
}

fn column(index: usize, message: String) -> (r: ColumnError)
    ensures
        r.deep_view() == (ColumnErrorView { index: index as nat, message: message@ }),
{
    ColumnError { index, message }
}

/// What came of reading a point in time.
#[derive(Debug, PartialEq, Eq)]
pub enum TimeReading {
    At(Timestamp),
    Bad(String),
}

/// The mathematical value of a [`TimeReading`].
pub enum TimeReadingView {
    At(Timestamp),
    Bad(Seq<char>),
}

impl DeepView for TimeReading {
    type V = TimeReadingView;

    open spec fn deep_view(&self) -> TimeReadingView {
        match self {
            TimeReading::At(t) => TimeReadingView::At(*t),
            TimeReading::Bad(s) => TimeReadingView::Bad(s@),
        }
    }
}

/// The point in time that an RFC 3339 text denotes, or what is wrong with it.
pub open spec fn reading_of(s: Seq<char>) -> TimeReadingView {
    match time::rfc3339_moment(s) {
        Ok((secs, nanos)) => TimeReadingView::At(Timestamp { secs, nanos }),
        Err(message) => TimeReadingView::Bad(message),
    }
}

/// Reads a point in time.
pub fn read_time(s: &str) -> (r: TimeReading)
    ensures
        r.deep_view() == reading_of(s@),
{
    match parse_rfc3339(s) {
        Ok(t) => TimeReading::At(t),
        Err(message) => TimeReading::Bad(message),
    }
}

/// The point that a reading gave, if it gave one.
pub open spec fn moment_read(t: TimeReadingView) -> Option<Timestamp> {
    match t {
        TimeReadingView::At(t) => Some(t),
        TimeReadingView::Bad(_) => None,
    }
}

/// What is said of a time that cannot be read.
pub open spec fn bad_time(label: Seq<char>, s: Seq<char>, t: TimeReadingView) -> Option<Seq<char>> {
    match t {
        TimeReadingView::At(_) => None,
        TimeReadingView::Bad(message) => Some(
            "invalid "@ + label + " "@ + text::debug_text_of(s) + ": "@ + message,
        ),
    }
}

/// The point that a reading gave, or what is said of a time that cannot be read.
pub open spec fn time_or(label: Seq<char>, s: Seq<char>, t: TimeReadingView) -> Result<
    Timestamp,
    Seq<char>,
> {
    match t {
        TimeReadingView::At(t) => Ok(t),
        TimeReadingView::Bad(message) => Err(
            "invalid "@ + label + " "@ + text::debug_text_of(s) + ": "@ + message,
        ),
    }
}

/// A result whose error is a text, over mathematical values.
pub open spec fn with_message<T>(r: Result<T, String>) -> Result<T, Seq<char>> {
    match r {
        Ok(v) => Ok(v),
        Err(message) => Err(message@),
    }
}

/// The point that a reading of `s` gave, or what is said of it.
pub fn checked_time(label: &str, s: &str, reading: TimeReading) -> (r: Result<Timestamp, String>)
    ensures
        with_message(r) == time_or(label@, s@, reading.deep_view()),
{
    match reading {
        TimeReading::At(t) => Ok(t),
        TimeReading::Bad(message) => Err(
            "invalid ".to_owned().concat(label).concat(" ").concat(debug_text(s).as_str()).concat(
                ": ",
            ).concat(message.as_str()),
        ),
    }
}

/// The point in time that a text denotes, or what is said of it.
pub fn parse_ts(label: &str, s: &str) -> (r: Result<Timestamp, String>)
    ensures
        with_message(r) == time_or(label@, s@, reading_of(s@)),
{
    checked_time(label, s, read_time(s))
}

/// The point in time that a column denotes.
pub fn parse_persisted_timestamp(index: usize, label: &str, value: &str) -> (r: Result<
    Timestamp,
    ColumnError,
>)
    ensures
        match r {
            Ok(t) => time_or(label@, value@, reading_of(value@)) == Ok::<Timestamp, Seq<char>>(t),
            Err(e) => e.index == index && time_or(label@, value@, reading_of(value@)) == Err::<
                Timestamp,
                Seq<char>,
            >(e.message@),
        },
{
    match parse_ts(label, value) {
        Ok(t) => Ok(t),
        Err(message) => Err(ColumnError { index, message }),
    }
}

/// Checks that a text denotes a point in time.
pub fn validate_rfc3339(label: &str, timestamp: &str) -> (r: Result<(), StorageError>)
    ensures
        records::refused(r) == (match bad_time(label@, timestamp@, reading_of(timestamp@)) {
            Some(message) => Some(StorageErrorView::Corrupt(message)),
            None => None,
        }),
{
    match parse_ts(label, timestamp) {
        Ok(_) => Ok(()),
        Err(message) => Err(StorageError::Corrupt(message)),
    }
}

/// Whether the calendar reaches a point in time.
pub open spec fn writable(t: Timestamp) -> bool {
    MIN_SECOND <= t.secs <= MAX_SECOND && t.proper()
}

/// Whether a point in time is read back as it was written.
pub open spec fn readable(t: Timestamp) -> bool {
    time::FIRST_READABLE_SECOND <= t.secs <= time::LAST_READABLE_SECOND && t.proper()
}

/// Whether the calendar reaches a point in time.
pub fn is_writable(t: &Timestamp) -> (r: bool)
    ensures
        r == writable(*t),
{
    if t.secs < MIN_SECOND || MAX_SECOND < t.secs {
        return false;
    }
    let since: i64 = t.secs - MIN_SECOND;
    t.nanos < 1_000_000_000 || (t.nanos < 2_000_000_000 && since % 60 == 59)
}

/// Whether the calendar reaches an optional point in time.
pub open spec fn optional_writable(t: Option<Timestamp>) -> bool {
    t is Some ==> writable(t->0)
}

/// Whether an optional point in time is read back as it was written.
pub open spec fn optional_readable(t: Option<Timestamp>) -> bool {
    t is Some ==> readable(t->0)
}

/// The text that stands for a point in time.
pub fn time_text(t: &Timestamp) -> (r: String)
    requires
        writable(*t),
    ensures
        r@ == time::rfc3339_of(t.secs, t.nanos),
        readable(*t) ==> reading_of(r@) == TimeReadingView::At(*t),
{
    format_rfc3339(t)
}

/// The text that stands for an optional point in time.
pub open spec fn written_time(t: Option<Timestamp>) -> Option<Seq<char>> {
    match t {
        Some(t) => Some(time::rfc3339_of(t.secs, t.nanos)),
        None => None,
    }
}

fn optional_time_text(t: &Option<Timestamp>) -> (r: Option<String>)
    requires
        optional_writable(*t),
    ensures
        r.deep_view() == written_time(*t),
        optional_readable(*t) && r is Some ==> reading_of(r->0@) == TimeReadingView::At(t->0),
{
    match t {
        Some(t) => Some(time_text(t)),
        None => None,
    }
}

/// What is wrong with the schema version of a finding.
pub open spec fn schema_refusal(schema_version: int) -> Option<Seq<char>> {
    if 1 <= schema_version <= FINDING_SCHEMA_VERSION {
        None
    } else {
        Some("unsupported finding schema version "@ + text::decimal(schema_version as nat))
    }
}

/// Checks the schema version of a finding.
pub fn validate_finding_schema(schema_version: u8) -> (r: Result<(), StorageError>)
    ensures
        records::refused(r) == (match schema_refusal(schema_version as int) {
            Some(message) => Some(StorageErrorView::Corrupt(message)),
            None => None,
        }),
{
    if 1 <= schema_version && schema_version <= FINDING_SCHEMA_VERSION {
        Ok(())
    } else {
        Err(
            StorageError::Corrupt(
                "unsupported finding schema version ".to_owned().concat(
                    text::u64_text(schema_version as u64).as_str(),
                ),
            ),
        )
    }
}

/// The stage of this name.
pub open spec fn stage_named(value: Seq<char>) -> Option<ActionStage> {
    if value == "Recommended"@ {
        Some(ActionStage::Recommended)
    } else if value == "Simulated"@ {
        Some(ActionStage::Simulated)
    } else if value == "Approved"@ {
        Some(ActionStage::Approved)
    } else if value == "Executed"@ {
        Some(ActionStage::Executed)
    } else if value == "Rejected"@ {
        Some(ActionStage::Rejected)
    } else if value == "Failed"@ {
        Some(ActionStage::Failed)
    } else {
        None
    }
}

/// The stage of this name.
pub fn parse_action_stage(value: &str) -> (r: Result<ActionStage, String>)
    ensures
        with_message(r) == (match stage_named(value@) {
            Some(found) => Ok(found),
            None => Err("invalid action stage "@ + text::debug_text_of(value@)),
        }),
{
    if same_text(value, "Recommended") {
        Ok(ActionStage::Recommended)
    } else if same_text(value, "Simulated") {
        Ok(ActionStage::Simulated)
    } else if same_text(value, "Approved") {
        Ok(ActionStage::Approved)
    } else if same_text(value, "Executed") {
        Ok(ActionStage::Executed)
    } else if same_text(value, "Rejected") {
        Ok(ActionStage::Rejected)
    } else if same_text(value, "Failed") {
        Ok(ActionStage::Failed)
    } else {
        Err("invalid action stage ".to_owned().concat(debug_text(value).as_str()))
    }
}

/// The kind of action of this name.
pub open spec fn type_named(value: Seq<char>) -> Option<ActionType> {
    if value == "rebalance_channel"@ {
        Some(ActionType::RebalanceChannel)
    } else if value == "update_fee_policy"@ {
        Some(ActionType::UpdateFeePolicy)
    } else if value == "restart_service"@ {
        Some(ActionType::RestartService)
    } else if value == "custom"@ {
        Some(ActionType::Custom)
    } else {
        None
    }
}

/// The kind of action of this name.
pub fn parse_action_type(value: &str) -> (r: Result<ActionType, String>)
    ensures
        with_message(r) == (match type_named(value@) {
            Some(found) => Ok(found),
            None => Err("invalid action type "@ + text::debug_text_of(value@)),
        }),
{
    if same_text(value, "rebalance_channel") {
        Ok(ActionType::RebalanceChannel)
    } else if same_text(value, "update_fee_policy") {
        Ok(ActionType::UpdateFeePolicy)
    } else if same_text(value, "restart_service") {
        Ok(ActionType::RestartService)
    } else if same_text(value, "custom") {
        Ok(ActionType::Custom)
    } else {
        Err("invalid action type ".to_owned().concat(debug_text(value).as_str()))
    }
}

/// The component state of this name.
pub open spec fn component_named(value: Seq<char>) -> Option<ComponentState> {
    if value == "not_configured"@ {
        Some(ComponentState::NotConfigured)
    } else if value == "configured"@ {
        Some(ComponentState::Configured)
    } else if value == "healthy"@ {
        Some(ComponentState::Healthy)
    } else if value == "failing"@ {
        Some(ComponentState::Failing)
    } else {
        None
    }
}

/// The component state of this name.
pub fn parse_component(value: &str) -> (r: Result<ComponentState, String>)
    ensures
        with_message(r) == (match component_named(value@) {
            Some(found) => Ok(found),
            None => Err("invalid component state "@ + text::debug_text_of(value@)),
        }),
{
    if same_text(value, "not_configured") {
        Ok(ComponentState::NotConfigured)
    } else if same_text(value, "configured") {
        Ok(ComponentState::Configured)
    } else if same_text(value, "healthy") {
        Ok(ComponentState::Healthy)
    } else if same_text(value, "failing") {
        Ok(ComponentState::Failing)
    } else {
        Err("invalid component state ".to_owned().concat(debug_text(value).as_str()))
    }
}

/// The delivery outcome of this name.
pub open spec fn delivery_named(value: Seq<char>) -> Option<DeliveryStatus> {
    if value == "none"@ {
        Some(DeliveryStatus::Unsent)
    } else if value == "success"@ {
        Some(DeliveryStatus::Success)
    } else if value == "failed"@ {
        Some(DeliveryStatus::Failed)
    } else if value == "skipped"@ {
        Some(DeliveryStatus::Skipped)
    } else {
        None
    }
}

/// The delivery outcome of this name.
pub fn parse_delivery_status(value: &str) -> (r: Result<DeliveryStatus, String>)
    ensures
        with_message(r) == (match delivery_named(value@) {
            Some(found) => Ok(found),
            None => Err("invalid alert delivery status "@ + text::debug_text_of(value@)),
        }),
{
    if same_text(value, "none") {
        Ok(DeliveryStatus::Unsent)
    } else if same_text(value, "success") {
        Ok(DeliveryStatus::Success)
    } else if same_text(value, "failed") {
        Ok(DeliveryStatus::Failed)
    } else if same_text(value, "skipped") {
        Ok(DeliveryStatus::Skipped)
    } else {
        Err("invalid alert delivery status ".to_owned().concat(debug_text(value).as_str()))
    }
}

/// The name of a component state.
pub fn component_str(state: ComponentState) -> (r: &'static str)
    ensures
        r@ == state.name(),
{
    state.as_str()
}

/// Every name is read back as what it names.
pub proof fn lemma_names_read_back(
    stage: ActionStage,
    action_type: ActionType,
    component: ComponentState,
    delivery: DeliveryStatus,
)
    ensures
        stage_named(execution::stage_name(stage)) == Some(stage),
        type_named(action_type.name()) == Some(action_type),
        component_named(component.name()) == Some(component),
        delivery_named(delivery.name()) == Some(delivery),
{
    reveal_strlit("Recommended");
    reveal_strlit("Simulated");
    reveal_strlit("Approved");
    reveal_strlit("Executed");
    reveal_strlit("Rejected");
    reveal_strlit("Failed");
    reveal_strlit("rebalance_channel");
    reveal_strlit("update_fee_policy");
    reveal_strlit("restart_service");
    reveal_strlit("custom");
    reveal_strlit("not_configured");
    reveal_strlit("configured");
    reveal_strlit("healthy");
    reveal_strlit("failing");
    reveal_strlit("none");
    reveal_strlit("success");
    reveal_strlit("failed");
    reveal_strlit("skipped");
    assert("Recommended"@[0] == 'R' && "Recommended"@.len() == 11);
    assert("Simulated"@[0] == 'S');
    assert("Approved"@[0] == 'A');
    assert("Executed"@[0] == 'E');
    assert("Rejected"@[0] == 'R' && "Rejected"@.len() == 8);
    assert("Failed"@[0] == 'F');
    assert("rebalance_channel"@[0] == 'r' && "rebalance_channel"@.len() == 17);
    assert("update_fee_policy"@[0] == 'u');
    assert("restart_service"@[0] == 'r' && "restart_service"@.len() == 15);
    assert("custom"@[0] == 'c');
    assert("not_configured"@.len() == 14);
    assert("configured"@.len() == 10);
    assert("healthy"@[0] == 'h');
    assert("failing"@[0] == 'f' && "failing"@.len() == 7);
    assert("none"@.len() == 4);
    assert("success"@[1] == 'u' && "success"@.len() == 7);
    assert("failed"@.len() == 6);
    assert("skipped"@[1] == 'k');
}

/// The severity of this number.
pub open spec fn severity_numbered(v: i64) -> Option<Severity> {
    if v == 0 {
        Some(Severity::Info)
    } else if v == 1 {
        Some(Severity::Warning)
    } else if v == 2 {
        Some(Severity::Critical)
    } else {
        None
    }
}

/// The number of a severity.
pub open spec fn severity_number(severity: Severity) -> i64 {
    match severity {
        Severity::Info => 0,
        Severity::Warning => 1,
        Severity::Critical => 2,
    }
}

/// The number of a severity.
pub fn severity_to_int(severity: Severity) -> (r: i64)
    ensures
        r == severity_number(severity),
{
    match severity {
        Severity::Info => 0,
        Severity::Warning => 1,
        Severity::Critical => 2,
    }
}

fn severity_of(v: i64) -> (r: Option<Severity>)
    ensures
        r == severity_numbered(v),
{
    if v == 0 {
        Some(Severity::Info)
    } else if v == 1 {
        Some(Severity::Warning)
    } else if v == 2 {
        Some(Severity::Critical)
    } else {
        None
    }
}

/// The severity of an alert of this number.
pub fn severity_from_int(v: i64) -> (r: Result<Severity, String>)
    ensures
        with_message(r) == (match severity_numbered(v) {
            Some(s) => Ok(s),
            None => Err("invalid alert severity "@ + text::signed_decimal(v as int)),
        }),
{
    match severity_of(v) {
        Some(s) => Ok(s),
        None => Err("invalid alert severity ".to_owned().concat(text::i64_text(v).as_str())),
    }
}

/// The channel status of this number.
pub open spec fn status_numbered(v: u32) -> Option<ChannelStatus> {
    if v == 0 {
        Some(ChannelStatus::Opening)
    } else if v == 1 {
        Some(ChannelStatus::Active)
    } else if v == 2 {
        Some(ChannelStatus::Inactive)
    } else if v == 3 {
        Some(ChannelStatus::Closing)
    } else if v == 4 {
        Some(ChannelStatus::Closed)
    } else if v == 5 {
        Some(ChannelStatus::PendingOpen)
    } else if v == 6 {
        Some(ChannelStatus::WaitingClose)
    } else if v == 7 {
        Some(ChannelStatus::ForceClosing)
    } else if v == 8 {
        Some(ChannelStatus::Unknown)
    } else {
        None
    }
}

/// The channel status of this number.
pub fn status_from_i64(v: u32) -> (r: Result<ChannelStatus, String>)
    ensures
        with_message(r) == (match status_numbered(v) {
            Some(s) => Ok(s),
            None => Err("invalid channel status "@ + text::decimal(v as nat)),
        }),
{
    match v {
        0 => Ok(ChannelStatus::Opening),
        1 => Ok(ChannelStatus::Active),
        2 => Ok(ChannelStatus::Inactive),
        3 => Ok(ChannelStatus::Closing),
        4 => Ok(ChannelStatus::Closed),
        5 => Ok(ChannelStatus::PendingOpen),
        6 => Ok(ChannelStatus::WaitingClose),
        7 => Ok(ChannelStatus::ForceClosing),
        8 => Ok(ChannelStatus::Unknown),
        _ => Err("invalid channel status ".to_owned().concat(text::u64_text(v as u64).as_str())),
    }
}

/// The number under which a channel status is stored is read back as the status.
pub proof fn lemma_status_numbers_read_back(status: ChannelStatus)
    ensures
        status_numbered(identity::status_code(status) as u32) == Some(status),
{
}

/// Whether a text is the name of a simulation status.
pub open spec fn status_known(status: Seq<char>) -> bool {
    status == "requested"@ || status == "completed"@ || status == "unsupported"@ || status
        == "invalid_input"@ || status == "stale"@ || status == "failed"@
}

/// What is wrong with the status of a simulation.
pub open spec fn status_refusal(status: Seq<char>) -> Option<Seq<char>> {
    if status_known(status) {
        None
    } else {
        Some("invalid simulation status "@ + text::debug_text_of(status))
    }
}

/// Checks the status of a simulation.
pub fn validate_simulation_status(status: &str) -> (r: Result<(), StorageError>)
    ensures
        records::refused(r) == (match status_refusal(status@) {
            Some(message) => Some(StorageErrorView::Corrupt(message)),
            None => None,
        }),
{
    if same_text(status, "requested") || same_text(status, "completed") || same_text(
        status,
        "unsupported",
    ) || same_text(status, "invalid_input") || same_text(status, "stale") || same_text(
        status,
        "failed",
    ) {
        Ok(())
    } else {
        Err(
            StorageError::Corrupt(
                "invalid simulation status ".to_owned().concat(debug_text(status).as_str()),
            ),
        )
    }
}

/// Whether a text is the name of a confidence.
pub open spec fn confidence_known(confidence: Seq<char>) -> bool {
    confidence == "high"@ || confidence == "medium"@ || confidence == "low"@ || confidence
        == "unknown"@
}

fn is_confidence(confidence: &str) -> (r: bool)
    ensures
        r == confidence_known(confidence@),
{
    same_text(confidence, "high") || same_text(confidence, "medium") || same_text(
        confidence,
        "low",
    ) || same_text(confidence, "unknown")
}

/// The source of this name and connection state.
pub open spec fn source_named(s: Seq<char>, connected: Option<i64>) -> Result<
    SourceState,
    Seq<char>,
> {
    if s == "lnd_rest"@ {
        if connected == Some(0i64) {
            Ok(SourceState::LndRest { connected: false })
        } else if connected == Some(1i64) {
            Ok(SourceState::LndRest { connected: true })
        } else {
            Err("lnd_rest source must have a boolean connection state"@)
        }
    } else if s == "btcpay_greenfield"@ {
        if connected == Some(0i64) {
            Ok(SourceState::BtcPayGreenfield { connected: false })
        } else if connected == Some(1i64) {
            Ok(SourceState::BtcPayGreenfield { connected: true })
        } else {
            Err("btcpay_greenfield source must have a boolean connection state"@)
        }
    } else if s == "fixture"@ {
        if connected is None {
            Ok(SourceState::Fixture)
        } else {
            Err("fixture source cannot have a connection state"@)
        }
    } else {
        Err("invalid operational source "@ + text::debug_text_of(s))
    }
}

/// The source of this name and connection state.
pub fn parse_source(s: &str, connected: Option<i64>) -> (r: Result<SourceState, String>)
    ensures
        with_message(r) == source_named(s@, connected),
{
    if same_text(s, "lnd_rest") {
        match connected {
            Some(0) => Ok(SourceState::LndRest { connected: false }),
            Some(1) => Ok(SourceState::LndRest { connected: true }),
            _ => Err("lnd_rest source must have a boolean connection state".to_owned()),
        }
    } else if same_text(s, "btcpay_greenfield") {
        match connected {
            Some(0) => Ok(SourceState::BtcPayGreenfield { connected: false }),
            Some(1) => Ok(SourceState::BtcPayGreenfield { connected: true }),
            _ => Err("btcpay_greenfield source must have a boolean connection state".to_owned()),
        }
    } else if same_text(s, "fixture") {
        match connected {
            None => Ok(SourceState::Fixture),
            Some(_) => Err("fixture source cannot have a connection state".to_owned()),
        }
    } else {
        Err("invalid operational source ".to_owned().concat(debug_text(s).as_str()))
    }
}

/// The connection state that is stored with a source.
pub open spec fn connection_of(source: SourceState) -> Option<i64> {
    match source {
        SourceState::Fixture => None,
        SourceState::LndRest { connected } => Some(
            if connected {
                1
            } else {
                0
            },
        ),
        SourceState::BtcPayGreenfield { connected } => Some(
            if connected {
                1
            } else {
                0
            },
        ),
    }
}

/// A source is read back as it was written.
pub proof fn lemma_source_reads_back(source: SourceState)
    ensures
        source_named(source.name(), connection_of(source)) == Ok::<SourceState, Seq<char>>(source),
{
    reveal_strlit("lnd_rest");
    reveal_strlit("btcpay_greenfield");
    reveal_strlit("fixture");
    assert("lnd_rest"@.len() == 8);
    assert("btcpay_greenfield"@.len() == 17);
    assert("fixture"@.len() == 7);
}

/// The network of this name.
pub open spec fn network_named(s: Seq<char>) -> Option<BitcoinNetwork> {
    if s == BitcoinNetwork::Mainnet.name() {
        Some(BitcoinNetwork::Mainnet)
    } else if s == BitcoinNetwork::Testnet.name() {
        Some(BitcoinNetwork::Testnet)
    } else if s == BitcoinNetwork::Signet.name() {
        Some(BitcoinNetwork::Signet)
    } else if s == BitcoinNetwork::Regtest.name() {
        Some(BitcoinNetwork::Regtest)
    } else {
        None
    }
}

fn network_of(s: &str) -> (r: Option<BitcoinNetwork>)
    ensures
        r == network_named(s@),
{
    if same_text(s, BitcoinNetwork::Mainnet.as_str()) {
        Some(BitcoinNetwork::Mainnet)
    } else if same_text(s, BitcoinNetwork::Testnet.as_str()) {
        Some(BitcoinNetwork::Testnet)
    } else if same_text(s, BitcoinNetwork::Signet.as_str()) {
        Some(BitcoinNetwork::Signet)
    } else if same_text(s, BitcoinNetwork::Regtest.as_str()) {
        Some(BitcoinNetwork::Regtest)
    } else {
        None
    }
}

/// A row of the findings, with its JSON columns read.
#[derive(Debug, PartialEq)]
pub struct FindingRow {
    pub id: String,
    pub detector: String,
    pub severity: i64,
    pub node: Option<String>,
    pub channel: Option<String>,
    pub evidence: Result<Vec<Evidence>, String>,
    pub explanation: Option<String>,
    pub ts: String,
    pub detector_version: Option<String>,
    pub schema_version: i64,
    pub first_seen_at: String,
    pub last_seen_at: String,
    pub lifecycle: String,
    /// The JSON text of the provenance.
    pub provenance: Option<String>,
    /// What came of reading it.
    pub provenance_read: Result<Option<FindingProvenance>, String>,
}

/// The times of a row of the findings.
pub struct FindingTimes {
    pub ts: TimeReading,
    pub first_seen_at: TimeReading,
    pub last_seen_at: TimeReading,
}

/// The mathematical value of [`FindingTimes`].
pub struct FindingTimesView {
    pub ts: TimeReadingView,
    pub first_seen_at: TimeReadingView,
    pub last_seen_at: TimeReadingView,
}

impl DeepView for FindingTimes {
    type V = FindingTimesView;

    open spec fn deep_view(&self) -> FindingTimesView {
        FindingTimesView {
            ts: self.ts.deep_view(),
            first_seen_at: self.first_seen_at.deep_view(),
            last_seen_at: self.last_seen_at.deep_view(),
        }
    }
}

/// The times that a row of the findings names.
pub open spec fn finding_times(row: FindingRow) -> FindingTimesView {
    FindingTimesView {
        ts: reading_of(row.ts@),
        first_seen_at: reading_of(row.first_seen_at@),
        last_seen_at: reading_of(row.last_seen_at@),
    }
}

/// The lifecycle of this name.
pub open spec fn lifecycle_named(s: Seq<char>) -> Option<FindingLifecycle> {
    if s == "active"@ {
        Some(FindingLifecycle::Active)
    } else if s == "resolved"@ {
        Some(FindingLifecycle::Resolved)
    } else {
        None
    }
}

/// The name of a lifecycle.
pub open spec fn lifecycle_name(lifecycle: FindingLifecycle) -> Seq<char> {
    match lifecycle {
        FindingLifecycle::Active => "active"@,
        FindingLifecycle::Resolved => "resolved"@,
    }
}

/// The name of a lifecycle.
pub fn lifecycle_text(lifecycle: FindingLifecycle) -> (r: &'static str)
    ensures
        r@ == lifecycle_name(lifecycle),
{
    match lifecycle {
        FindingLifecycle::Active => "active",
        FindingLifecycle::Resolved => "resolved",
    }
}

/// A bad column.
pub open spec fn bad_column(index: nat, message: Seq<char>) -> ColumnErrorView {
    ColumnErrorView { index, message }
}

/// The first column of a row of the findings that says what it cannot say.
pub open spec fn finding_refusal(row: FindingRow, t: FindingTimesView) -> Option<ColumnErrorView> {
    if severity_numbered(row.severity) is None {
        Some(bad_column(2, "invalid severity "@ + text::signed_decimal(row.severity as int)))
    } else if row.evidence is Err {
        Some(bad_column(5, row.evidence->Err_0@))
    } else if t.ts is Bad {
        Some(bad_column(7, time_or("timestamp"@, row.ts@, t.ts)->Err_0))
    } else if !(0 <= row.schema_version <= 255) {
        Some(
            bad_column(
                9,
                "invalid schema version "@ + text::signed_decimal(row.schema_version as int),
            ),
        )
    } else if schema_refusal(row.schema_version as int) is Some {
        Some(
            bad_column(9, "corrupt record: "@ + schema_refusal(row.schema_version as int)->0),
        )
    } else if t.first_seen_at is Bad {
        Some(
            bad_column(
                10,
                time_or("first_seen_at"@, row.first_seen_at@, t.first_seen_at)->Err_0,
            ),
        )
    } else if t.last_seen_at is Bad {
        Some(
            bad_column(11, time_or("last_seen_at"@, row.last_seen_at@, t.last_seen_at)->Err_0),
        )
    } else if lifecycle_named(row.lifecycle@) is None {
        Some(bad_column(12, "invalid lifecycle "@ + text::debug_text_of(row.lifecycle@)))
    } else if row.provenance_read is Err {
        Some(
            bad_column(
                13,
                "invalid provenance "@ + text::debug_text_of(
                    finding::or_empty(row.provenance.deep_view()),
                ) + ": "@ + row.provenance_read->Err_0@,
            ),
        )
    } else {
        None
    }
}

/// The finding that a row holds, all of whose columns say what they can.
pub open spec fn row_finding(row: FindingRow, t: FindingTimesView) -> FindingView {
    FindingView {
        id: row.id@,
        detector: row.detector@,
        detector_version: match row.detector_version {
            Some(version) => version@,
            None => "1"@,
        },
        schema_version: row.schema_version as u8,
        severity: severity_numbered(row.severity)->0,
        node: row.node.deep_view(),
        channel: row.channel.deep_view(),
        evidence: row.evidence->Ok_0.deep_view(),
        provenance: row.provenance_read->Ok_0.deep_view(),
        explanation: row.explanation.deep_view(),
        timestamp: moment_read(t.ts)->0,
        first_seen_at: moment_read(t.first_seen_at)->0,
        last_seen_at: moment_read(t.last_seen_at)->0,
        lifecycle: lifecycle_named(row.lifecycle@)->0,
    }
}

/// The finding that a row holds, its times having been read.
pub fn finding_from_row(row: FindingRow, times: FindingTimes) -> (r: Result<Finding, ColumnError>)
    ensures
        match r {
            Ok(f) => finding_refusal(row, times.deep_view()) is None && f.deep_view()
                == row_finding(row, times.deep_view()),
            Err(e) => finding_refusal(row, times.deep_view()) == Some(e.deep_view()),
        },
{
    let severity = match severity_of(row.severity) {
        Some(severity) => severity,
        None => {
            return Err(
                column(
                    2,
                    "invalid severity ".to_owned().concat(text::i64_text(row.severity).as_str()),
                ),
            );
        },
    };
    let evidence = match row.evidence {
        Ok(evidence) => evidence,
        Err(message) => {
            return Err(column(5, message));
        },
    };
    let timestamp = match checked_time("timestamp", row.ts.as_str(), times.ts) {
        Ok(t) => t,
        Err(message) => {
            return Err(column(7, message));
        },
    };
    if row.schema_version < 0 || row.schema_version > 255 {
        return Err(
            column(
                9,
                "invalid schema version ".to_owned().concat(
                    text::i64_text(row.schema_version).as_str(),
                ),
            ),
        );
    }
    let schema_version: u8 = row.schema_version as u8;
    if let Err(e) = validate_finding_schema(schema_version) {
        return Err(column(9, e.to_text()));
    }
    let first_seen_at = match checked_time(
        "first_seen_at",
        row.first_seen_at.as_str(),
        times.first_seen_at,
    ) {
        Ok(t) => t,
        Err(message) => {
            return Err(column(10, message));
        },
    };
    let last_seen_at = match checked_time(
        "last_seen_at",
        row.last_seen_at.as_str(),
        times.last_seen_at,
    ) {
        Ok(t) => t,
        Err(message) => {
            return Err(column(11, message));
        },
    };
    let lifecycle = if same_text(row.lifecycle.as_str(), "active") {
        FindingLifecycle::Active
    } else if same_text(row.lifecycle.as_str(), "resolved") {
        FindingLifecycle::Resolved
    } else {
        return Err(
            column(
                12,
                "invalid lifecycle ".to_owned().concat(debug_text(row.lifecycle.as_str()).as_str()),
            ),
        );
    };
    let provenance = match row.provenance_read {
        Ok(provenance) => provenance,
        Err(message) => {
            let raw = match &row.provenance {
                Some(raw) => raw.clone(),
                None => String::new(),
            };
            return Err(
                column(
                    13,
                    "invalid provenance ".to_owned().concat(debug_text(raw.as_str()).as_str()).concat(
                        ": ",
                    ).concat(message.as_str()),
                ),
            );
        },
    };
    let detector_version = match row.detector_version {
        Some(version) => version,
        None => "1".to_owned(),
    };
    Ok(
        Finding {
            id: row.id,
            detector: row.detector,
            detector_version,
            schema_version,
            severity,
            node: row.node,
            channel: row.channel,
            evidence,
            provenance,
            explanation: row.explanation,
            timestamp,
            first_seen_at,
            last_seen_at,
            lifecycle,
        },
    )
}

/// The finding that a row holds.
pub fn decode_finding(row: FindingRow) -> (r: Result<Finding, ColumnError>)
    ensures
        match r {
            Ok(f) => finding_refusal(row, finding_times(row)) is None && f.deep_view()
                == row_finding(row, finding_times(row)),
            Err(e) => finding_refusal(row, finding_times(row)) == Some(e.deep_view()),
        },
{
    let times = FindingTimes {
        ts: read_time(row.ts.as_str()),
        first_seen_at: read_time(row.first_seen_at.as_str()),
        last_seen_at: read_time(row.last_seen_at.as_str()),
    };
    finding_from_row(row, times)
}

/// Whether a row holds a finding, with its provenance as text.
pub open spec fn holds_finding(r: FindingRow, f: FindingView, provenance: Option<String>) -> bool {
    &&& r.id@ == f.id
    &&& r.detector@ == f.detector
    &&& r.severity == severity_number(f.severity)
    &&& r.node.deep_view() == f.node
    &&& r.channel.deep_view() == f.channel
    &&& r.evidence matches Ok(evidence) && evidence.deep_view() == f.evidence
    &&& r.explanation.deep_view() == f.explanation
    &&& r.ts@ == time::rfc3339_of(f.timestamp.secs, f.timestamp.nanos)
    &&& r.detector_version.deep_view() == Some(f.detector_version)
    &&& r.schema_version == f.schema_version
    &&& r.first_seen_at@ == time::rfc3339_of(f.first_seen_at.secs, f.first_seen_at.nanos)
    &&& r.last_seen_at@ == time::rfc3339_of(f.last_seen_at.secs, f.last_seen_at.nanos)
    &&& r.lifecycle@ == lifecycle_name(f.lifecycle)
    &&& r.provenance == provenance
    &&& r.provenance_read matches Ok(read) && read.deep_view() == f.provenance
}

/// The row that holds a finding; `provenance` is the JSON text of its provenance.
/// Reading the row gives the finding back.
pub fn encode_finding(finding: &Finding, provenance: Option<String>) -> (r: FindingRow)
    requires
        writable(finding.timestamp),
        writable(finding.first_seen_at),
        writable(finding.last_seen_at),
    ensures
        holds_finding(r, finding.deep_view(), provenance),
        readable(finding.timestamp) && readable(finding.first_seen_at) && readable(
            finding.last_seen_at,
        ) && schema_refusal(finding.schema_version as int) is None ==> finding_refusal(
            r,
            finding_times(r),
        ) is None && row_finding(r, finding_times(r)) == finding.deep_view(),
{
    let evidence = finding.evidence.clone();
    assert(evidence.deep_view() =~= finding.evidence.deep_view());
    proof {
        reveal_strlit("active");
        reveal_strlit("resolved");
        assert("active"@.len() == 6);
        assert("resolved"@.len() == 8);
    }
    FindingRow {
        id: finding.id.clone(),
        detector: finding.detector.clone(),
        severity: severity_to_int(finding.severity),
        node: copy_optional_text(&finding.node),
        channel: copy_optional_text(&finding.channel),
        evidence: Ok(evidence),
        explanation: copy_optional_text(&finding.explanation),
        ts: time_text(&finding.timestamp),
        detector_version: Some(finding.detector_version.clone()),
        schema_version: finding.schema_version as i64,
        first_seen_at: time_text(&finding.first_seen_at),
        last_seen_at: time_text(&finding.last_seen_at),
        lifecycle: lifecycle_text(finding.lifecycle).to_owned(),
        provenance,
        provenance_read: Ok(finding.provenance.clone()),
    }
}

/// A row of the recommendations, with its JSON columns read.
#[derive(Debug, PartialEq)]
pub struct RecommendationRow {
    pub finding_id: String,
    pub action_id: String,
    pub action_type: String,
    pub stage: String,
    pub target: Option<String>,
    pub params: Result<Params, String>,
    pub summary: String,
    pub rationale: Result<Rationale, String>,
    pub created_at: String,
    pub updated_at: String,
}

/// The first column of a row of the recommendations that says what it cannot
/// say, where its times read so.
pub open spec fn recommendation_refusal(
    row: RecommendationRow,
    created: TimeReadingView,
    updated: TimeReadingView,
) -> Option<ColumnErrorView> {
    if type_named(row.action_type@) is None {
        Some(bad_column(2, "invalid action type "@ + text::debug_text_of(row.action_type@)))
    } else if stage_named(row.stage@) is None {
        Some(bad_column(3, "invalid action stage "@ + text::debug_text_of(row.stage@)))
    } else if row.params is Err {
        Some(bad_column(5, "invalid recommendation params: "@ + row.params->Err_0@))
    } else if row.rationale is Err {
        Some(bad_column(7, "invalid recommendation rationale: "@ + row.rationale->Err_0@))
    } else if created is Bad {
        Some(
            bad_column(8, time_or("recommendation created_at"@, row.created_at@, created)->Err_0),
        )
    } else if updated is Bad {
        Some(
            bad_column(9, time_or("recommendation updated_at"@, row.updated_at@, updated)->Err_0),
        )
    } else {
        None
    }
}

/// The recommendation that a row holds, all of whose columns say what they can.
pub open spec fn row_recommendation(
    row: RecommendationRow,
    created: TimeReadingView,
    updated: TimeReadingView,
) -> RecommendationView {
    RecommendationView {
        finding_id: row.finding_id@,
        action: ActionView {
            id: row.action_id@,
            action_type: type_named(row.action_type@)->0,
            stage: stage_named(row.stage@)->0,
            target: row.target.deep_view(),
            params: row.params->Ok_0.deep_view(),
            summary: row.summary@,
            created_at: moment_read(created)->0,
            updated_at: moment_read(updated)->0,
        },
        rationale: row.rationale->Ok_0.deep_view(),
    }
}

/// The recommendation that a row holds, its times having been read.
pub fn recommendation_from_row(
    row: RecommendationRow,
    created: TimeReading,
    updated: TimeReading,
) -> (r: Result<Recommendation, ColumnError>)
    ensures
        match r {
            Ok(found) => recommendation_refusal(row, created.deep_view(), updated.deep_view())
                is None && found.deep_view() == row_recommendation(
                row,
                created.deep_view(),
                updated.deep_view(),
            ),
            Err(e) => recommendation_refusal(row, created.deep_view(), updated.deep_view())
                == Some(e.deep_view()),
        },
{
    let action_type = match parse_action_type(row.action_type.as_str()) {
        Ok(t) => t,
        Err(message) => {
            return Err(column(2, message));
        },
    };
    let stage = match parse_action_stage(row.stage.as_str()) {
        Ok(s) => s,
        Err(message) => {
            return Err(column(3, message));
        },
    };
    let params = match row.params {
        Ok(params) => params,
        Err(message) => {
            return Err(
                column(
                    5,
                    "invalid recommendation params: ".to_owned().concat(message.as_str()),
                ),
            );
        },
    };
    let rationale = match row.rationale {
        Ok(rationale) => rationale,
        Err(message) => {
            return Err(
                column(
                    7,
                    "invalid recommendation rationale: ".to_owned().concat(message.as_str()),
                ),
            );
        },
    };
    let created_at = match checked_time(
        "recommendation created_at",
        row.created_at.as_str(),
        created,
    ) {
        Ok(t) => t,
        Err(message) => {
            return Err(column(8, message));
        },
    };
    let updated_at = match checked_time(
        "recommendation updated_at",
        row.updated_at.as_str(),
        updated,
    ) {
        Ok(t) => t,
        Err(message) => {
            return Err(column(9, message));
        },
    };
    Ok(
        Recommendation {
            finding_id: row.finding_id,
            action: Action {
                id: row.action_id,
                action_type,
                stage,
                target: row.target,
                params,
                summary: row.summary,
                created_at,
                updated_at,
            },
            rationale,
        },
    )
}

/// The recommendation that a row holds.
pub fn decode_recommendation(row: RecommendationRow) -> (r: Result<Recommendation, ColumnError>)
    ensures
        match r {
            Ok(found) => recommendation_refusal(
                row,
                reading_of(row.created_at@),
                reading_of(row.updated_at@),
            ) is None && found.deep_view() == row_recommendation(
                row,
                reading_of(row.created_at@),
                reading_of(row.updated_at@),
            ),
            Err(e) => recommendation_refusal(
                row,
                reading_of(row.created_at@),
                reading_of(row.updated_at@),
            ) == Some(e.deep_view()),
        },
{
    let created = read_time(row.created_at.as_str());
    let updated = read_time(row.updated_at.as_str());
    recommendation_from_row(row, created, updated)
}

/// Whether a row holds a recommendation.
pub open spec fn holds_recommendation(r: RecommendationRow, rec: RecommendationView) -> bool {
    &&& r.finding_id@ == rec.finding_id
    &&& r.action_id@ == rec.action.id
    &&& r.action_type@ == rec.action.action_type.name()
    &&& r.stage@ == execution::stage_name(rec.action.stage)
    &&& r.target.deep_view() == rec.action.target
    &&& r.params matches Ok(params) && params.deep_view() == rec.action.params
    &&& r.summary@ == rec.action.summary
    &&& r.rationale matches Ok(rationale) && rationale.deep_view() == rec.rationale
    &&& r.created_at@ == time::rfc3339_of(rec.action.created_at.secs, rec.action.created_at.nanos)
    &&& r.updated_at@ == time::rfc3339_of(rec.action.updated_at.secs, rec.action.updated_at.nanos)
}

/// The row that holds a recommendation. Reading it gives the recommendation back.
pub fn encode_recommendation(rec: &Recommendation) -> (r: RecommendationRow)
    requires
        writable(rec.action.created_at),
        writable(rec.action.updated_at),
    ensures
        holds_recommendation(r, rec.deep_view()),
        readable(rec.action.created_at) && readable(rec.action.updated_at)
            ==> recommendation_refusal(
            r,
            reading_of(r.created_at@),
            reading_of(r.updated_at@),
        ) is None && row_recommendation(
            r,
            reading_of(r.created_at@),
            reading_of(r.updated_at@),
        ) == rec.deep_view(),
{
    proof {
        lemma_names_read_back(
            rec.action.stage,
            rec.action.action_type,
            ComponentState::Healthy,
            DeliveryStatus::Unsent,
        );
    }
    RecommendationRow {
        finding_id: rec.finding_id.clone(),
        action_id: rec.action.id.clone(),
        action_type: rec.action.action_type.as_str().to_owned(),
        stage: stage_text(rec.action.stage).to_owned(),
        target: copy_optional_text(&rec.action.target),
        params: Ok(rec.action.params.clone()),
        summary: rec.action.summary.clone(),
        rationale: Ok(rec.rationale.clone()),
        created_at: time_text(&rec.action.created_at),
        updated_at: time_text(&rec.action.updated_at),
    }
}

/// A row of the channel snapshots.
#[derive(Debug, PartialEq)]
pub struct SnapshotRow {
    pub channel_id: String,
    pub ts: String,
    pub local_ratio: Ratio,
    pub local_balance_msat: u64,
    pub remote_balance_msat: u64,
    pub capacity_msat: u64,
    pub status_int: u32,
    pub spendable_outbound_msat: u64,
    pub spendable_inbound_msat: u64,
    pub node_id: Option<String>,
    pub network_id: Option<String>,
    pub state_digest: Option<String>,
}

/// What is said of a name that is no network's.
pub open spec fn unknown_network(name: Seq<char>) -> Seq<char> {
    "invalid snapshot network_id "@ + text::debug_text_of(name) + ": unknown variant `"@ + name
        + "`, expected one of `mainnet`, `testnet`, `signet`, `regtest`"@
}

/// The first column of a row of the snapshots that says what it cannot say,
/// where its time reads so.
pub open spec fn snapshot_refusal(row: SnapshotRow, ts: TimeReadingView) -> Option<
    ColumnErrorView,
> {
    if ts is Bad {
        Some(bad_column(1, time_or("snapshot timestamp"@, row.ts@, ts)->Err_0))
    } else if row.network_id is Some && network_named(row.network_id->0@) is None {
        Some(bad_column(10, unknown_network(row.network_id->0@)))
    } else if status_numbered(row.status_int) is None {
        Some(bad_column(6, "invalid channel status "@ + text::decimal(row.status_int as nat)))
    } else {
        None
    }
}

/// The snapshot that a row holds, all of whose columns say what they can.
pub open spec fn row_snapshot(row: SnapshotRow, ts: TimeReadingView) -> ChannelSnapshotView {
    ChannelSnapshotView {
        node_id: row.node_id.deep_view(),
        network: match row.network_id {
            Some(name) => network_named(name@),
            None => None,
        },
        state_digest: row.state_digest.deep_view(),
        channel_id: row.channel_id@,
        local_ratio: row.local_ratio,
        local_balance_msat: row.local_balance_msat,
        remote_balance_msat: row.remote_balance_msat,
        capacity_msat: row.capacity_msat,
        status: status_numbered(row.status_int)->0,
        ts: moment_read(ts)->0,
        spendable_outbound_msat: row.spendable_outbound_msat,
        spendable_inbound_msat: row.spendable_inbound_msat,
    }
}

/// The snapshot that a row holds, its time having been read.
pub fn snapshot_from_row(row: SnapshotRow, reading: TimeReading) -> (r: Result<
    ChannelSnapshot,
    ColumnError,
>)
    ensures
        match r {
            Ok(s) => snapshot_refusal(row, reading.deep_view()) is None && s.deep_view()
                == row_snapshot(row, reading.deep_view()),
            Err(e) => snapshot_refusal(row, reading.deep_view()) == Some(e.deep_view()),
        },
{
    let ts = match checked_time("snapshot timestamp", row.ts.as_str(), reading) {
        Ok(t) => t,
        Err(message) => {
            return Err(column(1, message));
        },
    };
    let network = match &row.network_id {
        Some(name) => match network_of(name.as_str()) {
            Some(network) => Some(network),
            None => {
                return Err(
                    column(
                        10,
                        "invalid snapshot network_id ".to_owned().concat(
                            debug_text(name.as_str()).as_str(),
                        ).concat(": unknown variant `").concat(name.as_str()).concat(
                            "`, expected one of `mainnet`, `testnet`, `signet`, `regtest`",
                        ),
                    ),
                );
            },
        },
        None => None,
    };
    let status = match status_from_i64(row.status_int) {
        Ok(status) => status,
        Err(message) => {
            return Err(column(6, message));
        },
    };
    Ok(
        ChannelSnapshot {
            node_id: row.node_id,
            network,
            state_digest: row.state_digest,
            channel_id: row.channel_id,
            local_ratio: row.local_ratio,
            local_balance_msat: row.local_balance_msat,
            remote_balance_msat: row.remote_balance_msat,
            capacity_msat: row.capacity_msat,
            status,
            ts,
            spendable_outbound_msat: row.spendable_outbound_msat,
            spendable_inbound_msat: row.spendable_inbound_msat,
        },
    )
}

/// The snapshot that a row holds.
pub fn decode_snapshot(row: SnapshotRow) -> (r: Result<ChannelSnapshot, ColumnError>)
    ensures
        match r {
            Ok(s) => snapshot_refusal(row, reading_of(row.ts@)) is None && s.deep_view()
                == row_snapshot(row, reading_of(row.ts@)),
            Err(e) => snapshot_refusal(row, reading_of(row.ts@)) == Some(e.deep_view()),
        },
{
    let reading = read_time(row.ts.as_str());
    snapshot_from_row(row, reading)
}

/// Whether a row holds a snapshot.
pub open spec fn holds_snapshot(r: SnapshotRow, s: ChannelSnapshotView) -> bool {
    &&& r.channel_id@ == s.channel_id
    &&& r.ts@ == time::rfc3339_of(s.ts.secs, s.ts.nanos)
    &&& r.local_ratio == s.local_ratio
    &&& r.local_balance_msat == s.local_balance_msat
    &&& r.remote_balance_msat == s.remote_balance_msat
    &&& r.capacity_msat == s.capacity_msat
    &&& r.status_int == identity::status_code(s.status)
    &&& r.spendable_outbound_msat == s.spendable_outbound_msat
    &&& r.spendable_inbound_msat == s.spendable_inbound_msat
    &&& r.node_id.deep_view() == s.node_id
    &&& r.network_id.deep_view() == (match s.network {
        Some(network) => Some(network.name()),
        None => None,
    })
    &&& r.state_digest.deep_view() == s.state_digest
}

/// The row that holds a snapshot. Reading it gives the snapshot back.
pub fn encode_snapshot(snapshot: &ChannelSnapshot) -> (r: SnapshotRow)
    requires
        writable(snapshot.ts),
    ensures
        holds_snapshot(r, snapshot.deep_view()),
        readable(snapshot.ts) ==> snapshot_refusal(r, reading_of(r.ts@)) is None && row_snapshot(
            r,
            reading_of(r.ts@),
        ) == snapshot.deep_view(),
{
    let network_id = match snapshot.network {
        Some(network) => Some(network.as_str().to_owned()),
        None => None,
    };
    proof {
        lemma_status_numbers_read_back(snapshot.status);
        if snapshot.network is Some {
            lemma_network_reads_back(snapshot.network->0);
        }
    }
    SnapshotRow {
        channel_id: snapshot.channel_id.clone(),
        ts: time_text(&snapshot.ts),
        local_ratio: snapshot.local_ratio,
        local_balance_msat: snapshot.local_balance_msat,
        remote_balance_msat: snapshot.remote_balance_msat,
        capacity_msat: snapshot.capacity_msat,
        status_int: status_tag(snapshot.status) as u32,
        spendable_outbound_msat: snapshot.spendable_outbound_msat,
        spendable_inbound_msat: snapshot.spendable_inbound_msat,
        node_id: copy_optional_text(&snapshot.node_id),
        network_id,
        state_digest: copy_optional_text(&snapshot.state_digest),
    }
}

/// A network is read back by its name.
pub proof fn lemma_network_reads_back(network: BitcoinNetwork)
    ensures
        network_named(network.name()) == Some(network),
{
    reveal_strlit("mainnet");
    reveal_strlit("testnet");
    reveal_strlit("signet");
    reveal_strlit("regtest");
    assert("mainnet"@[0] == 'm');
    assert("testnet"@[0] == 't');
    assert("signet"@[0] == 's');
    assert("regtest"@[0] == 'r');
}

/// A row of the audit, with its JSON column read.
#[derive(Debug, PartialEq)]
pub struct AuditRow {
    pub id: String,
    pub action_id: String,
    pub action_type: String,
    pub previous_stage: Option<String>,
    pub stage: String,
    pub actor: String,
    pub details: Result<Json, String>,
    pub ts: String,
}

/// The first column of a row of the audit that says what it cannot say, where
/// its time reads so.
pub open spec fn audit_refusal(row: AuditRow, ts: TimeReadingView) -> Option<ColumnErrorView> {
    if type_named(row.action_type@) is None {
        Some(bad_column(2, "invalid action type "@ + text::debug_text_of(row.action_type@)))
    } else if row.previous_stage is Some && stage_named(row.previous_stage->0@) is None {
        Some(
            bad_column(
                3,
                "invalid action stage "@ + text::debug_text_of(row.previous_stage->0@),
            ),
        )
    } else if stage_named(row.stage@) is None {
        Some(bad_column(4, "invalid action stage "@ + text::debug_text_of(row.stage@)))
    } else if row.details is Err {
        Some(bad_column(6, "invalid audit details: "@ + row.details->Err_0@))
    } else if ts is Bad {
        Some(bad_column(7, time_or("audit timestamp"@, row.ts@, ts)->Err_0))
    } else {
        None
    }
}

/// The entry that a row holds, all of whose columns say what they can.
pub open spec fn row_audit(row: AuditRow, ts: TimeReadingView) -> AuditEntryView {
    AuditEntryView {
        id: row.id@,
        action_id: row.action_id@,
        action_type: type_named(row.action_type@)->0,
        previous_stage: match row.previous_stage {
            Some(stage) => stage_named(stage@),
            None => None,
        },
        stage: stage_named(row.stage@)->0,
        actor: row.actor@,
        details: row.details->Ok_0.deep_view(),
        timestamp: moment_read(ts)->0,
    }
}

/// The entry that a row holds, its time having been read.
pub fn audit_from_row(row: AuditRow, reading: TimeReading) -> (r: Result<AuditEntry, ColumnError>)
    ensures
        match r {
            Ok(entry) => audit_refusal(row, reading.deep_view()) is None && entry.deep_view()
                == row_audit(row, reading.deep_view()),
            Err(e) => audit_refusal(row, reading.deep_view()) == Some(e.deep_view()),
        },
{
    let action_type = match parse_action_type(row.action_type.as_str()) {
        Ok(t) => t,
        Err(message) => {
            return Err(column(2, message));
        },
    };
    let previous_stage = match &row.previous_stage {
        Some(stage) => match parse_action_stage(stage.as_str()) {
            Ok(stage) => Some(stage),
            Err(message) => {
                return Err(column(3, message));
            },
        },
        None => None,
    };
    let stage = match parse_action_stage(row.stage.as_str()) {
        Ok(stage) => stage,
        Err(message) => {
            return Err(column(4, message));
        },
    };
    let details = match row.details {
        Ok(details) => details,
        Err(message) => {
            return Err(
                column(6, "invalid audit details: ".to_owned().concat(message.as_str())),
            );
        },
    };
    let timestamp = match checked_time("audit timestamp", row.ts.as_str(), reading) {
        Ok(t) => t,
        Err(message) => {
            return Err(column(7, message));
        },
    };
    Ok(
        AuditEntry {
            id: row.id,
            action_id: row.action_id,
            action_type,
            previous_stage,
            stage,
            actor: row.actor,
            details,
            timestamp,
        },
    )
}

/// The entry that a row holds.
pub fn decode_audit(row: AuditRow) -> (r: Result<AuditEntry, ColumnError>)
    ensures
        match r {
            Ok(entry) => audit_refusal(row, reading_of(row.ts@)) is None && entry.deep_view()
                == row_audit(row, reading_of(row.ts@)),
            Err(e) => audit_refusal(row, reading_of(row.ts@)) == Some(e.deep_view()),
        },
{
    let reading = read_time(row.ts.as_str());
    audit_from_row(row, reading)
}

/// Whether a row holds an entry of the audit.
pub open spec fn holds_audit(r: AuditRow, e: AuditEntryView) -> bool {
    &&& r.id@ == e.id
    &&& r.action_id@ == e.action_id
    &&& r.action_type@ == e.action_type.name()
    &&& r.previous_stage.deep_view() == (match e.previous_stage {
        Some(stage) => Some(execution::stage_name(stage)),
        None => None,
    })
    &&& r.stage@ == execution::stage_name(e.stage)
    &&& r.actor@ == e.actor
    &&& r.details matches Ok(details) && details.deep_view() == e.details
    &&& r.ts@ == time::rfc3339_of(e.timestamp.secs, e.timestamp.nanos)
}

/// The row that holds an entry. Reading it gives the entry back.
pub fn encode_audit(entry: &AuditEntry) -> (r: AuditRow)
    requires
        writable(entry.timestamp),
    ensures
        holds_audit(r, entry.deep_view()),
        readable(entry.timestamp) ==> audit_refusal(r, reading_of(r.ts@)) is None && row_audit(
            r,
            reading_of(r.ts@),
        ) == entry.deep_view(),
{
    let previous_stage = match entry.previous_stage {
        Some(stage) => Some(stage_text(stage).to_owned()),
        None => None,
    };
    proof {
        lemma_names_read_back(
            entry.stage,
            entry.action_type,
            ComponentState::Healthy,
            DeliveryStatus::Unsent,
        );
        if entry.previous_stage is Some {
            lemma_names_read_back(
                entry.previous_stage->0,
                entry.action_type,
                ComponentState::Healthy,
                DeliveryStatus::Unsent,
            );
        }
    }
    AuditRow {
        id: entry.id.clone(),
        action_id: entry.action_id.clone(),
        action_type: entry.action_type.as_str().to_owned(),
        previous_stage,
        stage: stage_text(entry.stage).to_owned(),
        actor: entry.actor.clone(),
        details: Ok(entry.details.clone()),
        ts: time_text(&entry.timestamp),
    }
}

/// A row of the simulations from before their inputs were stored, with its JSON
/// column read.
#[derive(Debug, PartialEq)]
pub struct SimulationRow {
    pub id: String,
    pub action_id: String,
    pub finding_id: String,
    pub action_type: String,
    pub projection: Result<SimulationProjection, String>,
    pub created_at: String,
}

/// The first column of such a row that says what it cannot say, where its time
/// reads so.
pub open spec fn simulation_refusal(row: SimulationRow, created: TimeReadingView) -> Option<
    ColumnErrorView,
> {
    if type_named(row.action_type@) is None {
        Some(
            bad_column(
                3,
                "invalid simulation action type "@ + text::debug_text_of(row.action_type@),
            ),
        )
    } else if row.projection is Err {
        Some(bad_column(4, "invalid legacy simulation projection: "@ + row.projection->Err_0@))
    } else if created is Bad {
        Some(bad_column(5, time_or("simulation timestamp"@, row.created_at@, created)->Err_0))
    } else {
        None
    }
}

/// The simulation that such a row holds, all of whose columns say what they can.
pub open spec fn row_simulation(row: SimulationRow, created: TimeReadingView) -> SimulationView {
    SimulationView {
        id: row.id@,
        action_id: row.action_id@,
        finding_id: row.finding_id@,
        action_type: type_named(row.action_type@)->0,
        projection: row.projection->Ok_0.deep_view(),
        created_at: moment_read(created)->0,
    }
}

/// The simulation that such a row holds, its time having been read.
pub fn simulation_from_row(row: SimulationRow, reading: TimeReading) -> (r: Result<
    Simulation,
    ColumnError,
>)
    ensures
        match r {
            Ok(s) => simulation_refusal(row, reading.deep_view()) is None && s.deep_view()
                == row_simulation(row, reading.deep_view()),
            Err(e) => simulation_refusal(row, reading.deep_view()) == Some(e.deep_view()),
        },
{
    let action_type = match parse_action_type(row.action_type.as_str()) {
        Ok(t) => t,
        Err(_) => {
            return Err(
                column(
                    3,
                    "invalid simulation action type ".to_owned().concat(
                        debug_text(row.action_type.as_str()).as_str(),
                    ),
                ),
            );
        },
    };
    let projection = match row.projection {
        Ok(projection) => projection,
        Err(message) => {
            return Err(
                column(
                    4,
                    "invalid legacy simulation projection: ".to_owned().concat(message.as_str()),
                ),
            );
        },
    };
    let created_at = match checked_time("simulation timestamp", row.created_at.as_str(), reading) {
        Ok(t) => t,
        Err(message) => {
            return Err(column(5, message));
        },
    };
    Ok(
        Simulation {
            id: row.id,
            action_id: row.action_id,
            finding_id: row.finding_id,
            action_type,
            projection,
            created_at,
        },
    )
}

/// The simulation that such a row holds.
pub fn decode_simulation(row: SimulationRow) -> (r: Result<Simulation, ColumnError>)
    ensures
        match r {
            Ok(s) => simulation_refusal(row, reading_of(row.created_at@)) is None && s.deep_view()
                == row_simulation(row, reading_of(row.created_at@)),
            Err(e) => simulation_refusal(row, reading_of(row.created_at@)) == Some(e.deep_view()),
        },
{
    let reading = read_time(row.created_at.as_str());
    simulation_from_row(row, reading)
}

/// Whether a row holds a simulation.
pub open spec fn holds_simulation(r: SimulationRow, s: SimulationView) -> bool {
    &&& r.id@ == s.id
    &&& r.action_id@ == s.action_id
    &&& r.finding_id@ == s.finding_id
    &&& r.action_type@ == s.action_type.name()
    &&& r.projection matches Ok(projection) && projection.deep_view() == s.projection
    &&& r.created_at@ == time::rfc3339_of(s.created_at.secs, s.created_at.nanos)
}

/// The row that holds a simulation. Reading it gives the simulation back.
pub fn encode_simulation(sim: &Simulation) -> (r: SimulationRow)
    requires
        writable(sim.created_at),
    ensures
        holds_simulation(r, sim.deep_view()),
        readable(sim.created_at) ==> simulation_refusal(r, reading_of(r.created_at@)) is None
            && row_simulation(r, reading_of(r.created_at@)) == sim.deep_view(),
{
    proof {
        lemma_names_read_back(
            ActionStage::Failed,
            sim.action_type,
            ComponentState::Healthy,
            DeliveryStatus::Unsent,
        );
    }
    SimulationRow {
        id: sim.id.clone(),
        action_id: sim.action_id.clone(),
        finding_id: sim.finding_id.clone(),
        action_type: sim.action_type.as_str().to_owned(),
        projection: Ok(sim.projection.clone()),
        created_at: time_text(&sim.created_at),
    }
}

/// What is wrong with a step in the life of a simulation, where its time reads
/// so.
pub open spec fn event_refusal(e: SimulationEventView, ts: TimeReadingView) -> Option<Seq<char>> {
    if status_refusal(e.status) is Some {
        status_refusal(e.status)
    } else {
        bad_time("simulation event timestamp"@, e.timestamp, ts)
    }
}

/// Checks a step in the life of a simulation before it is stored.
pub fn validate_simulation_event(event: &SimulationEvent) -> (r: Result<(), StorageError>)
    ensures
        records::refused(r) == (match event_refusal(
            event.deep_view(),
            reading_of(event.timestamp@),
        ) {
            Some(message) => Some(StorageErrorView::Corrupt(message)),
            None => None,
        }),
{
    match validate_simulation_status(event.status.as_str()) {
        Ok(_) => validate_rfc3339("simulation event timestamp", event.timestamp.as_str()),
        Err(e) => Err(e),
    }
}

/// The step that a row holds.
pub fn decode_simulation_event(event: SimulationEvent) -> (r: Result<SimulationEvent, ColumnError>)
    ensures
        match r {
            Ok(found) => found.deep_view() == event.deep_view() && event_refusal(
                event.deep_view(),
                reading_of(event.timestamp@),
            ) is None,
            Err(e) => e.deep_view() == bad_column(
                if status_refusal(event.status@) is Some {
                    2
                } else {
                    4
                },
                "corrupt record: "@ + event_refusal(
                    event.deep_view(),
                    reading_of(event.timestamp@),
                )->0,
            ) && event_refusal(event.deep_view(), reading_of(event.timestamp@)) is Some,
        },
{
    if let Err(e) = validate_simulation_status(event.status.as_str()) {
        return Err(column(2, e.to_text()));
    }
    if let Err(e) = validate_rfc3339("simulation event timestamp", event.timestamp.as_str()) {
        return Err(column(4, e.to_text()));
    }
    Ok(event)
}

/// A row of the alert states.
#[derive(Debug, PartialEq, Eq)]
pub struct AlertRow {
    pub last_sent_at: Option<String>,
    pub last_severity: Option<i64>,
    pub last_status: String,
}

/// The alert state that a row holds, where its time reads so.
pub open spec fn row_alert(row: AlertRow, sent: Option<TimeReadingView>) -> Result<
    AlertState,
    Seq<char>,
> {
    if sent is Some && row.last_sent_at is Some && sent->0 is Bad {
        Err(time_or("alert last_sent_at"@, row.last_sent_at->0@, sent->0)->Err_0)
    } else if row.last_severity is Some && severity_numbered(row.last_severity->0) is None {
        Err("invalid alert severity "@ + text::signed_decimal(row.last_severity->0 as int))
    } else if delivery_named(row.last_status@) is None {
        Err("invalid alert delivery status "@ + text::debug_text_of(row.last_status@))
    } else {
        Ok(
            AlertState {
                last_sent_at: if row.last_sent_at is Some && sent is Some {
                    moment_read(sent->0)
                } else {
                    None
                },
                last_severity: match row.last_severity {
                    Some(v) => severity_numbered(v),
                    None => None,
                },
                last_status: delivery_named(row.last_status@)->0,
            },
        )
    }
}

/// The time that a row of the alert states names.
pub open spec fn alert_time(row: AlertRow) -> Option<TimeReadingView> {
    match row.last_sent_at {
        Some(s) => Some(reading_of(s@)),
        None => None,
    }
}

/// The alert state that a row holds, its time having been read.
pub fn alert_from_row(row: AlertRow, sent: Option<TimeReading>) -> (r: Result<AlertState, String>)
    ensures
        with_message(r) == row_alert(row, sent.deep_view()),
{
    let last_sent_at = match (&row.last_sent_at, sent) {
        (Some(s), Some(reading)) => match checked_time("alert last_sent_at", s.as_str(), reading) {
            Ok(t) => Some(t),
            Err(message) => {
                return Err(message);
            },
        },
        _ => None,
    };
    let last_severity = match row.last_severity {
        Some(v) => match severity_from_int(v) {
            Ok(s) => Some(s),
            Err(message) => {
                return Err(message);
            },
        },
        None => None,
    };
    let last_status = match parse_delivery_status(row.last_status.as_str()) {
        Ok(s) => s,
        Err(message) => {
            return Err(message);
        },
    };
    Ok(AlertState { last_sent_at, last_severity, last_status })
}

/// The alert state that a row holds.
pub fn decode_alert(row: AlertRow) -> (r: Result<AlertState, String>)
    ensures
        with_message(r) == row_alert(row, alert_time(row)),
{
    let sent = match &row.last_sent_at {
        Some(s) => Some(read_time(s.as_str())),
        None => None,
    };
    alert_from_row(row, sent)
}

/// Whether a row holds the state of an alert.
pub open spec fn holds_alert(r: AlertRow, state: AlertState) -> bool {
    &&& r.last_sent_at.deep_view() == written_time(state.last_sent_at)
    &&& r.last_severity == (match state.last_severity {
        Some(severity) => Some(severity_number(severity)),
        None => None,
    })
    &&& r.last_status@ == state.last_status.name()
}

/// The row that holds an alert state. Reading it gives the state back.
pub fn encode_alert(state: &AlertState) -> (r: AlertRow)
    requires
        optional_writable(state.last_sent_at),
    ensures
        holds_alert(r, *state),
        optional_readable(state.last_sent_at) ==> row_alert(r, alert_time(r)) == Ok::<
            AlertState,
            Seq<char>,
        >(*state),
{
    proof {
        lemma_names_read_back(
            ActionStage::Failed,
            ActionType::Custom,
            ComponentState::Healthy,
            state.last_status,
        );
    }
    let last_severity = match state.last_severity {
        Some(s) => Some(severity_to_int(s)),
        None => None,
    };
    AlertRow {
        last_sent_at: optional_time_text(&state.last_sent_at),
        last_severity,
        last_status: state.last_status.as_str().to_owned(),
    }
}

/// A row of the operational state.
#[derive(Debug, PartialEq, Eq)]
pub struct OperationalRow {
    pub source: String,
    pub source_connected: Option<i64>,
    pub last_ingestion_attempt: Option<String>,
    pub last_ingestion_success: Option<String>,
    pub last_cycle_attempt: Option<String>,
    pub last_cycle_success: Option<String>,
    pub last_persist_success: Option<String>,
    pub source_data_at: Option<String>,
    pub llm: String,
    pub alert_sink: String,
    pub cleanup: String,
    pub last_cleanup_attempt: Option<String>,
    pub last_cleanup_success: Option<String>,
}

/// The times of a row of the operational state.
pub struct OperationalTimes {
    pub last_ingestion_attempt: Option<TimeReading>,
    pub last_ingestion_success: Option<TimeReading>,
    pub last_cycle_attempt: Option<TimeReading>,
    pub last_cycle_success: Option<TimeReading>,
    pub last_persist_success: Option<TimeReading>,
    pub source_data_at: Option<TimeReading>,
    pub last_cleanup_attempt: Option<TimeReading>,
    pub last_cleanup_success: Option<TimeReading>,
}

/// The mathematical value of [`OperationalTimes`].
pub struct OperationalTimesView {
    pub last_ingestion_attempt: Option<TimeReadingView>,
    pub last_ingestion_success: Option<TimeReadingView>,
    pub last_cycle_attempt: Option<TimeReadingView>,
    pub last_cycle_success: Option<TimeReadingView>,
    pub last_persist_success: Option<TimeReadingView>,
    pub source_data_at: Option<TimeReadingView>,
    pub last_cleanup_attempt: Option<TimeReadingView>,
    pub last_cleanup_success: Option<TimeReadingView>,
}

impl DeepView for OperationalTimes {
    type V = OperationalTimesView;

    open spec fn deep_view(&self) -> OperationalTimesView {
        OperationalTimesView {
            last_ingestion_attempt: self.last_ingestion_attempt.deep_view(),
            last_ingestion_success: self.last_ingestion_success.deep_view(),
            last_cycle_attempt: self.last_cycle_attempt.deep_view(),
            last_cycle_success: self.last_cycle_success.deep_view(),
            last_persist_success: self.last_persist_success.deep_view(),
            source_data_at: self.source_data_at.deep_view(),
            last_cleanup_attempt: self.last_cleanup_attempt.deep_view(),
            last_cleanup_success: self.last_cleanup_success.deep_view(),
        }
    }
}

/// What came of reading an optional time.
pub open spec fn optional_reading(s: Option<String>) -> Option<TimeReadingView> {
    match s {
        Some(s) => Some(reading_of(s@)),
        None => None,
    }
}

/// The times that a row of the operational state names.
pub open spec fn operational_times(row: OperationalRow) -> OperationalTimesView {
    OperationalTimesView {
        last_ingestion_attempt: optional_reading(row.last_ingestion_attempt),
        last_ingestion_success: optional_reading(row.last_ingestion_success),
        last_cycle_attempt: optional_reading(row.last_cycle_attempt),
        last_cycle_success: optional_reading(row.last_cycle_success),
        last_persist_success: optional_reading(row.last_persist_success),
        source_data_at: optional_reading(row.source_data_at),
        last_cleanup_attempt: optional_reading(row.last_cleanup_attempt),
        last_cleanup_success: optional_reading(row.last_cleanup_success),
    }
}

fn read_optional_time(s: &Option<String>) -> (r: Option<TimeReading>)
    ensures
        r.deep_view() == optional_reading(*s),
{
    match s {
        Some(s) => Some(read_time(s.as_str())),
        None => None,
    }
}

/// An optional time, or what is said of one that cannot be read.
pub open spec fn optional_time_or(
    label: Seq<char>,
    s: Option<String>,
    t: Option<TimeReadingView>,
) -> Result<Option<Timestamp>, Seq<char>> {
    match (s, t) {
        (Some(s), Some(reading)) => match time_or(label, s@, reading) {
            Ok(at) => Ok(Some(at)),
            Err(message) => Err(message),
        },
        _ => Ok(None),
    }
}

fn checked_optional_time(
    label: &str,
    s: &Option<String>,
    reading: Option<TimeReading>,
) -> (r: Result<Option<Timestamp>, String>)
    ensures
        with_message(r) == optional_time_or(label@, *s, reading.deep_view()),
{
    match (s, reading) {
        (Some(s), Some(reading)) => match checked_time(label, s.as_str(), reading) {
            Ok(t) => Ok(Some(t)),
            Err(message) => Err(message),
        },
        _ => Ok(None),
    }
}

/// The component state of this name, or what is said of a name that is none.
pub open spec fn component_or(s: Seq<char>) -> Result<ComponentState, Seq<char>> {
    match component_named(s) {
        Some(state) => Ok(state),
        None => Err("invalid component state "@ + text::debug_text_of(s)),
    }
}

/// The first thing that is wrong with a row of the operational state.
pub open spec fn operational_refusal(row: OperationalRow, t: OperationalTimesView) -> Option<
    Seq<char>,
> {
    if source_named(row.source@, row.source_connected) is Err {
        Some(source_named(row.source@, row.source_connected)->Err_0)
    } else if optional_time_or(
        "last_ingestion_attempt"@,
        row.last_ingestion_attempt,
        t.last_ingestion_attempt,
    ) is Err {
        Some(
            optional_time_or(
                "last_ingestion_attempt"@,
                row.last_ingestion_attempt,
                t.last_ingestion_attempt,
            )->Err_0,
        )
    } else if optional_time_or(
        "last_ingestion_success"@,
        row.last_ingestion_success,
        t.last_ingestion_success,
    ) is Err {
        Some(
            optional_time_or(
                "last_ingestion_success"@,
                row.last_ingestion_success,
                t.last_ingestion_success,
            )->Err_0,
        )
    } else if optional_time_or(
        "last_cycle_attempt"@,
        row.last_cycle_attempt,
        t.last_cycle_attempt,
    ) is Err {
        Some(
            optional_time_or(
                "last_cycle_attempt"@,
                row.last_cycle_attempt,
                t.last_cycle_attempt,
            )->Err_0,
        )
    } else if optional_time_or(
        "last_cycle_success"@,
        row.last_cycle_success,
        t.last_cycle_success,
    ) is Err {
        Some(
            optional_time_or(
                "last_cycle_success"@,
                row.last_cycle_success,
                t.last_cycle_success,
            )->Err_0,
        )
    } else if optional_time_or(
        "last_persist_success"@,
        row.last_persist_success,
        t.last_persist_success,
    ) is Err {
        Some(
            optional_time_or(
                "last_persist_success"@,
                row.last_persist_success,
                t.last_persist_success,
            )->Err_0,
        )
    } else if optional_time_or("source_data_at"@, row.source_data_at, t.source_data_at) is Err {
        Some(optional_time_or("source_data_at"@, row.source_data_at, t.source_data_at)->Err_0)
    } else if component_or(row.llm@) is Err {
        Some(component_or(row.llm@)->Err_0)
    } else if component_or(row.alert_sink@) is Err {
        Some(component_or(row.alert_sink@)->Err_0)
    } else if component_or(row.cleanup@) is Err {
        Some(component_or(row.cleanup@)->Err_0)
    } else if optional_time_or(
        "last_cleanup_attempt"@,
        row.last_cleanup_attempt,
        t.last_cleanup_attempt,
    ) is Err {
        Some(
            optional_time_or(
                "last_cleanup_attempt"@,
                row.last_cleanup_attempt,
                t.last_cleanup_attempt,
            )->Err_0,
        )
    } else if optional_time_or(
        "last_cleanup_success"@,
        row.last_cleanup_success,
        t.last_cleanup_success,
    ) is Err {
        Some(
            optional_time_or(
                "last_cleanup_success"@,
                row.last_cleanup_success,
                t.last_cleanup_success,
            )->Err_0,
        )
    } else {
        None
    }
}

/// The operational state that a row holds, with which nothing is wrong.
pub open spec fn row_operational(row: OperationalRow, t: OperationalTimesView) -> OperationalState {
    OperationalState {
        source: source_named(row.source@, row.source_connected)->Ok_0,
        last_ingestion_attempt: optional_time_or(
            "last_ingestion_attempt"@,
            row.last_ingestion_attempt,
            t.last_ingestion_attempt,
        )->Ok_0,
        last_ingestion_success: optional_time_or(
            "last_ingestion_success"@,
            row.last_ingestion_success,
            t.last_ingestion_success,
        )->Ok_0,
        last_cycle_attempt: optional_time_or(
            "last_cycle_attempt"@,
            row.last_cycle_attempt,
            t.last_cycle_attempt,
        )->Ok_0,
        last_cycle_success: optional_time_or(
            "last_cycle_success"@,
            row.last_cycle_success,
            t.last_cycle_success,
        )->Ok_0,
        last_persist_success: optional_time_or(
            "last_persist_success"@,
            row.last_persist_success,
            t.last_persist_success,
        )->Ok_0,
        source_data_at: optional_time_or(
            "source_data_at"@,
            row.source_data_at,
            t.source_data_at,
        )->Ok_0,
        llm: component_or(row.llm@)->Ok_0,
        alert_sink: component_or(row.alert_sink@)->Ok_0,
        cleanup: component_or(row.cleanup@)->Ok_0,
        last_cleanup_attempt: optional_time_or(
            "last_cleanup_attempt"@,
            row.last_cleanup_attempt,
            t.last_cleanup_attempt,
        )->Ok_0,
        last_cleanup_success: optional_time_or(
            "last_cleanup_success"@,
            row.last_cleanup_success,
            t.last_cleanup_success,
        )->Ok_0,
    }
}

/// The operational state that a row holds, its times having been read.
pub fn operational_from_row(row: OperationalRow, times: OperationalTimes) -> (r: Result<
    OperationalState,
    String,
>)
    ensures
        match r {
            Ok(state) => operational_refusal(row, times.deep_view()) is None && state
                == row_operational(row, times.deep_view()),
            Err(message) => operational_refusal(row, times.deep_view()) == Some(message@),
        },
{
    let source = match parse_source(row.source.as_str(), row.source_connected) {
        Ok(source) => source,
        Err(message) => {
            return Err(message);
        },
    };
    let last_ingestion_attempt = match checked_optional_time(
        "last_ingestion_attempt",
        &row.last_ingestion_attempt,
        times.last_ingestion_attempt,
    ) {
        Ok(t) => t,
        Err(message) => {
            return Err(message);
        },
    };
    let last_ingestion_success = match checked_optional_time(
        "last_ingestion_success",
        &row.last_ingestion_success,
        times.last_ingestion_success,
    ) {
        Ok(t) => t,
        Err(message) => {
            return Err(message);
        },
    };
    let last_cycle_attempt = match checked_optional_time(
        "last_cycle_attempt",
        &row.last_cycle_attempt,
        times.last_cycle_attempt,
    ) {
        Ok(t) => t,
        Err(message) => {
            return Err(message);
        },
    };
    let last_cycle_success = match checked_optional_time(
        "last_cycle_success",
        &row.last_cycle_success,
        times.last_cycle_success,
    ) {
        Ok(t) => t,
        Err(message) => {
            return Err(message);
        },
    };
    let last_persist_success = match checked_optional_time(
        "last_persist_success",
        &row.last_persist_success,
        times.last_persist_success,
    ) {
        Ok(t) => t,
        Err(message) => {
            return Err(message);
        },
    };
    let source_data_at = match checked_optional_time(
        "source_data_at",
        &row.source_data_at,
        times.source_data_at,
    ) {
        Ok(t) => t,
        Err(message) => {
            return Err(message);
        },
    };
    let llm = match parse_component(row.llm.as_str()) {
        Ok(state) => state,
        Err(message) => {
            return Err(message);
        },
    };
    let alert_sink = match parse_component(row.alert_sink.as_str()) {
        Ok(state) => state,
        Err(message) => {
            return Err(message);
        },
    };
    let cleanup = match parse_component(row.cleanup.as_str()) {
        Ok(state) => state,
        Err(message) => {
            return Err(message);
        },
    };
    let last_cleanup_attempt = match checked_optional_time(
        "last_cleanup_attempt",
        &row.last_cleanup_attempt,
        times.last_cleanup_attempt,
    ) {
        Ok(t) => t,
        Err(message) => {
            return Err(message);
        },
    };
    let last_cleanup_success = match checked_optional_time(
        "last_cleanup_success",
        &row.last_cleanup_success,
        times.last_cleanup_success,
    ) {
        Ok(t) => t,
        Err(message) => {
            return Err(message);
        },
    };
    Ok(
        OperationalState {
            source,
            last_ingestion_attempt,
            last_ingestion_success,
            last_cycle_attempt,
            last_cycle_success,
            last_persist_success,
            source_data_at,
            llm,
            alert_sink,
            cleanup,
            last_cleanup_attempt,
            last_cleanup_success,
        },
    )
}

/// The operational state that a row holds.
pub fn decode_operational_state(row: OperationalRow) -> (r: Result<OperationalState, String>)
    ensures
        match r {
            Ok(state) => operational_refusal(row, operational_times(row)) is None && state
                == row_operational(row, operational_times(row)),
            Err(message) => operational_refusal(row, operational_times(row)) == Some(message@),
        },
{
    let times = OperationalTimes {
        last_ingestion_attempt: read_optional_time(&row.last_ingestion_attempt),
        last_ingestion_success: read_optional_time(&row.last_ingestion_success),
        last_cycle_attempt: read_optional_time(&row.last_cycle_attempt),
        last_cycle_success: read_optional_time(&row.last_cycle_success),
        last_persist_success: read_optional_time(&row.last_persist_success),
        source_data_at: read_optional_time(&row.source_data_at),
        last_cleanup_attempt: read_optional_time(&row.last_cleanup_attempt),
        last_cleanup_success: read_optional_time(&row.last_cleanup_success),
    };
    operational_from_row(row, times)
}

/// Whether the calendar reaches all times of an operational state.
pub open spec fn operational_writable(s: OperationalState) -> bool {
    &&& optional_writable(s.last_ingestion_attempt)
    &&& optional_writable(s.last_ingestion_success)
    &&& optional_writable(s.last_cycle_attempt)
    &&& optional_writable(s.last_cycle_success)
    &&& optional_writable(s.last_persist_success)
    &&& optional_writable(s.source_data_at)
    &&& optional_writable(s.last_cleanup_attempt)
    &&& optional_writable(s.last_cleanup_success)
}

/// Whether all times of an operational state are read back as they were written.
pub open spec fn operational_readable(s: OperationalState) -> bool {
    &&& optional_readable(s.last_ingestion_attempt)
    &&& optional_readable(s.last_ingestion_success)
    &&& optional_readable(s.last_cycle_attempt)
    &&& optional_readable(s.last_cycle_success)
    &&& optional_readable(s.last_persist_success)
    &&& optional_readable(s.source_data_at)
    &&& optional_readable(s.last_cleanup_attempt)
    &&& optional_readable(s.last_cleanup_success)
}

/// The number that says whether a live source is connected; none for a file.
pub open spec fn connection_number(source: SourceState) -> Option<i64> {
    match source {
        SourceState::Fixture => None,
        SourceState::LndRest { connected } | SourceState::BtcPayGreenfield { connected } => Some(
            if connected {
                1
            } else {
                0
            },
        ),
    }
}

/// Whether a row holds the operational state.
pub open spec fn holds_operational(r: OperationalRow, s: OperationalState) -> bool {
    &&& r.source@ == s.source.name()
    &&& r.source_connected == connection_number(s.source)
    &&& r.last_ingestion_attempt.deep_view() == written_time(s.last_ingestion_attempt)
    &&& r.last_ingestion_success.deep_view() == written_time(s.last_ingestion_success)
    &&& r.last_cycle_attempt.deep_view() == written_time(s.last_cycle_attempt)
    &&& r.last_cycle_success.deep_view() == written_time(s.last_cycle_success)
    &&& r.last_persist_success.deep_view() == written_time(s.last_persist_success)
    &&& r.source_data_at.deep_view() == written_time(s.source_data_at)
    &&& r.llm@ == s.llm.name()
    &&& r.alert_sink@ == s.alert_sink.name()
    &&& r.cleanup@ == s.cleanup.name()
    &&& r.last_cleanup_attempt.deep_view() == written_time(s.last_cleanup_attempt)
    &&& r.last_cleanup_success.deep_view() == written_time(s.last_cleanup_success)
}

/// The row that holds an operational state. Reading it gives the state back.
pub fn encode_operational_state(state: &OperationalState) -> (r: OperationalRow)
    requires
        operational_writable(*state),
    ensures
        holds_operational(r, *state),
        operational_readable(*state) ==> operational_refusal(r, operational_times(r)) is None
            && row_operational(r, operational_times(r)) == *state,
{
    proof {
        lemma_source_reads_back(state.source);
        lemma_names_read_back(
            ActionStage::Failed,
            ActionType::Custom,
            state.llm,
            DeliveryStatus::Unsent,
        );
        lemma_names_read_back(
            ActionStage::Failed,
            ActionType::Custom,
            state.alert_sink,
            DeliveryStatus::Unsent,
        );
        lemma_names_read_back(
            ActionStage::Failed,
            ActionType::Custom,
            state.cleanup,
            DeliveryStatus::Unsent,
        );
    }
    let source_connected: Option<i64> = match state.source {
        SourceState::Fixture => None,
        SourceState::LndRest { connected } => Some(
            if connected {
                1
            } else {
                0
            },
        ),
        SourceState::BtcPayGreenfield { connected } => Some(
            if connected {
                1
            } else {
                0
            },
        ),
    };
    OperationalRow {
        source: state.source.as_str().to_owned(),
        source_connected,
        last_ingestion_attempt: optional_time_text(&state.last_ingestion_attempt),
        last_ingestion_success: optional_time_text(&state.last_ingestion_success),
        last_cycle_attempt: optional_time_text(&state.last_cycle_attempt),
        last_cycle_success: optional_time_text(&state.last_cycle_success),
        last_persist_success: optional_time_text(&state.last_persist_success),
        source_data_at: optional_time_text(&state.source_data_at),
        llm: component_str(state.llm).to_owned(),
        alert_sink: component_str(state.alert_sink).to_owned(),
        cleanup: component_str(state.cleanup).to_owned(),
        last_cleanup_attempt: optional_time_text(&state.last_cleanup_attempt),
        last_cleanup_success: optional_time_text(&state.last_cleanup_success),
    }
}

/// What the canonical input of a stored simulation says of itself.
#[derive(Debug, PartialEq, Eq)]
pub struct InputFacts {
    pub recommendation_id: Option<String>,
    pub finding_id: Option<String>,
    pub model_id: Option<String>,
    pub model_version: Option<String>,
    pub action_type: Option<String>,
    pub source_ts: Option<String>,
}

/// The mathematical value of [`InputFacts`].
pub struct InputFactsView {
    pub recommendation_id: Option<Seq<char>>,
    pub finding_id: Option<Seq<char>>,
    pub model_id: Option<Seq<char>>,
    pub model_version: Option<Seq<char>>,
    pub action_type: Option<Seq<char>>,
    pub source_ts: Option<Seq<char>>,
}

impl DeepView for InputFacts {
    type V = InputFactsView;

    open spec fn deep_view(&self) -> InputFactsView {
        InputFactsView {
            recommendation_id: self.recommendation_id.deep_view(),
            finding_id: self.finding_id.deep_view(),
            model_id: self.model_id.deep_view(),
            model_version: self.model_version.deep_view(),
            action_type: self.action_type.deep_view(),
            source_ts: self.source_ts.deep_view(),
        }
    }
}

/// What the projection of a stored simulation says of itself.
#[derive(Debug, PartialEq, Eq)]
pub struct ProjectionFacts {
    pub model_id: Option<String>,
    pub model_version: Option<String>,
    pub input_hash: Option<String>,
    pub confidence: Option<String>,
    pub assumptions: Option<String>,
    pub warnings: Option<String>,
}

/// The mathematical value of [`ProjectionFacts`].
pub struct ProjectionFactsView {
    pub model_id: Option<Seq<char>>,
    pub model_version: Option<Seq<char>>,
    pub input_hash: Option<Seq<char>>,
    pub confidence: Option<Seq<char>>,
    pub assumptions: Option<Seq<char>>,
    pub warnings: Option<Seq<char>>,
}

impl DeepView for ProjectionFacts {
    type V = ProjectionFactsView;

    open spec fn deep_view(&self) -> ProjectionFactsView {
        ProjectionFactsView {
            model_id: self.model_id.deep_view(),
            model_version: self.model_version.deep_view(),
            input_hash: self.input_hash.deep_view(),
            confidence: self.confidence.deep_view(),
            assumptions: self.assumptions.deep_view(),
            warnings: self.warnings.deep_view(),
        }
    }
}

/// The times of a stored simulation.
#[derive(Debug, PartialEq, Eq)]
pub struct RecordTimes {
    pub created_at: TimeReading,
    pub requested_at: TimeReading,
    pub source_observed_at: Option<TimeReading>,
    pub completed_at: Option<TimeReading>,
    /// The time that the canonical input gives for its source.
    pub canonical_source: Option<TimeReading>,
    /// How that time is shown.
    pub canonical_shown: Option<String>,
    /// How the recorded time of the source is shown.
    pub recorded_shown: Option<String>,
}

/// The mathematical value of [`RecordTimes`].
pub struct RecordTimesView {
    pub created_at: TimeReadingView,
    pub requested_at: TimeReadingView,
    pub source_observed_at: Option<TimeReadingView>,
    pub completed_at: Option<TimeReadingView>,
    pub canonical_source: Option<TimeReadingView>,
    pub canonical_shown: Option<Seq<char>>,
    pub recorded_shown: Option<Seq<char>>,
}

impl DeepView for RecordTimes {
    type V = RecordTimesView;

    open spec fn deep_view(&self) -> RecordTimesView {
        RecordTimesView {
            created_at: self.created_at.deep_view(),
            requested_at: self.requested_at.deep_view(),
            source_observed_at: self.source_observed_at.deep_view(),
            completed_at: self.completed_at.deep_view(),
            canonical_source: self.canonical_source.deep_view(),
            canonical_shown: self.canonical_shown.deep_view(),
            recorded_shown: self.recorded_shown.deep_view(),
        }
    }
}

/// What a stored simulation's canonical input says of itself.
pub open spec fn input_facts(rec: SimulationRecordView) -> InputFactsView {
    let document = json::json_text(rec.canonical_input);
    InputFactsView {
        recommendation_id: json::json_text_field(document, "recommendation_id"@),
        finding_id: json::json_text_field(document, "finding_id"@),
        model_id: json::json_text_field(document, "model_id"@),
        model_version: json::json_text_field(document, "model_version"@),
        action_type: json::json_text_field(document, "action_type"@),
        source_ts: json::json_pointer_text(document, "/source_snapshot/ts"@),
    }
}

/// What a stored simulation's projection says of itself.
pub open spec fn projection_facts(rec: SimulationRecordView) -> ProjectionFactsView {
    let document = json::json_text(rec.projection);
    ProjectionFactsView {
        model_id: json::json_text_field(document, "model_id"@),
        model_version: json::json_text_field(document, "model_version"@),
        input_hash: json::json_text_field(document, "input_hash"@),
        confidence: json::json_text_field(document, "confidence"@),
        assumptions: json::json_value_field(document, "assumptions"@),
        warnings: json::json_value_field(document, "warnings"@),
    }
}

/// What came of reading an optional time.
pub open spec fn optional_view_reading(s: Option<Seq<char>>) -> Option<TimeReadingView> {
    match s {
        Some(s) => Some(reading_of(s)),
        None => None,
    }
}

/// How an optional time is shown.
pub open spec fn optional_shown(s: Option<Seq<char>>) -> Option<Seq<char>> {
    match s {
        Some(s) => time::rfc3339_shown_of(s),
        None => None,
    }
}

/// The times of a stored simulation.
pub open spec fn record_times(rec: SimulationRecordView) -> RecordTimesView {
    RecordTimesView {
        created_at: reading_of(rec.created_at),
        requested_at: reading_of(rec.requested_at),
        source_observed_at: optional_view_reading(rec.source_observed_at),
        completed_at: optional_view_reading(rec.completed_at),
        canonical_source: optional_view_reading(input_facts(rec).source_ts),
        canonical_shown: optional_shown(input_facts(rec).source_ts),
        recorded_shown: optional_shown(rec.source_observed_at),
    }
}

/// What is wrong with the status, the confidence or the hash of a record.
pub open spec fn header_refusal(rec: SimulationRecordView) -> Option<Seq<char>> {
    if status_refusal(rec.status) is Some {
        status_refusal(rec.status)
    } else if !confidence_known(rec.confidence) {
        Some("invalid simulation confidence "@ + text::debug_text_of(rec.confidence))
    } else if rec.input_hash.len() > 0 && !(rec.input_hash.len() == 64 && text::all_digits(
        rec.input_hash,
        16,
    )) {
        Some("invalid simulation input hash"@)
    } else {
        None
    }
}

/// What is said of an optional time that cannot be read.
pub open spec fn optional_bad_time(
    label: Seq<char>,
    s: Option<Seq<char>>,
    t: Option<TimeReadingView>,
) -> Option<Seq<char>> {
    match (s, t) {
        (Some(s), Some(reading)) => bad_time(label, s, reading),
        _ => None,
    }
}

/// What is wrong with the times of a record.
pub open spec fn times_refusal(rec: SimulationRecordView, t: RecordTimesView) -> Option<Seq<char>> {
    if bad_time("simulation created_at"@, rec.created_at, t.created_at) is Some {
        bad_time("simulation created_at"@, rec.created_at, t.created_at)
    } else if bad_time("simulation requested_at"@, rec.requested_at, t.requested_at) is Some {
        bad_time("simulation requested_at"@, rec.requested_at, t.requested_at)
    } else if optional_bad_time(
        "simulation source_observed_at"@,
        rec.source_observed_at,
        t.source_observed_at,
    ) is Some {
        optional_bad_time(
            "simulation source_observed_at"@,
            rec.source_observed_at,
            t.source_observed_at,
        )
    } else {
        optional_bad_time("simulation completed_at"@, rec.completed_at, t.completed_at)
    }
}

/// The kind of action that canonical inputs call so.
pub open spec fn canonical_type(name: Option<Seq<char>>) -> Option<Seq<char>> {
    if name == Some("RebalanceChannel"@) {
        Some("rebalance_channel"@)
    } else if name == Some("UpdateFeePolicy"@) {
        Some("update_fee_policy"@)
    } else if name == Some("RestartService"@) {
        Some("restart_service"@)
    } else if name == Some("Custom"@) {
        Some("custom"@)
    } else {
        None
    }
}

/// What is said of a field of the canonical input that the record contradicts.
pub open spec fn input_disagrees(field: Seq<char>) -> Option<Seq<char>> {
    Some("canonical simulation input "@ + field + " disagrees with record"@)
}

/// What is wrong with a canonical input.
pub open spec fn input_refusal(
    rec: SimulationRecordView,
    f: InputFactsView,
    t: RecordTimesView,
) -> Option<Seq<char>> {
    if rec.input_hash != model::input_hash_text(
        identity::text_bytes(json::json_text(rec.canonical_input)),
    ) {
        Some("simulation input hash does not match canonical input"@)
    } else if f.recommendation_id != Some(rec.action_id) {
        input_disagrees("recommendation_id"@)
    } else if f.finding_id != Some(rec.finding_id) {
        input_disagrees("finding_id"@)
    } else if f.model_id != Some(rec.model_id) {
        input_disagrees("model_id"@)
    } else if f.model_version != Some(rec.model_version) {
        input_disagrees("model_version"@)
    } else if canonical_type(f.action_type) is None {
        Some("canonical simulation input has invalid action_type"@)
    } else if canonical_type(f.action_type) != Some(rec.action_type) {
        Some("canonical simulation action type disagrees with record"@)
    } else if f.source_ts is None || t.canonical_source is None {
        Some("canonical simulation input has no source timestamp"@)
    } else if rec.source_observed_at is None || t.source_observed_at is None {
        Some("simulation record has no source timestamp"@)
    } else {
        match (t.canonical_source->0, t.source_observed_at->0) {
            (TimeReadingView::Bad(message), _) => Some(
                "invalid canonical source timestamp: "@ + message,
            ),
            (_, TimeReadingView::Bad(message)) => Some(
                "invalid recorded source timestamp: "@ + message,
            ),
            (TimeReadingView::At(canonical), TimeReadingView::At(recorded)) => if canonical
                == recorded {
                None
            } else {
                Some(
                    "simulation source timestamp "@ + finding::or_empty(t.recorded_shown)
                        + " disagrees with canonical input "@ + finding::or_empty(
                        t.canonical_shown,
                    ),
                )
            },
        }
    }
}

/// What is said of a field of the projection that the record contradicts.
pub open spec fn projection_disagrees(field: Seq<char>) -> Option<Seq<char>> {
    Some("simulation projection "@ + field + " disagrees with record"@)
}

/// The text of a JSON value that may be missing.
pub open spec fn or_null(s: Option<Seq<char>>) -> Seq<char> {
    match s {
        Some(text) => text,
        None => "null"@,
    }
}

/// What is wrong with a projection.
pub open spec fn projection_refusal(rec: SimulationRecordView, f: ProjectionFactsView) -> Option<
    Seq<char>,
> {
    if f.model_id != Some(rec.model_id) {
        projection_disagrees("model_id"@)
    } else if f.model_version != Some(rec.model_version) {
        projection_disagrees("model_version"@)
    } else if f.input_hash != Some(rec.input_hash) {
        projection_disagrees("input_hash"@)
    } else if !json::same_document(or_null(f.assumptions), json::json_text(rec.assumptions))
        || !json::same_document(or_null(f.warnings), json::json_text(rec.warnings)) || f.confidence
        != Some(rec.confidence) {
        Some("simulation projection metadata disagrees with record"@)
    } else {
        None
    }
}

/// What is wrong with whether a record has a projection.
pub open spec fn outcome_refusal(rec: SimulationRecordView) -> Option<Seq<char>> {
    if rec.status == "completed"@ && rec.projection == JsonView::Null {
        Some("completed simulation has no deterministic projection"@)
    } else if (rec.status == "unsupported"@ || rec.status == "invalid_input"@ || rec.status
        == "failed"@) && rec.projection != JsonView::Null {
        Some(rec.status + " simulation must not contain a projection"@)
    } else {
        None
    }
}

/// The first thing that is wrong with a stored simulation, of which the facts
/// and the times are these.
pub open spec fn record_refusal(
    rec: SimulationRecordView,
    input: InputFactsView,
    projection: ProjectionFactsView,
    times: RecordTimesView,
) -> Option<Seq<char>> {
    if header_refusal(rec) is Some {
        header_refusal(rec)
    } else if times_refusal(rec, times) is Some {
        times_refusal(rec, times)
    } else if rec.canonical_input != JsonView::Null && input_refusal(rec, input, times) is Some {
        input_refusal(rec, input, times)
    } else if rec.canonical_input != JsonView::Null && rec.projection != JsonView::Null
        && projection_refusal(rec, projection) is Some {
        projection_refusal(rec, projection)
    } else {
        outcome_refusal(rec)
    }
}

fn check_header(rec: &SimulationRecord) -> (r: Option<String>)
    ensures
        r.deep_view() == header_refusal(rec.deep_view()),
{
    if let Err(e) = validate_simulation_status(rec.status.as_str()) {
        return match e {
            StorageError::Corrupt(message) => Some(message),
            StorageError::Backend(message) => Some(message),
            StorageError::Unsupported(message) => Some(message),
        };
    }
    if !is_confidence(rec.confidence.as_str()) {
        return Some(
            "invalid simulation confidence ".to_owned().concat(
                debug_text(rec.confidence.as_str()).as_str(),
            ),
        );
    }
    let digits = text::chars_of(rec.input_hash.as_str());
    if digits.len() > 0 && !(digits.len() == 64 && all_hex(&digits)) {
        return Some("invalid simulation input hash".to_owned());
    }
    None
}

fn all_hex(chars: &Vec<char>) -> (r: bool)
    ensures
        r == text::all_digits(chars@, 16),
{
    let mut i: usize = 0;
    while i < chars.len()
        invariant
            i <= chars.len(),
            forall|k: int| 0 <= k < i ==> (#[trigger] text::digit_value(chars@[k], 16)) is Some,
        decreases chars.len() - i,
    {
        let c = chars[i];
        if !(('0' <= c && c <= '9') || ('a' <= c && c <= 'f') || ('A' <= c && c <= 'F')) {
            assert(text::digit_value(chars@[i as int], 16) is None);
            return false;
        }
        i += 1;
    }
    true
}

fn said_of_time(label: &str, s: &str, reading: &TimeReading) -> (r: Option<String>)
    ensures
        r.deep_view() == bad_time(label@, s@, reading.deep_view()),
{
    match reading {
        TimeReading::At(_) => None,
        TimeReading::Bad(message) => Some(
            "invalid ".to_owned().concat(label).concat(" ").concat(debug_text(s).as_str()).concat(
                ": ",
            ).concat(message.as_str()),
        ),
    }
}

fn said_of_optional_time(label: &str, s: &Option<String>, reading: &Option<TimeReading>) -> (r:
    Option<String>)
    ensures
        r.deep_view() == optional_bad_time(label@, s.deep_view(), reading.deep_view()),
{
    match (s, reading) {
        (Some(s), Some(reading)) => said_of_time(label, s.as_str(), reading),
        _ => None,
    }
}

fn check_times(rec: &SimulationRecord, t: &RecordTimes) -> (r: Option<String>)
    ensures
        r.deep_view() == times_refusal(rec.deep_view(), t.deep_view()),
{
    if let Some(message) = said_of_time(
        "simulation created_at",
        rec.created_at.as_str(),
        &t.created_at,
    ) {
        return Some(message);
    }
    if let Some(message) = said_of_time(
        "simulation requested_at",
        rec.requested_at.as_str(),
        &t.requested_at,
    ) {
        return Some(message);
    }
    if let Some(message) = said_of_optional_time(
        "simulation source_observed_at",
        &rec.source_observed_at,
        &t.source_observed_at,
    ) {
        return Some(message);
    }
    said_of_optional_time("simulation completed_at", &rec.completed_at, &t.completed_at)
}

fn is_text(found: &Option<String>, expected: &str) -> (r: bool)
    ensures
        r == (found.deep_view() == Some(expected@)),
{
    match found {
        Some(s) => same_text(s.as_str(), expected),
        None => false,
    }
}

fn disagreement(field: &str) -> (r: Option<String>)
    ensures
        r.deep_view() == input_disagrees(field@),
{
    Some(
        "canonical simulation input ".to_owned().concat(field).concat(" disagrees with record"),
    )
}

fn known_type(name: &Option<String>) -> (r: Option<&'static str>)
    ensures
        r.deep_view() == canonical_type(name.deep_view()),
{
    if is_text(name, "RebalanceChannel") {
        Some("rebalance_channel")
    } else if is_text(name, "UpdateFeePolicy") {
        Some("update_fee_policy")
    } else if is_text(name, "RestartService") {
        Some("restart_service")
    } else if is_text(name, "Custom") {
        Some("custom")
    } else {
        None
    }
}

fn text_or_empty(s: &Option<String>) -> (r: String)
    ensures
        r@ == finding::or_empty(s.deep_view()),
{
    match s {
        Some(s) => s.clone(),
        None => String::new(),
    }
}

fn check_input(rec: &SimulationRecord, f: &InputFacts, t: &RecordTimes) -> (r: Option<String>)
    ensures
        r.deep_view() == input_refusal(rec.deep_view(), f.deep_view(), t.deep_view()),
{
    proof {
        reveal(identity::text_bytes);
    }
    let document = rec.canonical_input.to_text();
    let expected = compute_input_hash(document.as_str().as_bytes());
    if !same_text(rec.input_hash.as_str(), expected.as_str()) {
        return Some("simulation input hash does not match canonical input".to_owned());
    }
    if !is_text(&f.recommendation_id, rec.action_id.as_str()) {
        return disagreement("recommendation_id");
    }
    if !is_text(&f.finding_id, rec.finding_id.as_str()) {
        return disagreement("finding_id");
    }
    if !is_text(&f.model_id, rec.model_id.as_str()) {
        return disagreement("model_id");
    }
    if !is_text(&f.model_version, rec.model_version.as_str()) {
        return disagreement("model_version");
    }
    match known_type(&f.action_type) {
        None => {
            return Some("canonical simulation input has invalid action_type".to_owned());
        },
        Some(name) => {
            if !same_text(name, rec.action_type.as_str()) {
                return Some("canonical simulation action type disagrees with record".to_owned());
            }
        },
    }
    let canonical = match (&f.source_ts, &t.canonical_source) {
        (Some(_), Some(reading)) => reading,
        _ => {
            return Some("canonical simulation input has no source timestamp".to_owned());
        },
    };
    let recorded = match (&rec.source_observed_at, &t.source_observed_at) {
        (Some(_), Some(reading)) => reading,
        _ => {
            return Some("simulation record has no source timestamp".to_owned());
        },
    };
    match (canonical, recorded) {
        (TimeReading::Bad(message), _) => Some(
            "invalid canonical source timestamp: ".to_owned().concat(message.as_str()),
        ),
        (_, TimeReading::Bad(message)) => Some(
            "invalid recorded source timestamp: ".to_owned().concat(message.as_str()),
        ),
        (TimeReading::At(a), TimeReading::At(b)) => if *a == *b {
            None
        } else {
            Some(
                "simulation source timestamp ".to_owned().concat(
                    text_or_empty(&t.recorded_shown).as_str(),
                ).concat(" disagrees with canonical input ").concat(
                    text_or_empty(&t.canonical_shown).as_str(),
                ),
            )
        },
    }
}

fn contradiction(field: &str) -> (r: Option<String>)
    ensures
        r.deep_view() == projection_disagrees(field@),
{
    Some("simulation projection ".to_owned().concat(field).concat(" disagrees with record"))
}

fn is_value(found: &Option<String>, expected: &Json) -> (r: bool)
    ensures
        r == json::same_document(or_null(found.deep_view()), json::json_text(expected.deep_view())),
{
    let expected = expected.to_text();
    match found {
        Some(s) => json::same_json_text(s.as_str(), expected.as_str()),
        None => json::same_json_text("null", expected.as_str()),
    }
}

fn check_projection(rec: &SimulationRecord, f: &ProjectionFacts) -> (r: Option<String>)
    ensures
        r.deep_view() == projection_refusal(rec.deep_view(), f.deep_view()),
{
    if !is_text(&f.model_id, rec.model_id.as_str()) {
        return contradiction("model_id");
    }
    if !is_text(&f.model_version, rec.model_version.as_str()) {
        return contradiction("model_version");
    }
    if !is_text(&f.input_hash, rec.input_hash.as_str()) {
        return contradiction("input_hash");
    }
    if !is_value(&f.assumptions, &rec.assumptions) || !is_value(&f.warnings, &rec.warnings)
        || !is_text(&f.confidence, rec.confidence.as_str()) {
        return Some("simulation projection metadata disagrees with record".to_owned());
    }
    None
}

fn check_outcome(rec: &SimulationRecord) -> (r: Option<String>)
    ensures
        r.deep_view() == outcome_refusal(rec.deep_view()),
{
    let status = rec.status.as_str();
    if same_text(status, "completed") && rec.projection.is_null() {
        return Some("completed simulation has no deterministic projection".to_owned());
    }
    if (same_text(status, "unsupported") || same_text(status, "invalid_input") || same_text(
        status,
        "failed",
    )) && !rec.projection.is_null() {
        return Some(rec.status.clone().concat(" simulation must not contain a projection"));
    }
    None
}

/// What a check came back with: nothing, or a message of corruption.
pub open spec fn corrupt(message: Option<Seq<char>>) -> Option<StorageErrorView> {
    match message {
        Some(message) => Some(StorageErrorView::Corrupt(message)),
        None => None,
    }
}

/// Checks a stored simulation, of which the facts and the times have been read:
/// its input must hash to its hash, and its input and its projection must agree
/// with it.
pub fn check_record(
    rec: &SimulationRecord,
    input: &InputFacts,
    projection: &ProjectionFacts,
    times: &RecordTimes,
) -> (r: Result<(), StorageError>)
    ensures
        records::refused(r) == corrupt(
            record_refusal(
                rec.deep_view(),
                input.deep_view(),
                projection.deep_view(),
                times.deep_view(),
            ),
        ),
{
    if let Some(message) = check_header(rec) {
        return Err(StorageError::Corrupt(message));
    }
    if let Some(message) = check_times(rec, times) {
        return Err(StorageError::Corrupt(message));
    }
    if !rec.canonical_input.is_null() {
        if let Some(message) = check_input(rec, input, times) {
            return Err(StorageError::Corrupt(message));
        }
        if !rec.projection.is_null() {
            if let Some(message) = check_projection(rec, projection) {
                return Err(StorageError::Corrupt(message));
            }
        }
    }
    match check_outcome(rec) {
        Some(message) => Err(StorageError::Corrupt(message)),
        None => Ok(()),
    }
}

fn shown(s: &Option<String>) -> (r: Option<String>)
    ensures
        r.deep_view() == optional_shown(s.deep_view()),
{
    match s {
        Some(s) => shown_rfc3339(s.as_str()),
        None => None,
    }
}

fn read_view_time(s: &Option<String>) -> (r: Option<TimeReading>)
    ensures
        r.deep_view() == optional_view_reading(s.deep_view()),
{
    match s {
        Some(s) => Some(read_time(s.as_str())),
        None => None,
    }
}

/// The first thing that is wrong with a stored simulation.
pub open spec fn stored_refusal(rec: SimulationRecordView) -> Option<Seq<char>> {
    record_refusal(rec, input_facts(rec), projection_facts(rec), record_times(rec))
}

/// Checks a stored simulation: its input must hash to its hash, and its input
/// and its projection must agree with it.
pub fn validate_simulation_record(rec: &SimulationRecord) -> (r: Result<(), StorageError>)
    ensures
        records::refused(r) == corrupt(stored_refusal(rec.deep_view())),
{
    let document = rec.canonical_input.to_text();
    let document = document.as_str();
    let input = InputFacts {
        recommendation_id: text_field(document, "recommendation_id"),
        finding_id: text_field(document, "finding_id"),
        model_id: text_field(document, "model_id"),
        model_version: text_field(document, "model_version"),
        action_type: text_field(document, "action_type"),
        source_ts: pointer_text(document, "/source_snapshot/ts"),
    };
    let written = rec.projection.to_text();
    let written = written.as_str();
    let projection = ProjectionFacts {
        model_id: text_field(written, "model_id"),
        model_version: text_field(written, "model_version"),
        input_hash: text_field(written, "input_hash"),
        confidence: text_field(written, "confidence"),
        assumptions: value_field(written, "assumptions"),
        warnings: value_field(written, "warnings"),
    };
    let times = RecordTimes {
        created_at: read_time(rec.created_at.as_str()),
        requested_at: read_time(rec.requested_at.as_str()),
        source_observed_at: read_view_time(&rec.source_observed_at),
        completed_at: read_view_time(&rec.completed_at),
        canonical_source: read_view_time(&input.source_ts),
        canonical_shown: shown(&input.source_ts),
        recorded_shown: shown(&rec.source_observed_at),
    };
    check_record(rec, &input, &projection, &times)
}

/// A row of the simulations, with its JSON columns read.
#[derive(Debug, PartialEq, Eq)]
pub struct RecordRow {
    pub id: String,
    pub action_id: String,
    pub finding_id: String,
    pub action_type: String,
    pub status: String,
    pub model_id: String,
    pub model_version: String,
    pub input_hash: String,
    pub confidence: String,
    pub assumptions: Result<Json, String>,
    pub warnings: Result<Json, String>,
    pub explanation: String,
    pub projection: Result<Json, String>,
    pub created_at: String,
    /// Null where the column is empty.
    pub canonical_input: Result<Json, String>,
    pub source_observed_at: Option<String>,
    pub requested_at: String,
    pub completed_at: Option<String>,
    pub error_code: Option<String>,
}

/// The record that a row holds, whose JSON columns could be read.
pub open spec fn row_record(row: RecordRow) -> SimulationRecordView {
    SimulationRecordView {
        id: row.id@,
        action_id: row.action_id@,
        finding_id: row.finding_id@,
        action_type: row.action_type@,
        status: row.status@,
        model_id: row.model_id@,
        model_version: row.model_version@,
        input_hash: row.input_hash@,
        confidence: row.confidence@,
        assumptions: row.assumptions->Ok_0.deep_view(),
        warnings: row.warnings->Ok_0.deep_view(),
        explanation: row.explanation@,
        canonical_input: row.canonical_input->Ok_0.deep_view(),
        projection: row.projection->Ok_0.deep_view(),
        source_observed_at: row.source_observed_at.deep_view(),
        requested_at: row.requested_at@,
        completed_at: row.completed_at.deep_view(),
        error_code: row.error_code.deep_view(),
        created_at: row.created_at@,
    }
}

/// The first column of a row of the simulations that says what it cannot say;
/// the record as a whole is checked last.
pub open spec fn record_row_refusal(row: RecordRow) -> Option<ColumnErrorView> {
    let created = bad_time("simulation created_at"@, row.created_at@, reading_of(row.created_at@));
    let source = optional_bad_time(
        "simulation source_observed_at"@,
        row.source_observed_at.deep_view(),
        optional_view_reading(row.source_observed_at.deep_view()),
    );
    let requested = bad_time(
        "simulation requested_at"@,
        row.requested_at@,
        reading_of(row.requested_at@),
    );
    let completed = optional_bad_time(
        "simulation completed_at"@,
        row.completed_at.deep_view(),
        optional_view_reading(row.completed_at.deep_view()),
    );
    if status_refusal(row.status@) is Some {
        Some(bad_column(4, "corrupt record: "@ + status_refusal(row.status@)->0))
    } else if !confidence_known(row.confidence@) {
        Some(
            bad_column(
                8,
                "invalid simulation confidence "@ + text::debug_text_of(row.confidence@),
            ),
        )
    } else if created is Some {
        Some(bad_column(13, "corrupt record: "@ + created->0))
    } else if source is Some {
        Some(bad_column(15, "corrupt record: "@ + source->0))
    } else if requested is Some {
        Some(bad_column(16, "corrupt record: "@ + requested->0))
    } else if completed is Some {
        Some(bad_column(17, "corrupt record: "@ + completed->0))
    } else if row.assumptions is Err {
        Some(bad_column(9, "invalid simulation JSON: "@ + row.assumptions->Err_0@))
    } else if row.warnings is Err {
        Some(bad_column(10, "invalid simulation JSON: "@ + row.warnings->Err_0@))
    } else if row.projection is Err {
        Some(bad_column(12, "invalid simulation JSON: "@ + row.projection->Err_0@))
    } else if row.canonical_input is Err {
        Some(
            bad_column(
                14,
                "invalid canonical simulation input: "@ + row.canonical_input->Err_0@,
            ),
        )
    } else if stored_refusal(row_record(row)) is Some {
        Some(bad_column(14, "corrupt record: "@ + stored_refusal(row_record(row))->0))
    } else {
        None
    }
}

fn bad_json(index: usize, prefix: &str, message: &str) -> (r: ColumnError)
    ensures
        r.deep_view() == bad_column(index as nat, prefix@ + message@),
{
    column(index, prefix.to_owned().concat(message))
}

/// The simulation that a row holds.
pub fn decode_simulation_record(row: RecordRow) -> (r: Result<SimulationRecord, ColumnError>)
    ensures
        match r {
            Ok(rec) => record_row_refusal(row) is None && rec.deep_view() == row_record(row),
            Err(e) => record_row_refusal(row) == Some(e.deep_view()),
        },
{
    if let Err(e) = validate_simulation_status(row.status.as_str()) {
        return Err(column(4, e.to_text()));
    }
    if !is_confidence(row.confidence.as_str()) {
        return Err(
            bad_json(
                8,
                "invalid simulation confidence ",
                debug_text(row.confidence.as_str()).as_str(),
            ),
        );
    }
    if let Err(e) = validate_rfc3339("simulation created_at", row.created_at.as_str()) {
        return Err(column(13, e.to_text()));
    }
    if let Some(s) = &row.source_observed_at {
        if let Err(e) = validate_rfc3339("simulation source_observed_at", s.as_str()) {
            return Err(column(15, e.to_text()));
        }
    }
    if let Err(e) = validate_rfc3339("simulation requested_at", row.requested_at.as_str()) {
        return Err(column(16, e.to_text()));
    }
    if let Some(s) = &row.completed_at {
        if let Err(e) = validate_rfc3339("simulation completed_at", s.as_str()) {
            return Err(column(17, e.to_text()));
        }
    }
    let assumptions = match row.assumptions {
        Ok(v) => v,
        Err(message) => {
            return Err(bad_json(9, "invalid simulation JSON: ", message.as_str()));
        },
    };
    let warnings = match row.warnings {
        Ok(v) => v,
        Err(message) => {
            return Err(bad_json(10, "invalid simulation JSON: ", message.as_str()));
        },
    };
    let projection = match row.projection {
        Ok(v) => v,
        Err(message) => {
            return Err(bad_json(12, "invalid simulation JSON: ", message.as_str()));
        },
    };
    let canonical_input = match row.canonical_input {
        Ok(v) => v,
        Err(message) => {
            return Err(bad_json(14, "invalid canonical simulation input: ", message.as_str()));
        },
    };
    let record = SimulationRecord {
        id: row.id,
        action_id: row.action_id,
        finding_id: row.finding_id,
        action_type: row.action_type,
        status: row.status,
        model_id: row.model_id,
        model_version: row.model_version,
        input_hash: row.input_hash,
        confidence: row.confidence,
        assumptions,
        warnings,
        explanation: row.explanation,
        canonical_input,
        projection,
        source_observed_at: row.source_observed_at,
        requested_at: row.requested_at,
        completed_at: row.completed_at,
        error_code: row.error_code,
        created_at: row.created_at,
    };
    match validate_simulation_record(&record) {
        Ok(_) => Ok(record),
        Err(e) => Err(column(14, e.to_text())),
    }
}

/// A completed simulation that can be replayed and passes the check carries the
/// hash of its own input, has a projection, and that projection names the same
/// model and the same hash.
pub proof fn lemma_checked_records_are_consistent(
    rec: SimulationRecordView,
    input: InputFactsView,
    projection: ProjectionFactsView,
    times: RecordTimesView,
)
    requires
        record_refusal(rec, input, projection, times) is None,
        rec.canonical_input != JsonView::Null,
        rec.status == "completed"@,
    ensures
        rec.input_hash == model::input_hash_text(
            identity::text_bytes(json::json_text(rec.canonical_input)),
        ),
        rec.projection != JsonView::Null,
        projection.input_hash == Some(rec.input_hash),
        projection.model_id == Some(rec.model_id),
        projection.model_version == Some(rec.model_version),
        input.recommendation_id == Some(rec.action_id),
        input.finding_id == Some(rec.finding_id),
{
}

/// What one more complete cycle without a finding does to it: it is counted, and
/// once it has been absent twice before, it is resolved.
pub open spec fn absence_after(absent: u32) -> (FindingLifecycle, u32) {
    if absent >= 2 {
        (FindingLifecycle::Resolved, 0)
    } else {
        (FindingLifecycle::Active, (absent + 1) as u32)
    }
}

/// What one more complete cycle without an active finding does to it.
pub fn count_absence(absent: u32) -> (r: (FindingLifecycle, u32))
    ensures
        r == absence_after(absent),
{
    if absent >= 2 {
        (FindingLifecycle::Resolved, 0)
    } else {
        (FindingLifecycle::Active, absent + 1)
    }
}

/// The number of a severity grows with it and is read back as it; no other
/// number is one of a severity.
pub proof fn lemma_severity_numbers_read_back(severity: Severity, v: i64)
    ensures
        severity_numbered(severity_number(severity)) == Some(severity),
        severity_numbered(v) is Some <==> 0 <= v <= 2,
        severity_number(Severity::Info) < severity_number(Severity::Warning) < severity_number(
            Severity::Critical,
        ),
{
}

/// A finding that has been absent for two complete cycles is resolved by the
/// third, and counts anew; until then each is counted, and it stays active.
pub proof fn lemma_the_third_absence_resolves(absent: u32)
    ensures
        absence_after(absent).0 is Resolved <==> absent + 1 >= 3,
        absence_after(absent).0 is Resolved ==> absence_after(absent).1 == 0,
        absence_after(absent).0 is Active ==> absence_after(absent).1 == absent + 1,
        absence_after(absence_after(absent).1).1 != absence_after(absent).1,
{
}

/// A row of a snapshot is read exactly if its moment, its status and, where it
/// has one, its network can be; what is read is what the row holds, each amount
/// in its own place.
pub proof fn lemma_snapshot_rows_are_read_as_they_are(row: SnapshotRow, ts: TimeReadingView)
    ensures
        snapshot_refusal(row, ts) is None <==> ts is At && row.status_int <= 8 && (row.network_id
            is Some ==> network_named(row.network_id->0@) is Some),
        snapshot_refusal(row, ts) is None ==> {
            let s = row_snapshot(row, ts);
            &&& s.channel_id == row.channel_id@
            &&& TimeReadingView::At(s.ts) == ts
            &&& identity::status_code(s.status) == row.status_int
            &&& s.capacity_msat == row.capacity_msat
            &&& s.local_balance_msat == row.local_balance_msat
            &&& s.remote_balance_msat == row.remote_balance_msat
            &&& s.spendable_outbound_msat == row.spendable_outbound_msat
            &&& s.spendable_inbound_msat == row.spendable_inbound_msat
            &&& s.local_ratio == row.local_ratio
            &&& s.node_id == row.node_id.deep_view()
            &&& s.state_digest == row.state_digest.deep_view()
            &&& row.network_id is None ==> s.network is None
            &&& row.network_id is Some ==> s.network is Some && s.network->0.name()
                == row.network_id->0@
        },
{
}

/// A row of a finding that is read is read as it is. A row is refused for a
/// severity, a version of its form, a lifecycle or a moment that cannot be read,
/// and for evidence or a provenance that cannot.
pub proof fn lemma_finding_rows_are_read_as_they_are(row: FindingRow, t: FindingTimesView)
    ensures
        finding_refusal(row, t) is None <==> {
            &&& 0 <= row.severity <= 2
            &&& 1 <= row.schema_version <= FINDING_SCHEMA_VERSION
            &&& row.lifecycle@ == "active"@ || row.lifecycle@ == "resolved"@
            &&& row.evidence is Ok
            &&& row.provenance_read is Ok
            &&& t.ts is At && t.first_seen_at is At && t.last_seen_at is At
        },
        finding_refusal(row, t) is None ==> {
            let f = row_finding(row, t);
            &&& f.id == row.id@ && f.detector == row.detector@
            &&& row.detector_version is Some ==> f.detector_version == row.detector_version->0@
            &&& severity_number(f.severity) == row.severity
            &&& f.schema_version == row.schema_version
            &&& f.node == row.node.deep_view() && f.channel == row.channel.deep_view()
            &&& f.explanation == row.explanation.deep_view()
            &&& f.evidence == row.evidence->Ok_0.deep_view()
            &&& f.provenance == row.provenance_read->Ok_0.deep_view()
            &&& TimeReadingView::At(f.timestamp) == t.ts
            &&& TimeReadingView::At(f.first_seen_at) == t.first_seen_at
            &&& TimeReadingView::At(f.last_seen_at) == t.last_seen_at
            &&& f.lifecycle is Active <==> row.lifecycle@ == "active"@
        },
{
    reveal_strlit("active");
    reveal_strlit("resolved");
    assert("active"@.len() != "resolved"@.len());
}

/// A row of a recommendation is read exactly if its type, its stage, its
/// parameters, its rationale and its two moments can be, and as they are.
pub proof fn lemma_recommendation_rows_are_read_as_they_are(
    row: RecommendationRow,
    created: TimeReadingView,
    updated: TimeReadingView,
)
    ensures
        recommendation_refusal(row, created, updated) is None <==> {
            &&& type_named(row.action_type@) is Some
            &&& stage_named(row.stage@) is Some
            &&& row.params is Ok
            &&& row.rationale is Ok
            &&& created is At && updated is At
        },
        recommendation_refusal(row, created, updated) is None ==> {
            let r = row_recommendation(row, created, updated);
            &&& r.finding_id == row.finding_id@ && r.action.id == row.action_id@
            &&& r.action.action_type.name() == row.action_type@
            &&& execution::stage_name(r.action.stage) == row.stage@
            &&& r.action.target == row.target.deep_view() && r.action.summary == row.summary@
            &&& r.action.params == row.params->Ok_0.deep_view()
            &&& r.rationale == row.rationale->Ok_0.deep_view()
            &&& TimeReadingView::At(r.action.created_at) == created
            &&& TimeReadingView::At(r.action.updated_at) == updated
        },
{
}

/// A row of the audit is read exactly if its type, its stages, its details and
/// its moment can be, and as they are.
pub proof fn lemma_audit_rows_are_read_as_they_are(row: AuditRow, ts: TimeReadingView)
    ensures
        audit_refusal(row, ts) is None <==> {
            &&& type_named(row.action_type@) is Some
            &&& row.previous_stage is Some ==> stage_named(row.previous_stage->0@) is Some
            &&& stage_named(row.stage@) is Some
            &&& row.details is Ok
            &&& ts is At
        },
        audit_refusal(row, ts) is None ==> {
            let e = row_audit(row, ts);
            &&& e.id == row.id@ && e.action_id == row.action_id@ && e.actor == row.actor@
            &&& e.action_type.name() == row.action_type@
            &&& execution::stage_name(e.stage) == row.stage@
            &&& row.previous_stage is None ==> e.previous_stage is None
            &&& row.previous_stage is Some ==> e.previous_stage is Some && execution::stage_name(
                e.previous_stage->0,
            ) == row.previous_stage->0@
            &&& e.details == row.details->Ok_0.deep_view()
            &&& TimeReadingView::At(e.timestamp) == ts
        },
{
}

/// A record passes the check exactly if its header and its moments can be read,
/// it agrees with its input and its projection where it has them, and it has a
/// projection if it is completed and none if it came to no result.
pub proof fn lemma_which_records_pass(
    rec: SimulationRecordView,
    input: InputFactsView,
    projection: ProjectionFactsView,
    times: RecordTimesView,
)
    ensures
        record_refusal(rec, input, projection, times) is None <==> {
            &&& status_known(rec.status) && confidence_known(rec.confidence)
            &&& rec.input_hash.len() == 0 || (rec.input_hash.len() == 64 && text::all_digits(
                rec.input_hash,
                16,
            ))
            &&& times.created_at is At && times.requested_at is At
            &&& rec.source_observed_at is Some && times.source_observed_at is Some
                ==> times.source_observed_at->0 is At
            &&& rec.completed_at is Some && times.completed_at is Some ==> times.completed_at->0
                is At
            &&& !(rec.canonical_input is Null) ==> input_refusal(rec, input, times) is None
            &&& !(rec.canonical_input is Null) && !(rec.projection is Null) ==> projection_refusal(
                rec,
                projection,
            ) is None
            &&& rec.status == "completed"@ ==> !(rec.projection is Null)
            &&& rec.status == "unsupported"@ || rec.status == "invalid_input"@ || rec.status
                == "failed"@ ==> rec.projection is Null
        },
{
    reveal_strlit("completed");
    reveal_strlit("unsupported");
    reveal_strlit("invalid_input");
    reveal_strlit("failed");
    assert("completed"@.len() == 9 && "unsupported"@.len() == 11 && "invalid_input"@.len() == 13
        && "failed"@.len() == 6);
}

/// A record agrees with its input exactly if it carries the hash of that input,
/// names what the input names, and was observed when the input was.
pub proof fn lemma_when_records_agree_with_their_input(
    rec: SimulationRecordView,
    f: InputFactsView,
    t: RecordTimesView,
)
    ensures
        input_refusal(rec, f, t) is None <==> {
            &&& rec.input_hash == model::input_hash_text(
                identity::text_bytes(json::json_text(rec.canonical_input)),
            )
            &&& f.recommendation_id == Some(rec.action_id)
            &&& f.finding_id == Some(rec.finding_id)
            &&& f.model_id == Some(rec.model_id)
            &&& f.model_version == Some(rec.model_version)
            &&& canonical_type(f.action_type) == Some(rec.action_type)
            &&& f.source_ts is Some && rec.source_observed_at is Some
            &&& t.canonical_source is Some && t.source_observed_at is Some
            &&& t.canonical_source->0 is At && t.source_observed_at->0 == t.canonical_source->0
        },
{
}

/// A record agrees with its projection exactly if they name one model in one
/// version, one input and one confidence, and say the same of assumptions and
/// warnings.
pub proof fn lemma_when_records_agree_with_their_projection(
    rec: SimulationRecordView,
    f: ProjectionFactsView,
)
    ensures
        projection_refusal(rec, f) is None <==> {
            &&& f.model_id == Some(rec.model_id)
            &&& f.model_version == Some(rec.model_version)
            &&& f.input_hash == Some(rec.input_hash)
            &&& f.confidence == Some(rec.confidence)
            &&& json::same_document(or_null(f.assumptions), json::json_text(rec.assumptions))
            &&& json::same_document(or_null(f.warnings), json::json_text(rec.warnings))
        },
{
}

/// A row of an alert is read as it is: what is not there stays so, and what
/// cannot be read refuses the row.
pub proof fn lemma_alert_rows_are_read_as_they_are(row: AlertRow)
    ensures
        ({
            let sent = alert_time(row);
            let r = row_alert(row, sent);
            &&& r is Ok <==> {
                &&& sent is Some ==> sent->0 is At
                &&& row.last_severity is Some ==> 0 <= row.last_severity->0 <= 2
                &&& delivery_named(row.last_status@) is Some
            }
            &&& r is Ok ==> {
                &&& r->Ok_0.last_status.name() == row.last_status@
                &&& row.last_severity is None ==> r->Ok_0.last_severity is None
                &&& row.last_severity is Some ==> r->Ok_0.last_severity is Some && severity_number(
                    r->Ok_0.last_severity->0,
                ) == row.last_severity->0
                &&& sent is None ==> r->Ok_0.last_sent_at is None
                &&& sent is Some ==> r->Ok_0.last_sent_at is Some && sent->0
                    == TimeReadingView::At(r->Ok_0.last_sent_at->0)
            }
        }),
{
}

/// A source is read exactly if it is known by its name and has a connection, on
/// or off, unless it is the fixture, which has none.
pub proof fn lemma_which_sources_are_read(s: Seq<char>, connected: Option<i64>)
    ensures
        ({
            let r = source_named(s, connected);
            &&& r is Ok <==> {
                ||| s == "fixture"@ && connected is None
                ||| (s == "lnd_rest"@ || s == "btcpay_greenfield"@) && connected is Some && (
                connected->0 == 0 || connected->0 == 1)
            }
            &&& r is Ok ==> r->Ok_0.name() == s && (connected is Some ==> (r->Ok_0.reached()
                <==> connected->0 == 1))
        }),
{
    reveal_strlit("fixture");
    reveal_strlit("lnd_rest");
    reveal_strlit("btcpay_greenfield");
    assert("fixture"@.len() == 7 && "lnd_rest"@.len() == 8 && "btcpay_greenfield"@.len() == 17);
}

/// A row of the operational state that is read is read as it is, each moment and
/// each component in its own place.
pub proof fn lemma_operational_rows_are_read_as_they_are(row: OperationalRow)
    requires
        operational_refusal(row, operational_times(row)) is None,
    ensures
        ({
            let t = operational_times(row);
            let s = row_operational(row, t);
            &&& s.source.name() == row.source@
            &&& s.llm.name() == row.llm@ && s.alert_sink.name() == row.alert_sink@
                && s.cleanup.name() == row.cleanup@
            &&& reads_as(row.last_ingestion_attempt, s.last_ingestion_attempt)
            &&& reads_as(row.last_ingestion_success, s.last_ingestion_success)
            &&& reads_as(row.last_cycle_attempt, s.last_cycle_attempt)
            &&& reads_as(row.last_cycle_success, s.last_cycle_success)
            &&& reads_as(row.last_persist_success, s.last_persist_success)
            &&& reads_as(row.source_data_at, s.source_data_at)
            &&& reads_as(row.last_cleanup_attempt, s.last_cleanup_attempt)
            &&& reads_as(row.last_cleanup_success, s.last_cleanup_success)
        }),
{
    lemma_which_sources_are_read(row.source@, row.source_connected);
}

/// Whether an optional text says this optional moment.
pub open spec fn reads_as(s: Option<String>, at: Option<Timestamp>) -> bool {
    match s {
        Some(s) => at is Some && reading_of(s@) == TimeReadingView::At(at->0),
        None => at is None,
    }
}

/// An event of a simulation passes the check exactly if its status is known and
/// its moment can be read.
pub proof fn lemma_which_events_pass(e: SimulationEventView, ts: TimeReadingView)
    ensures
        event_refusal(e, ts) is None <==> status_known(e.status) && ts is At,
{
}

/// A row of a simulation is read exactly if its type, its projection and its
/// moment can be, and as they are.
pub proof fn lemma_simulation_rows_are_read_as_they_are(
    row: SimulationRow,
    created: TimeReadingView,
)
    ensures
        simulation_refusal(row, created) is None <==> type_named(row.action_type@) is Some
            && row.projection is Ok && created is At,
        simulation_refusal(row, created) is None ==> {
            let s = row_simulation(row, created);
            &&& s.id == row.id@ && s.action_id == row.action_id@ && s.finding_id
                == row.finding_id@
            &&& s.action_type.name() == row.action_type@
            &&& s.projection == row.projection->Ok_0.deep_view()
            &&& TimeReadingView::At(s.created_at) == created
        },
{
}

/// A row of a run is read exactly if its four values of JSON can be and what it
/// holds passes the check for runs, and as it is.
pub proof fn lemma_run_rows_are_read_as_they_are(row: RecordRow)
    ensures
        record_row_refusal(row) is None <==> {
            &&& row.assumptions is Ok && row.warnings is Ok
            &&& row.projection is Ok && row.canonical_input is Ok
            &&& stored_refusal(row_record(row)) is None
        },
        record_row_refusal(row) is None ==> {
            let r = row_record(row);
            &&& r.id == row.id@ && r.action_id == row.action_id@ && r.finding_id
                == row.finding_id@
            &&& r.action_type == row.action_type@ && r.status == row.status@
            &&& r.model_id == row.model_id@ && r.model_version == row.model_version@
            &&& r.input_hash == row.input_hash@ && r.confidence == row.confidence@
            &&& r.assumptions == row.assumptions->Ok_0.deep_view() && r.warnings
                == row.warnings->Ok_0.deep_view()
            &&& r.canonical_input == row.canonical_input->Ok_0.deep_view() && r.projection
                == row.projection->Ok_0.deep_view()
            &&& r.requested_at == row.requested_at@ && r.created_at == row.created_at@
            &&& r.completed_at == row.completed_at.deep_view() && r.source_observed_at
                == row.source_observed_at.deep_view()
            &&& r.error_code == row.error_code.deep_view()
        },
{
}

/// The name of every confidence is known, and every name that is known is that
/// of a confidence. So it is with the statuses of a simulation.
pub proof fn lemma_known_names_are_those_of_values(
    name: Seq<char>,
    confidence: model::SimulationConfidence,
    status: model::SimulationStatus,
)
    ensures
        confidence_known(confidence.name()),
        confidence_known(name) ==> exists|c: model::SimulationConfidence|
            #[trigger] c.name() == name,
        status_known(status.name()),
        status_known(name) ==> exists|s: model::SimulationStatus| #[trigger] s.name() == name,
{
    if confidence_known(name) {
        assert(model::SimulationConfidence::High.name() == "high"@);
        assert(model::SimulationConfidence::Medium.name() == "medium"@);
        assert(model::SimulationConfidence::Low.name() == "low"@);
        assert(model::SimulationConfidence::Unknown.name() == "unknown"@);
    }
    if status_known(name) {
        assert(model::SimulationStatus::Requested.name() == "requested"@);
        assert(model::SimulationStatus::Completed.name() == "completed"@);
        assert(model::SimulationStatus::Unsupported.name() == "unsupported"@);
        assert(model::SimulationStatus::InvalidInput.name() == "invalid_input"@);
        assert(model::SimulationStatus::Stale.name() == "stale"@);
        assert(model::SimulationStatus::Failed.name() == "failed"@);
    }
}

/// A moment can be written exactly if the calendar has its second, and it has no
/// more nanoseconds than that second: a leap second, the last of a minute, has
/// twice as many. What is written is read back for the years up to 9999.
pub proof fn lemma_which_moments_can_be_written(t: Timestamp)
    ensures
        writable(t) <==> {
            &&& -8_334_601_228_800 <= t.secs <= 8_210_266_876_799
            &&& t.nanos < 1_000_000_000 || (t.nanos < 2_000_000_000 && t.secs as int % 60 == 59)
        },
        readable(t) <==> writable(t) && -62_167_219_200 <= t.secs <= 253_402_300_799,
{
}

} // verus!
