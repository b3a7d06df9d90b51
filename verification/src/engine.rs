//! The recommendation engine: from findings to reviewed, evidence-backed advice.
//! It proposes, never executes, and carries no parameters to execute with.
use crate::action::{
    Action, ActionType, Actionability, Rationale, RationaleView, Recommendation, RecommendationView,
};
use crate::finding::{
    EvidenceView, Finding, FindingLifecycle, FindingView, Severity, FINDING_SCHEMA_VERSION,
};
use crate::json::{Json, JsonView, Member, MemberView, Params, ParamsView};
use crate::numeric;
use crate::text;
use crate::text::{is_blank, same_text, u64_text};
use crate::time::{current_time, Timestamp};
use vstd::prelude::*;

verus! {

/// Why a finding yields no recommendation.
#[allow(inconsistent_fields)]
#[derive(Debug, PartialEq, Eq)]
pub enum RecommendationEngineError {
    UnsupportedDetector { finding_id: String, detector: String },
    UnsupportedDetectorVersion { finding_id: String, detector: String, version: String },
    UnsupportedSchemaVersion { finding_id: String, version: u8, current: u8 },
    InactiveFinding { finding_id: String },
    UnsupportedSeverity { finding_id: String, severity: Severity },
    MissingChannel { finding_id: String },
    EmptyChannel { finding_id: String },
    EmptyEvidenceKey { finding_id: String, index: usize },
    DuplicateEvidenceKey { finding_id: String, key: String },
    MissingEvidence { finding_id: String, key: &'static str },
    InvalidEvidence { finding_id: String, key: &'static str, expected: &'static str },
    UnknownDirection { finding_id: String, direction: String },
}

/// The objection to a finding, apart from which finding it is.
pub enum Objection {
    Detector(Seq<char>),
    DetectorVersion(Seq<char>, Seq<char>),
    SchemaVersion(u8, u8),
    Inactive,
    Severity(Severity),
    MissingChannel,
    EmptyChannel,
    EmptyKey(int),
    DuplicateKey(Seq<char>),
    MissingEvidence(Seq<char>),
    InvalidEvidence(Seq<char>, Seq<char>),
    Direction(Seq<char>),
}

/// The mathematical value of a [`RecommendationEngineError`].
pub struct RecommendationEngineErrorView {
    pub finding_id: Seq<char>,
    pub objection: Objection,
}

impl DeepView for RecommendationEngineError {
    type V = RecommendationEngineErrorView;

    open spec fn deep_view(&self) -> RecommendationEngineErrorView {
        match self {
            RecommendationEngineError::UnsupportedDetector { finding_id, detector } => refused(
                finding_id@,
                Objection::Detector(detector@),
            ),
            RecommendationEngineError::UnsupportedDetectorVersion {
                finding_id,
                detector,
                version,
            } => refused(finding_id@, Objection::DetectorVersion(detector@, version@)),
            RecommendationEngineError::UnsupportedSchemaVersion {
                finding_id,
                version,
                current,
            } => refused(finding_id@, Objection::SchemaVersion(*version, *current)),
            RecommendationEngineError::InactiveFinding { finding_id } => refused(
                finding_id@,
                Objection::Inactive,
            ),
            RecommendationEngineError::UnsupportedSeverity { finding_id, severity } => refused(
                finding_id@,
                Objection::Severity(*severity),
            ),
            RecommendationEngineError::MissingChannel { finding_id } => refused(
                finding_id@,
                Objection::MissingChannel,
            ),
            RecommendationEngineError::EmptyChannel { finding_id } => refused(
                finding_id@,
                Objection::EmptyChannel,
            ),
            RecommendationEngineError::EmptyEvidenceKey { finding_id, index } => refused(
                finding_id@,
                Objection::EmptyKey(*index as int),
            ),
            RecommendationEngineError::DuplicateEvidenceKey { finding_id, key } => refused(
                finding_id@,
                Objection::DuplicateKey(key@),
            ),
            RecommendationEngineError::MissingEvidence { finding_id, key } => refused(
                finding_id@,
                Objection::MissingEvidence(key@),
            ),
            RecommendationEngineError::InvalidEvidence { finding_id, key, expected } => refused(
                finding_id@,
                Objection::InvalidEvidence(key@, expected@),
            ),
            RecommendationEngineError::UnknownDirection { finding_id, direction } => refused(
                finding_id@,
                Objection::Direction(direction@),
            ),
        }
    }
}

/// The error that an objection to a finding leads to.
pub open spec fn refused(
    finding_id: Seq<char>,
    objection: Objection,
) -> RecommendationEngineErrorView {
    RecommendationEngineErrorView { finding_id, objection }
}

/// The name of a severity.
pub open spec fn severity_name(severity: Severity) -> Seq<char> {
    match severity {
        Severity::Info => "Info"@,
        Severity::Warning => "Warning"@,
        Severity::Critical => "Critical"@,
    }
}

/// The name of a severity.
pub fn severity_text(severity: Severity) -> (r: &'static str)
    ensures
        r@ == severity_name(severity),
{
    match severity {
        Severity::Info => "Info",
        Severity::Warning => "Warning",
        Severity::Critical => "Critical",
    }
}

/// What an objection says.
pub open spec fn objection_text(o: Objection) -> Seq<char> {
    match o {
        Objection::Detector(detector) => "unsupported detector "@ + detector,
        Objection::DetectorVersion(detector, version) => "unsupported "@ + detector
            + " detector version "@ + version,
        Objection::SchemaVersion(version, current) => "unsupported finding schema version "@
            + text::decimal(version as nat) + " (current "@ + text::decimal(current as nat)
            + ")"@,
        Objection::Inactive => "finding is not active"@,
        Objection::Severity(severity) => "unsupported severity "@ + severity_name(severity),
        Objection::MissingChannel => "no target channel"@,
        Objection::EmptyChannel => "target channel is empty"@,
        Objection::EmptyKey(index) => "evidence key at index "@ + text::decimal(index as nat)
            + " is empty"@,
        Objection::DuplicateKey(key) => "duplicate evidence key "@ + key,
        Objection::MissingEvidence(key) => "missing evidence "@ + key,
        Objection::InvalidEvidence(key, expected) => "evidence "@ + key + " must be "@ + expected,
        Objection::Direction(direction) => "unknown direction "@ + direction,
    }
}

impl RecommendationEngineError {
    /// What the error says.
    pub fn to_text(&self) -> (r: String)
        ensures
            r@ == "cannot recommend for finding "@ + self.deep_view().finding_id + ": "@
                + objection_text(self.deep_view().objection),
    {
        let start = "cannot recommend for finding ".to_owned();
        match self {
            RecommendationEngineError::UnsupportedDetector { finding_id, detector } => {
                let said = "unsupported detector ".to_owned().concat(detector.as_str());
                start.concat(finding_id.as_str()).concat(": ").concat(said.as_str())
            },
            RecommendationEngineError::UnsupportedDetectorVersion {
                finding_id,
                detector,
                version,
            } => {
                let said = "unsupported ".to_owned().concat(detector.as_str()).concat(
                    " detector version ",
                ).concat(version.as_str());
                start.concat(finding_id.as_str()).concat(": ").concat(said.as_str())
            },
            RecommendationEngineError::UnsupportedSchemaVersion {
                finding_id,
                version,
                current,
            } => {
                let said = "unsupported finding schema version ".to_owned().concat(
                    u64_text(*version as u64).as_str(),
                ).concat(" (current ").concat(u64_text(*current as u64).as_str()).concat(")");
                start.concat(finding_id.as_str()).concat(": ").concat(said.as_str())
            },
            RecommendationEngineError::InactiveFinding { finding_id } => start.concat(
                finding_id.as_str(),
            ).concat(": ").concat("finding is not active"),
            RecommendationEngineError::UnsupportedSeverity { finding_id, severity } => {
                let said = "unsupported severity ".to_owned().concat(severity_text(*severity));
                start.concat(finding_id.as_str()).concat(": ").concat(said.as_str())
            },
            RecommendationEngineError::MissingChannel { finding_id } => start.concat(
                finding_id.as_str(),
            ).concat(": ").concat("no target channel"),
            RecommendationEngineError::EmptyChannel { finding_id } => start.concat(
                finding_id.as_str(),
            ).concat(": ").concat("target channel is empty"),
            RecommendationEngineError::EmptyEvidenceKey { finding_id, index } => {
                let said = "evidence key at index ".to_owned().concat(
                    u64_text(*index as u64).as_str(),
                ).concat(" is empty");
                start.concat(finding_id.as_str()).concat(": ").concat(said.as_str())
            },
            RecommendationEngineError::DuplicateEvidenceKey { finding_id, key } => {
                let said = "duplicate evidence key ".to_owned().concat(key.as_str());
                start.concat(finding_id.as_str()).concat(": ").concat(said.as_str())
            },
            RecommendationEngineError::MissingEvidence { finding_id, key } => {
                let said = "missing evidence ".to_owned().concat(key);
                start.concat(finding_id.as_str()).concat(": ").concat(said.as_str())
            },
            RecommendationEngineError::InvalidEvidence { finding_id, key, expected } => {
                let said = "evidence ".to_owned().concat(key).concat(" must be ").concat(expected);
                start.concat(finding_id.as_str()).concat(": ").concat(said.as_str())
            },
            RecommendationEngineError::UnknownDirection { finding_id, direction } => {
                let said = "unknown direction ".to_owned().concat(direction.as_str());
                start.concat(finding_id.as_str()).concat(": ").concat(said.as_str())
            },
        }
    }
}

/// The first objection, where there is one, else the second.
pub open spec fn either(a: Option<Objection>, b: Option<Objection>) -> Option<Objection> {
    if a is Some {
        a
    } else {
        b
    }
}

/// The objection to the keys of the evidence from `from` on: the first key that
/// is blank or stands earlier in the list too.
pub open spec fn key_objection(evidence: Seq<EvidenceView>, from: int) -> Option<Objection>
    decreases evidence.len() - from,
{
    if from < 0 || from >= evidence.len() {
        None
    } else if text::blank(evidence[from].key) {
        Some(Objection::EmptyKey(from))
    } else if key_occurs(evidence.take(from), evidence[from].key) {
        Some(Objection::DuplicateKey(evidence[from].key))
    } else {
        key_objection(evidence, from + 1)
    }
}

/// Whether some piece of evidence has this key.
pub open spec fn key_occurs(evidence: Seq<EvidenceView>, key: Seq<char>) -> bool {
    exists|j: int| 0 <= j < evidence.len() && (#[trigger] evidence[j]).key == key
}

/// The objection to what every detector's findings must meet.
pub open spec fn common_objection(f: FindingView) -> Option<Objection> {
    if f.detector_version != "1"@ && f.detector_version != "2"@ {
        Some(Objection::DetectorVersion(f.detector, f.detector_version))
    } else if !(1 <= f.schema_version <= FINDING_SCHEMA_VERSION) {
        Some(Objection::SchemaVersion(f.schema_version, FINDING_SCHEMA_VERSION))
    } else if f.lifecycle != FindingLifecycle::Active {
        Some(Objection::Inactive)
    } else if f.severity == Severity::Info {
        Some(Objection::Severity(f.severity))
    } else {
        key_objection(f.evidence, 0)
    }
}

/// The objection to the channel of a finding.
pub open spec fn channel_objection(f: FindingView) -> Option<Objection> {
    match f.channel {
        None => Some(Objection::MissingChannel),
        Some(channel) => if text::blank(channel) {
            Some(Objection::EmptyChannel)
        } else {
            None
        },
    }
}

/// The value of the evidence named `key`, where there is some.
pub open spec fn evidence_of(f: FindingView, key: Seq<char>) -> Option<JsonView> {
    crate::finding::first_evidence(f.evidence, key)
}

/// The objection to evidence that must be there and meet `holds`.
pub open spec fn value_objection(
    f: FindingView,
    key: Seq<char>,
    holds: spec_fn(JsonView) -> bool,
    expected: Seq<char>,
) -> Option<Objection> {
    match evidence_of(f, key) {
        None => Some(Objection::MissingEvidence(key)),
        Some(v) => if holds(v) {
            None
        } else {
            Some(Objection::InvalidEvidence(key, expected))
        },
    }
}

/// The objection to evidence that must be a string.
pub open spec fn text_objection(f: FindingView, key: Seq<char>) -> Option<Objection> {
    value_objection(f, key, |v: JsonView| v is Text, "a string"@)
}

/// The objection to evidence that must be a string that is not blank.
pub open spec fn filled_text_objection(f: FindingView, key: Seq<char>) -> Option<Objection> {
    either(
        text_objection(f, key),
        value_objection(
            f,
            key,
            |v: JsonView| v is Text && !text::blank(v->Text_0),
            "a non-empty string"@,
        ),
    )
}

/// The objection to evidence that must be a number from 0 to 1.
pub open spec fn ratio_objection(f: FindingView, key: Seq<char>) -> Option<Objection> {
    value_objection(
        f,
        key,
        |v: JsonView| numeric::unit_number(v),
        "a finite number in 0..=1"@,
    )
}

/// The objection to evidence that must be a number that is not negative.
pub open spec fn non_negative_objection(f: FindingView, key: Seq<char>) -> Option<Objection> {
    value_objection(
        f,
        key,
        |v: JsonView| numeric::non_negative_number(v),
        "a finite non-negative number"@,
    )
}

/// The objection to evidence that must be a number above zero.
pub open spec fn positive_objection(f: FindingView, key: Seq<char>) -> Option<Objection> {
    value_objection(
        f,
        key,
        |v: JsonView| numeric::positive_number(v),
        "a finite positive number"@,
    )
}

/// The string that the evidence named `key` holds.
pub open spec fn text_of(f: FindingView, key: Seq<char>) -> Seq<char> {
    evidence_of(f, key)->0->Text_0
}

/// The objection to a direction that is not one of the known ones.
pub open spec fn direction_objection(f: FindingView, known: bool) -> Option<Objection> {
    if known {
        None
    } else {
        Some(Objection::Direction(text_of(f, "direction"@)))
    }
}

/// The objection to a finding on the liquidity of a channel.
pub open spec fn liquidity_objection(f: FindingView) -> Option<Objection> {
    let direction = text_of(f, "direction"@);
    either(
        common_objection(f),
        either(
            channel_objection(f),
            either(
                text_objection(f, "direction"@),
                either(
                    direction_objection(f, direction == "outbound"@ || direction == "inbound"@),
                    either(
                        ratio_objection(f, "local_ratio"@),
                        either(
                            non_negative_objection(f, "local_balance_msat"@),
                            either(
                                non_negative_objection(f, "remote_balance_msat"@),
                                either(
                                    positive_objection(f, "capacity_msat"@),
                                    either(
                                        filled_text_objection(f, "peer"@),
                                        if f.detector_version == "2"@ {
                                            ratio_objection(f, "severity_threshold"@)
                                        } else {
                                            None
                                        },
                                    ),
                                ),
                            ),
                        ),
                    ),
                ),
            ),
        ),
    )
}

/// The objection to a finding on the trend of a channel's liquidity.
pub open spec fn trend_objection(f: FindingView) -> Option<Objection> {
    either(
        common_objection(f),
        either(
            channel_objection(f),
            either(
                text_objection(f, "direction"@),
                either(
                    direction_objection(f, text_of(f, "direction"@) == "draining"@),
                    either(
                        ratio_objection(f, "start_ratio"@),
                        either(
                            ratio_objection(f, "current_ratio"@),
                            either(
                                ratio_objection(f, "decline"@),
                                either(
                                    ratio_objection(f, "min_in_window"@),
                                    either(
                                        filled_text_objection(f, "peer"@),
                                        value_objection(
                                            f,
                                            "window"@,
                                            |v: JsonView| numeric::positive_integer(v) is Some,
                                            "a positive integral number"@,
                                        ),
                                    ),
                                ),
                            ),
                        ),
                    ),
                ),
            ),
        ),
    )
}

/// The objection to a finding on the reliability of settlements.
pub open spec fn settlement_objection(f: FindingView) -> Option<Objection> {
    either(
        common_objection(f),
        either(
            non_negative_objection(f, "expired_invoices"@),
            either(
                non_negative_objection(f, "settled_invoices"@),
                either(
                    ratio_objection(f, "failure_rate"@),
                    either(
                        filled_text_objection(f, "chain_synchronized"@),
                        filled_text_objection(f, "root_cause"@),
                    ),
                ),
            ),
        ),
    )
}

/// The objection to a finding, whichever detector it comes from.
pub open spec fn finding_objection(f: FindingView) -> Option<Objection> {
    if f.detector == "channel_liquidity"@ {
        liquidity_objection(f)
    } else if f.detector == "liquidity_trend"@ {
        trend_objection(f)
    } else if f.detector == "settlement_reliability"@ {
        settlement_objection(f)
    } else {
        Some(Objection::Detector(f.detector))
    }
}

/// How a recommendation quotes its evidence: each key with its value.
pub open spec fn evidence_quotes(f: FindingView) -> Seq<Seq<char>> {
    f.evidence.map_values(
        |e: EvidenceView| e.key + seq!['='] + crate::json::json_text(e.value),
    )
}

/// A member of an object.
pub open spec fn member(key: Seq<char>, value: JsonView) -> MemberView {
    MemberView { key, value }
}

/// The review of a drained channel.
pub open spec fn rebalance_review(
    f: FindingView,
    direction: Seq<char>,
    now: Timestamp,
) -> RecommendationView {
    let channel = f.channel->0;
    RecommendationView {
        finding_id: f.id,
        action: crate::action::recommended_action(
            f.id,
            ActionType::RebalanceChannel,
            Some(channel),
            ParamsView::Object(
                seq![member("reason"@, JsonView::Text(direction + " liquidity drained"@))],
            ),
            "Review the intended role of channel "@ + channel
                + " before considering a rebalance."@,
            now,
        ),
        rationale: RationaleView {
            evidence: evidence_quotes(f),
            preconditions: seq![
                "Confirm channel "@ + channel + " is meant to route in the "@ + direction
                    + " direction."@,
                "Confirm the imbalance is expected rather than a fault."@,
                "Validate rebalancing cost and routing strategy before any action."@,
            ],
            expected_effect:
                "If rebalancing is warranted, restoring capacity on the drained side could let the channel route payments in that direction again."@,
            risks: seq![
                "Rebalancing consumes on-chain fees and may not improve routing if demand is one-directional."@,
                "Moving liquidity can reduce availability on the opposite side."@,
            ],
            limitations: seq![
                "The analysis is based on a single liquidity snapshot, not routing history."@,
                "No fee or routing-cost model was used; the benefit of rebalancing is unquantified."@,
            ],
            actionability: Actionability::OperatorActionable,
        },
    }
}

/// The review of a channel's fee policy.
pub open spec fn fee_review(
    f: FindingView,
    direction: Seq<char>,
    now: Timestamp,
) -> RecommendationView {
    let channel = f.channel->0;
    RecommendationView {
        finding_id: f.id,
        action: crate::action::recommended_action(
            f.id,
            ActionType::UpdateFeePolicy,
            Some(channel),
            ParamsView::Object(
                seq![member("reason"@, JsonView::Text(direction + " liquidity drained"@))],
            ),
            "Review the fee policy on channel "@ + channel + " to understand inbound demand."@,
            now,
        ),
        rationale: RationaleView {
            evidence: evidence_quotes(f),
            preconditions: seq![
                "Inspect recent forwarding direction and demand for this channel."@,
                "Compare the current fee policy against operator policy before changing anything."@,
            ],
            expected_effect:
                "Identifying the fee policy's role in inbound liquidity lets the operator make an informed, cost-aware decision."@,
            risks: seq![
                "Lowering fees without demand evidence may reduce routing revenue for no benefit."@,
                "A universal fee change is not justified by a single channel's balance."@,
            ],
            limitations: seq![
                "No fee optimization or routing-intelligence model exists; specific fee values are not recommended."@,
            ],
            actionability: Actionability::OperatorActionable,
        },
    }
}

/// The review of a channel whose liquidity declines.
pub open spec fn trend_review(f: FindingView, now: Timestamp) -> RecommendationView {
    let channel = f.channel->0;
    let start = evidence_of(f, "start_ratio"@)->0;
    let current = evidence_of(f, "current_ratio"@)->0;
    let decline = evidence_of(f, "decline"@)->0;
    let window = numeric::positive_integer(evidence_of(f, "window"@)->0)->0;
    RecommendationView {
        finding_id: f.id,
        action: crate::action::recommended_action(
            f.id,
            ActionType::RebalanceChannel,
            Some(channel),
            ParamsView::Object(
                seq![
                    member("current_ratio"@, crate::json::as_double(current)),
                    member("decline"@, crate::json::as_double(decline)),
                    member("reason"@, JsonView::Text("channel liquidity is trending down"@)),
                    member("start_ratio"@, crate::json::as_double(start)),
                    member("window"@, JsonView::Unsigned(window)),
                ],
            ),
            "Channel "@ + channel
                + " is trending toward outbound drain: local ratio declined from "@
                + numeric::four_decimals(start) + " to "@ + numeric::four_decimals(
                current,
            ) + " over the last "@ + text::decimal(window as nat)
                + " snapshots. Inspect recent forwarding activity to confirm whether the trend is expected."@,
            now,
        ),
        rationale: RationaleView {
            evidence: evidence_quotes(f),
            preconditions: seq![
                "Confirm channel "@ + channel
                    + " is meant to route outbound; if it is a pure sink (revenue) channel the decline is expected."@,
                "Confirm the decline is not caused by a single large payment."@,
                "Validate the trend by comparing with forwarding history."@,
            ],
            expected_effect:
                "If the decline is unexpected, investigating routing demand and peer behaviour can help decide whether rebalancing is needed."@,
            risks: seq![
                "Any decline in a revenue channel is normal — do not rebalance without confirming the channel's role."@,
                "Rebalancing costs may exceed the benefit if the decline is temporary."@,
            ],
            limitations: seq![
                "The trend is based on snapshot ratios alone, not forwarding volume."@,
                "The window covers only the last "@ + text::decimal(window as nat)
                    + " snapshots; longer-term trends may look different."@,
            ],
            actionability: Actionability::OperatorActionable,
        },
    }
}

/// The channel that a settlement review points at.
pub open spec fn settlement_target(f: FindingView) -> Seq<char> {
    match f.channel {
        Some(channel) => if text::blank(channel) {
            "primary-routing-path"@
        } else {
            channel
        },
        None => "primary-routing-path"@,
    }
}

/// The summary of a settlement review.
pub open spec fn settlement_summary(f: FindingView) -> Seq<char> {
    let rate = evidence_of(f, "failure_rate"@)->0;
    let percent = numeric::percent(rate);
    if text_of(f, "chain_synchronized"@) == "true"@ {
        "Lightning invoice settlement degradation detected: "@ + percent + "% failure rate ("@
            + text::decimal(
            numeric::truncated(evidence_of(f, "expired_invoices"@)->0) as nat,
        ) + " expired, "@ + text::decimal(
            numeric::truncated(evidence_of(f, "settled_invoices"@)->0) as nat,
        ) + " settled). Bitcoin Core node is synchronized; rebalance channel "@
            + settlement_target(f)
            + " to restore outbound liquidity on merchant settlement paths."@
    } else {
        "Invoice settlement failure rate is elevated ("@ + percent
            + "% failure rate). Bitcoin Core is not synchronized; verify chain synchronization before executing Lightning rebalances."@
    }
}

/// The review of settlements that fail.
pub open spec fn settlement_review(f: FindingView, now: Timestamp) -> RecommendationView {
    let target = settlement_target(f);
    RecommendationView {
        finding_id: f.id,
        action: crate::action::recommended_action(
            f.id,
            ActionType::RebalanceChannel,
            Some(target),
            ParamsView::Object(
                seq![
                    member(
                        "chain_synchronized"@,
                        JsonView::Bool(text_of(f, "chain_synchronized"@) == "true"@),
                    ),
                    member(
                        "expired_invoices"@,
                        crate::json::as_double(evidence_of(f, "expired_invoices"@)->0),
                    ),
                    member(
                        "failure_rate"@,
                        crate::json::as_double(evidence_of(f, "failure_rate"@)->0),
                    ),
                    member(
                        "reason"@,
                        JsonView::Text("lightning invoice settlement reliability degradation"@),
                    ),
                    member("root_cause"@, JsonView::Text(text_of(f, "root_cause"@))),
                    member(
                        "settled_invoices"@,
                        crate::json::as_double(evidence_of(f, "settled_invoices"@)->0),
                    ),
                    member("target_channel"@, JsonView::Text(target)),
                ],
            ),
            settlement_summary(f),
            now,
        ),
        rationale: RationaleView {
            evidence: evidence_quotes(f),
            preconditions: seq![
                "Inspect channel "@ + target + " local and remote balance split."@,
                "Verify node on-chain and off-chain liquidity reserves."@,
                "Confirm Bitcoin Core RPC connection remains responsive."@,
            ],
            expected_effect:
                "Restores local outbound liquidity on settlement channels, reducing invoice expiry failures."@,
            risks: seq![
                "Circular rebalance consumes routing fees on intermediate hops."@,
                "Opening or resizing channels during mempool congestion increases on-chain fee cost."@,
            ],
            limitations: seq![
                "Metric aggregates failures across recent webhook/event window."@,
                "Individual payment failures may also be caused by destination invoice expiry or path unreachability."@,
            ],
            actionability: Actionability::OperatorActionable,
        },
    }
}

/// What a finding without objection is answered with.
pub open spec fn recommendations(f: FindingView, now: Timestamp) -> Seq<RecommendationView> {
    if f.detector == "channel_liquidity"@ {
        if text_of(f, "direction"@) == "outbound"@ {
            seq![rebalance_review(f, "outbound"@, now)]
        } else {
            seq![fee_review(f, "inbound"@, now), rebalance_review(f, "inbound"@, now)]
        }
    } else if f.detector == "liquidity_trend"@ {
        seq![trend_review(f, now)]
    } else {
        seq![settlement_review(f, now)]
    }
}

/// The objection that a check came back with, if any.
pub open spec fn raised(
    r: Result<(), RecommendationEngineError>,
) -> Option<RecommendationEngineErrorView> {
    match r {
        Ok(_) => None,
        Err(e) => Some(e.deep_view()),
    }
}

/// An objection together with the finding it is raised against.
pub open spec fn against(f: FindingView, o: Option<Objection>) -> Option<
    RecommendationEngineErrorView,
> {
    match o {
        None => None,
        Some(o) => Some(refused(f.id, o)),
    }
}

proof fn lemma_detector_names()
    ensures
        "channel_liquidity"@ != "liquidity_trend"@,
        "channel_liquidity"@ != "settlement_reliability"@,
        "liquidity_trend"@ != "settlement_reliability"@,
{
    reveal_strlit("channel_liquidity");
    reveal_strlit("liquidity_trend");
    reveal_strlit("settlement_reliability");
    assert("channel_liquidity"@.len() == 17);
    assert("liquidity_trend"@.len() == 15);
    assert("settlement_reliability"@.len() == 22);
}

/// Checks what every detector's findings must meet.
pub fn validate_common(finding: &Finding) -> (r: Result<(), RecommendationEngineError>)
    ensures
        raised(r) == against(finding.deep_view(), common_objection(finding.deep_view())),
{
    if !same_text(finding.detector_version.as_str(), "1") && !same_text(
        finding.detector_version.as_str(),
        "2",
    ) {
        return Err(
            RecommendationEngineError::UnsupportedDetectorVersion {
                finding_id: finding.id.clone(),
                detector: finding.detector.clone(),
                version: finding.detector_version.clone(),
            },
        );
    }
    if finding.schema_version < 1 || finding.schema_version > FINDING_SCHEMA_VERSION {
        return Err(
            RecommendationEngineError::UnsupportedSchemaVersion {
                finding_id: finding.id.clone(),
                version: finding.schema_version,
                current: FINDING_SCHEMA_VERSION,
            },
        );
    }
    if finding.lifecycle != FindingLifecycle::Active {
        return Err(
            RecommendationEngineError::InactiveFinding { finding_id: finding.id.clone() },
        );
    }
    if finding.severity == Severity::Info {
        return Err(
            RecommendationEngineError::UnsupportedSeverity {
                finding_id: finding.id.clone(),
                severity: finding.severity,
            },
        );
    }
    let ghost all = finding.evidence.deep_view();
    let mut i: usize = 0;
    while i < finding.evidence.len()
        invariant
            i <= finding.evidence.len(),
            all == finding.evidence.deep_view(),
            all == finding.deep_view().evidence,
            key_objection(all, 0) == key_objection(all, i as int),
            common_objection(finding.deep_view()) == key_objection(all, 0),
        decreases finding.evidence.len() - i,
    {
        assert(all[i as int] == finding.evidence[i as int].deep_view());
        if is_blank(finding.evidence[i].key.as_str()) {
            return Err(
                RecommendationEngineError::EmptyEvidenceKey {
                    finding_id: finding.id.clone(),
                    index: i,
                },
            );
        }
        let mut j: usize = 0;
        while j < i
            invariant
                j <= i < finding.evidence.len(),
                all == finding.evidence.deep_view(),
                all == finding.deep_view().evidence,
                !text::blank(all[i as int].key),
                key_objection(all, 0) == key_objection(all, i as int),
                common_objection(finding.deep_view()) == key_objection(all, 0),
                forall|k: int| 0 <= k < j ==> (#[trigger] all[k]).key != all[i as int].key,
            decreases i - j,
        {
            assert(all[j as int] == finding.evidence[j as int].deep_view());
            assert(all[i as int] == finding.evidence[i as int].deep_view());
            if same_text(finding.evidence[j].key.as_str(), finding.evidence[i].key.as_str()) {
                assert(all.take(i as int)[j as int].key == all[i as int].key);
                return Err(
                    RecommendationEngineError::DuplicateEvidenceKey {
                        finding_id: finding.id.clone(),
                        key: finding.evidence[i].key.clone(),
                    },
                );
            }
            j += 1;
        }
        assert(!key_occurs(all.take(i as int), all[i as int].key)) by {
            assert forall|k: int| 0 <= k < i implies (#[trigger] all.take(i as int)[k]).key
                != all[i as int].key by {
                assert(all.take(i as int)[k] == all[k]);
            }
        }
        i += 1;
    }
    Ok(())
}

/// The channel that a finding is about.
pub fn channel(finding: &Finding) -> (r: Result<String, RecommendationEngineError>)
    ensures
        match r {
            Ok(c) => channel_objection(finding.deep_view()) is None && finding.deep_view().channel
                == Some(c@),
            Err(e) => Some(e.deep_view()) == against(
                finding.deep_view(),
                channel_objection(finding.deep_view()),
            ),
        },
{
    match &finding.channel {
        None => Err(RecommendationEngineError::MissingChannel { finding_id: finding.id.clone() }),
        Some(channel) => {
            if is_blank(channel.as_str()) {
                Err(RecommendationEngineError::EmptyChannel { finding_id: finding.id.clone() })
            } else {
                Ok(channel.clone())
            }
        },
    }
}

fn required_value<'a>(finding: &'a Finding, key: &'static str) -> (r: Result<
    &'a Json,
    RecommendationEngineError,
>)
    ensures
        match r {
            Ok(v) => evidence_of(finding.deep_view(), key@) == Some(v.deep_view()),
            Err(e) => evidence_of(finding.deep_view(), key@) is None && e.deep_view() == refused(
                finding.deep_view().id,
                Objection::MissingEvidence(key@),
            ),
        },
{
    match finding.evidence_value(key) {
        Some(v) => Ok(v),
        None => Err(
            RecommendationEngineError::MissingEvidence { finding_id: finding.id.clone(), key },
        ),
    }
}

fn invalid_evidence(finding: &Finding, key: &'static str, expected: &'static str) -> (r:
    RecommendationEngineError)
    ensures
        r.deep_view() == refused(
            finding.deep_view().id,
            Objection::InvalidEvidence(key@, expected@),
        ),
{
    RecommendationEngineError::InvalidEvidence { finding_id: finding.id.clone(), key, expected }
}

fn required_text<'a>(finding: &'a Finding, key: &'static str) -> (r: Result<
    &'a str,
    RecommendationEngineError,
>)
    ensures
        match r {
            Ok(s) => text_objection(finding.deep_view(), key@) is None && evidence_of(
                finding.deep_view(),
                key@,
            ) == Some(JsonView::Text(s@)),
            Err(e) => Some(e.deep_view()) == against(
                finding.deep_view(),
                text_objection(finding.deep_view(), key@),
            ),
        },
{
    match required_value(finding, key) {
        Err(e) => Err(e),
        Ok(v) => match v.as_str() {
            Some(s) => Ok(s),
            None => Err(invalid_evidence(finding, key, "a string")),
        },
    }
}

fn required_nonempty_text<'a>(finding: &'a Finding, key: &'static str) -> (r: Result<
    &'a str,
    RecommendationEngineError,
>)
    ensures
        match r {
            Ok(s) => filled_text_objection(finding.deep_view(), key@) is None && evidence_of(
                finding.deep_view(),
                key@,
            ) == Some(JsonView::Text(s@)),
            Err(e) => Some(e.deep_view()) == against(
                finding.deep_view(),
                filled_text_objection(finding.deep_view(), key@),
            ),
        },
{
    match required_text(finding, key) {
        Err(e) => Err(e),
        Ok(s) => if is_blank(s) {
            Err(invalid_evidence(finding, key, "a non-empty string"))
        } else {
            Ok(s)
        },
    }
}

fn required_ratio<'a>(finding: &'a Finding, key: &'static str) -> (r: Result<
    &'a Json,
    RecommendationEngineError,
>)
    ensures
        match r {
            Ok(v) => ratio_objection(finding.deep_view(), key@) is None && evidence_of(
                finding.deep_view(),
                key@,
            ) == Some(v.deep_view()),
            Err(e) => Some(e.deep_view()) == against(
                finding.deep_view(),
                ratio_objection(finding.deep_view(), key@),
            ),
        },
{
    match required_value(finding, key) {
        Err(e) => Err(e),
        Ok(v) => if v.is_unit_number() {
            Ok(v)
        } else {
            Err(invalid_evidence(finding, key, "a finite number in 0..=1"))
        },
    }
}

fn required_nonnegative_number<'a>(finding: &'a Finding, key: &'static str) -> (r: Result<
    &'a Json,
    RecommendationEngineError,
>)
    ensures
        match r {
            Ok(v) => non_negative_objection(finding.deep_view(), key@) is None && evidence_of(
                finding.deep_view(),
                key@,
            ) == Some(v.deep_view()),
            Err(e) => Some(e.deep_view()) == against(
                finding.deep_view(),
                non_negative_objection(finding.deep_view(), key@),
            ),
        },
{
    match required_value(finding, key) {
        Err(e) => Err(e),
        Ok(v) => if v.is_non_negative_number() {
            Ok(v)
        } else {
            Err(invalid_evidence(finding, key, "a finite non-negative number"))
        },
    }
}

fn required_positive_number<'a>(finding: &'a Finding, key: &'static str) -> (r: Result<
    &'a Json,
    RecommendationEngineError,
>)
    ensures
        match r {
            Ok(v) => positive_objection(finding.deep_view(), key@) is None && evidence_of(
                finding.deep_view(),
                key@,
            ) == Some(v.deep_view()),
            Err(e) => Some(e.deep_view()) == against(
                finding.deep_view(),
                positive_objection(finding.deep_view(), key@),
            ),
        },
{
    match required_value(finding, key) {
        Err(e) => Err(e),
        Ok(v) => if v.is_positive_number() {
            Ok(v)
        } else {
            Err(invalid_evidence(finding, key, "a finite positive number"))
        },
    }
}

/// How a recommendation quotes its evidence.
pub fn evidence_refs(finding: &Finding) -> (r: Vec<String>)
    ensures
        r.deep_view() == evidence_quotes(finding.deep_view()),
{
    let ghost all = finding.deep_view().evidence;
    let mut out: Vec<String> = Vec::new();
    let mut i: usize = 0;
    while i < finding.evidence.len()
        invariant
            i <= finding.evidence.len(),
            all == finding.evidence.deep_view(),
            out.deep_view().len() == i,
            forall|k: int|
                0 <= k < i ==> #[trigger] out.deep_view()[k] == all[k].key + seq!['=']
                    + crate::json::json_text(all[k].value),
        decreases finding.evidence.len() - i,
    {
        let e = &finding.evidence[i];
        let ghost before = out.deep_view();
        let mut quote = e.key.clone();
        quote.push('=');
        quote.append(e.value.to_text().as_str());
        assert(quote@ =~= all[i as int].key + seq!['='] + crate::json::json_text(
            all[i as int].value,
        ));
        out.push(quote);
        assert(out.deep_view() =~= before.push(quote@));
        i += 1;
    }
    assert(out.deep_view() =~= evidence_quotes(finding.deep_view()));
    out
}

fn list_1(a: &str) -> (r: Vec<String>)
    ensures
        r.deep_view() == seq![a@],
{
    let mut out: Vec<String> = Vec::new();
    out.push(a.to_owned());
    assert(out.deep_view() =~= seq![a@]);
    out
}

fn list_2(a: &str, b: &str) -> (r: Vec<String>)
    ensures
        r.deep_view() == seq![a@, b@],
{
    let mut out: Vec<String> = Vec::new();
    out.push(a.to_owned());
    out.push(b.to_owned());
    assert(out.deep_view() =~= seq![a@, b@]);
    out
}

fn list_3(a: &str, b: &str, c: &str) -> (r: Vec<String>)
    ensures
        r.deep_view() == seq![a@, b@, c@],
{
    let mut out: Vec<String> = Vec::new();
    out.push(a.to_owned());
    out.push(b.to_owned());
    out.push(c.to_owned());
    assert(out.deep_view() =~= seq![a@, b@, c@]);
    out
}

fn named(key: &str, value: Json) -> (r: Member)
    ensures
        r.deep_view() == member(key@, value.deep_view()),
{
    Member { key: key.to_owned(), value }
}

fn reason_params(direction: &str) -> (r: Params)
    ensures
        r.deep_view() == ParamsView::Object(
            seq![member("reason"@, JsonView::Text(direction@ + " liquidity drained"@))],
        ),
{
    let reason = direction.to_owned().concat(" liquidity drained");
    let mut members: Vec<Member> = Vec::new();
    members.push(named("reason", Json::Text(reason)));
    assert(members.deep_view() =~= seq![
        member("reason"@, JsonView::Text(direction@ + " liquidity drained"@)),
    ]);
    Params::Object(members)
}

fn build_rebased_review(finding: &Finding, channel: &str, direction: &str, now: Timestamp) -> (r:
    Recommendation)
    requires
        finding.deep_view().channel == Some(channel@),
    ensures
        r.deep_view() == rebalance_review(finding.deep_view(), direction@, now),
{
    let summary = "Review the intended role of channel ".to_owned().concat(channel).concat(
        " before considering a rebalance.",
    );
    let confirm = "Confirm channel ".to_owned().concat(channel).concat(
        " is meant to route in the ",
    ).concat(direction).concat(" direction.");
    Recommendation {
        finding_id: finding.id.clone(),
        action: Action::recommended_at(
            finding.id.as_str(),
            ActionType::RebalanceChannel,
            Some(channel.to_owned()),
            reason_params(direction),
            summary.as_str(),
            now,
        ),
        rationale: Rationale {
            evidence: evidence_refs(finding),
            preconditions: list_3(
                confirm.as_str(),
                "Confirm the imbalance is expected rather than a fault.",
                "Validate rebalancing cost and routing strategy before any action.",
            ),
            expected_effect:
                "If rebalancing is warranted, restoring capacity on the drained side could let the channel route payments in that direction again.".to_owned(),
            risks: list_2(
                "Rebalancing consumes on-chain fees and may not improve routing if demand is one-directional.",
                "Moving liquidity can reduce availability on the opposite side.",
            ),
            limitations: list_2(
                "The analysis is based on a single liquidity snapshot, not routing history.",
                "No fee or routing-cost model was used; the benefit of rebalancing is unquantified.",
            ),
            actionability: Actionability::OperatorActionable,
        },
    }
}

fn build_fee_review(finding: &Finding, channel: &str, direction: &str, now: Timestamp) -> (r:
    Recommendation)
    requires
        finding.deep_view().channel == Some(channel@),
    ensures
        r.deep_view() == fee_review(finding.deep_view(), direction@, now),
{
    let summary = "Review the fee policy on channel ".to_owned().concat(channel).concat(
        " to understand inbound demand.",
    );
    Recommendation {
        finding_id: finding.id.clone(),
        action: Action::recommended_at(
            finding.id.as_str(),
            ActionType::UpdateFeePolicy,
            Some(channel.to_owned()),
            reason_params(direction),
            summary.as_str(),
            now,
        ),
        rationale: Rationale {
            evidence: evidence_refs(finding),
            preconditions: list_2(
                "Inspect recent forwarding direction and demand for this channel.",
                "Compare the current fee policy against operator policy before changing anything.",
            ),
            expected_effect:
                "Identifying the fee policy's role in inbound liquidity lets the operator make an informed, cost-aware decision.".to_owned(),
            risks: list_2(
                "Lowering fees without demand evidence may reduce routing revenue for no benefit.",
                "A universal fee change is not justified by a single channel's balance.",
            ),
            limitations: list_1(
                "No fee optimization or routing-intelligence model exists; specific fee values are not recommended.",
            ),
            actionability: Actionability::OperatorActionable,
        },
    }
}

/// What a finding on the liquidity of a channel is answered with.
fn recommend_liquidity(finding: &Finding, now: Timestamp) -> (r: Result<
    Vec<Recommendation>,
    RecommendationEngineError,
>)
    requires
        finding.detector@ == "channel_liquidity"@,
    ensures
        answered(r, finding.deep_view(), now),
{
    if let Err(e) = validate_common(finding) {
        return Err(e);
    }
    let channel = match channel(finding) {
        Ok(c) => c,
        Err(e) => {
            return Err(e);
        },
    };
    let direction = match required_text(finding, "direction") {
        Ok(d) => d,
        Err(e) => {
            return Err(e);
        },
    };
    let outbound = same_text(direction, "outbound");
    if !outbound && !same_text(direction, "inbound") {
        return Err(
            RecommendationEngineError::UnknownDirection {
                finding_id: finding.id.clone(),
                direction: direction.to_owned(),
            },
        );
    }
    if let Err(e) = required_ratio(finding, "local_ratio") {
        return Err(e);
    }
    if let Err(e) = required_nonnegative_number(finding, "local_balance_msat") {
        return Err(e);
    }
    if let Err(e) = required_nonnegative_number(finding, "remote_balance_msat") {
        return Err(e);
    }
    if let Err(e) = required_positive_number(finding, "capacity_msat") {
        return Err(e);
    }
    if let Err(e) = required_nonempty_text(finding, "peer") {
        return Err(e);
    }
    if same_text(finding.detector_version.as_str(), "2") {
        if let Err(e) = required_ratio(finding, "severity_threshold") {
            return Err(e);
        }
    }
    let mut out: Vec<Recommendation> = Vec::new();
    if outbound {
        out.push(build_rebased_review(finding, channel.as_str(), "outbound", now));
    } else {
        out.push(build_fee_review(finding, channel.as_str(), "inbound", now));
        out.push(build_rebased_review(finding, channel.as_str(), "inbound", now));
    }
    assert(out.deep_view() =~= recommendations(finding.deep_view(), now));
    Ok(out)
}

/// Whether an answer is the one that the finding deserves.
pub open spec fn answered(
    r: Result<Vec<Recommendation>, RecommendationEngineError>,
    f: FindingView,
    now: Timestamp,
) -> bool {
    match r {
        Ok(v) => finding_objection(f) is None && v.deep_view() == recommendations(f, now),
        Err(e) => Some(e.deep_view()) == against(f, finding_objection(f)),
    }
}

/// What a finding on the trend of a channel's liquidity is answered with.
fn recommend_liquidity_trend(finding: &Finding, now: Timestamp) -> (r: Result<
    Vec<Recommendation>,
    RecommendationEngineError,
>)
    requires
        finding.detector@ == "liquidity_trend"@,
    ensures
        answered(r, finding.deep_view(), now),
{
    proof {
        lemma_detector_names();
    }
    if let Err(e) = validate_common(finding) {
        return Err(e);
    }
    let channel = match channel(finding) {
        Ok(c) => c,
        Err(e) => {
            return Err(e);
        },
    };
    let direction = match required_text(finding, "direction") {
        Ok(d) => d,
        Err(e) => {
            return Err(e);
        },
    };
    if !same_text(direction, "draining") {
        return Err(
            RecommendationEngineError::UnknownDirection {
                finding_id: finding.id.clone(),
                direction: direction.to_owned(),
            },
        );
    }
    let start = match required_ratio(finding, "start_ratio") {
        Ok(v) => v,
        Err(e) => {
            return Err(e);
        },
    };
    let current = match required_ratio(finding, "current_ratio") {
        Ok(v) => v,
        Err(e) => {
            return Err(e);
        },
    };
    let decline = match required_ratio(finding, "decline") {
        Ok(v) => v,
        Err(e) => {
            return Err(e);
        },
    };
    if let Err(e) = required_ratio(finding, "min_in_window") {
        return Err(e);
    }
    if let Err(e) = required_nonempty_text(finding, "peer") {
        return Err(e);
    }
    let window: u64 = match required_value(finding, "window") {
        Err(e) => {
            return Err(e);
        },
        Ok(v) => match v.to_positive_integer() {
            Some(n) => n,
            None => {
                return Err(invalid_evidence(finding, "window", "a positive integral number"));
            },
        },
    };
    let mut out: Vec<Recommendation> = Vec::new();
    out.push(
        build_trend_review(finding, channel.as_str(), start, current, decline, window, now),
    );
    assert(out.deep_view() =~= recommendations(finding.deep_view(), now));
    Ok(out)
}

fn build_trend_review(
    finding: &Finding,
    channel: &str,
    start: &Json,
    current: &Json,
    decline: &Json,
    window: u64,
    now: Timestamp,
) -> (r: Recommendation)
    requires
        finding.deep_view().channel == Some(channel@),
        evidence_of(finding.deep_view(), "start_ratio"@) == Some(start.deep_view()),
        evidence_of(finding.deep_view(), "current_ratio"@) == Some(current.deep_view()),
        evidence_of(finding.deep_view(), "decline"@) == Some(decline.deep_view()),
        evidence_of(finding.deep_view(), "window"@) is Some,
        numeric::positive_integer(evidence_of(finding.deep_view(), "window"@)->0) == Some(window),
        numeric::unit_number(start.deep_view()),
        numeric::unit_number(current.deep_view()),
    ensures
        r.deep_view() == trend_review(finding.deep_view(), now),
{
    let mut members: Vec<Member> = Vec::new();
    members.push(named("current_ratio", current.to_double_value()));
    members.push(named("decline", decline.to_double_value()));
    members.push(named("reason", Json::Text("channel liquidity is trending down".to_owned())));
    members.push(named("start_ratio", start.to_double_value()));
    members.push(named("window", Json::Unsigned(window)));
    assert(members.deep_view() =~= seq![
        member("current_ratio"@, crate::json::as_double(current.deep_view())),
        member("decline"@, crate::json::as_double(decline.deep_view())),
        member("reason"@, JsonView::Text("channel liquidity is trending down"@)),
        member("start_ratio"@, crate::json::as_double(start.deep_view())),
        member("window"@, JsonView::Unsigned(window)),
    ]);
    let summary = "Channel ".to_owned().concat(channel).concat(
        " is trending toward outbound drain: local ratio declined from ",
    ).concat(start.fixed_4_text().as_str()).concat(" to ").concat(
        current.fixed_4_text().as_str(),
    ).concat(" over the last ").concat(u64_text(window).as_str()).concat(
        " snapshots. Inspect recent forwarding activity to confirm whether the trend is expected.",
    );
    let confirm = "Confirm channel ".to_owned().concat(channel).concat(
        " is meant to route outbound; if it is a pure sink (revenue) channel the decline is expected.",
    );
    let covers = "The window covers only the last ".to_owned().concat(
        u64_text(window).as_str(),
    ).concat(" snapshots; longer-term trends may look different.");
    Recommendation {
        finding_id: finding.id.clone(),
        action: Action::recommended_at(
            finding.id.as_str(),
            ActionType::RebalanceChannel,
            Some(channel.to_owned()),
            Params::Object(members),
            summary.as_str(),
            now,
        ),
        rationale: Rationale {
            evidence: evidence_refs(finding),
            preconditions: list_3(
                confirm.as_str(),
                "Confirm the decline is not caused by a single large payment.",
                "Validate the trend by comparing with forwarding history.",
            ),
            expected_effect:
                "If the decline is unexpected, investigating routing demand and peer behaviour can help decide whether rebalancing is needed.".to_owned(),
            risks: list_2(
                "Any decline in a revenue channel is normal — do not rebalance without confirming the channel's role.",
                "Rebalancing costs may exceed the benefit if the decline is temporary.",
            ),
            limitations: list_2(
                "The trend is based on snapshot ratios alone, not forwarding volume.",
                covers.as_str(),
            ),
            actionability: Actionability::OperatorActionable,
        },
    }
}

/// What a finding on the reliability of settlements is answered with.
fn recommend_settlement_reliability(finding: &Finding, now: Timestamp) -> (r: Result<
    Vec<Recommendation>,
    RecommendationEngineError,
>)
    requires
        finding.detector@ == "settlement_reliability"@,
    ensures
        answered(r, finding.deep_view(), now),
{
    proof {
        lemma_detector_names();
    }
    if let Err(e) = validate_common(finding) {
        return Err(e);
    }
    let expired = match required_nonnegative_number(finding, "expired_invoices") {
        Ok(v) => v,
        Err(e) => {
            return Err(e);
        },
    };
    let settled = match required_nonnegative_number(finding, "settled_invoices") {
        Ok(v) => v,
        Err(e) => {
            return Err(e);
        },
    };
    let rate = match required_ratio(finding, "failure_rate") {
        Ok(v) => v,
        Err(e) => {
            return Err(e);
        },
    };
    let synchronized = match required_nonempty_text(finding, "chain_synchronized") {
        Ok(s) => same_text(s, "true"),
        Err(e) => {
            return Err(e);
        },
    };
    let cause = match required_nonempty_text(finding, "root_cause") {
        Ok(s) => s,
        Err(e) => {
            return Err(e);
        },
    };
    let target = match &finding.channel {
        Some(c) => if is_blank(c.as_str()) {
            "primary-routing-path".to_owned()
        } else {
            c.clone()
        },
        None => "primary-routing-path".to_owned(),
    };
    let percent = rate.percent_text();
    let summary = if synchronized {
        "Lightning invoice settlement degradation detected: ".to_owned().concat(
            percent.as_str(),
        ).concat("% failure rate (").concat(u64_text(expired.to_truncated()).as_str()).concat(
            " expired, ",
        ).concat(u64_text(settled.to_truncated()).as_str()).concat(
            " settled). Bitcoin Core node is synchronized; rebalance channel ",
        ).concat(target.as_str()).concat(
            " to restore outbound liquidity on merchant settlement paths.",
        )
    } else {
        "Invoice settlement failure rate is elevated (".to_owned().concat(percent.as_str()).concat(
            "% failure rate). Bitcoin Core is not synchronized; verify chain synchronization before executing Lightning rebalances.",
        )
    };
    let mut members: Vec<Member> = Vec::new();
    members.push(named("chain_synchronized", Json::Bool(synchronized)));
    members.push(named("expired_invoices", expired.to_double_value()));
    members.push(named("failure_rate", rate.to_double_value()));
    members.push(
        named(
            "reason",
            Json::Text("lightning invoice settlement reliability degradation".to_owned()),
        ),
    );
    members.push(named("root_cause", Json::Text(cause.to_owned())));
    members.push(named("settled_invoices", settled.to_double_value()));
    members.push(named("target_channel", Json::Text(target.clone())));
    let ghost f = finding.deep_view();
    let ghost expected = settlement_review(f, now);
    assert(members.deep_view() =~= expected.action.params->Object_0);
    let inspect = "Inspect channel ".to_owned().concat(target.as_str()).concat(
        " local and remote balance split.",
    );
    let review = Recommendation {
        finding_id: finding.id.clone(),
        action: Action::recommended_at(
            finding.id.as_str(),
            ActionType::RebalanceChannel,
            Some(target),
            Params::Object(members),
            summary.as_str(),
            now,
        ),
        rationale: Rationale {
            evidence: evidence_refs(finding),
            preconditions: list_3(
                inspect.as_str(),
                "Verify node on-chain and off-chain liquidity reserves.",
                "Confirm Bitcoin Core RPC connection remains responsive.",
            ),
            expected_effect:
                "Restores local outbound liquidity on settlement channels, reducing invoice expiry failures.".to_owned(),
            risks: list_2(
                "Circular rebalance consumes routing fees on intermediate hops.",
                "Opening or resizing channels during mempool congestion increases on-chain fee cost.",
            ),
            limitations: list_2(
                "Metric aggregates failures across recent webhook/event window.",
                "Individual payment failures may also be caused by destination invoice expiry or path unreachability.",
            ),
            actionability: Actionability::OperatorActionable,
        },
    };
    let mut out: Vec<Recommendation> = Vec::new();
    out.push(review);
    assert(out.deep_view() =~= recommendations(f, now));
    Ok(out)
}

/// Maps findings to recommended actions.
pub struct RecommendationEngine;

impl RecommendationEngine {
    /// What a finding is answered with now.
    pub fn recommend(&self, finding: &Finding) -> (r: Result<
        Vec<Recommendation>,
        RecommendationEngineError,
    >)
        ensures
            exists|now: Timestamp|
                crate::time::shown_by_clock(now) && #[trigger] answered(
                    r,
                    finding.deep_view(),
                    now,
                ),
    {
        self.recommend_at(finding, current_time())
    }

    /// What a finding is answered with at `now`.
    pub fn recommend_at(&self, finding: &Finding, now: Timestamp) -> (r: Result<
        Vec<Recommendation>,
        RecommendationEngineError,
    >)
        ensures
            answered(r, finding.deep_view(), now),
    {
        if same_text(finding.detector.as_str(), "channel_liquidity") {
            recommend_liquidity(finding, now)
        } else if same_text(finding.detector.as_str(), "liquidity_trend") {
            recommend_liquidity_trend(finding, now)
        } else if same_text(finding.detector.as_str(), "settlement_reliability") {
            recommend_settlement_reliability(finding, now)
        } else {
            Err(
                RecommendationEngineError::UnsupportedDetector {
                    finding_id: finding.id.clone(),
                    detector: finding.detector.clone(),
                },
            )
        }
    }
}

/// The names of parameters that would make an action executable.
pub open spec fn executable_parameter(key: Seq<char>) -> bool {
    key == "desired_ratio"@ || key == "fee_rate_ppm"@ || key == "base_fee_msat"@ || key
        == "cltv_delta"@ || key == "method"@ || key == "chan_point"@
}

/// Whether none of the members makes an action executable.
spec fn harmless(members: Seq<MemberView>) -> bool {
    forall|i: int| 0 <= i < members.len() ==> !executable_parameter((#[trigger] members[i]).key)
}

proof fn lemma_harmless_lookup(members: Seq<MemberView>, key: Seq<char>)
    requires
        harmless(members),
        executable_parameter(key),
    ensures
        crate::json::member_value(members, key) is None,
    decreases members.len(),
{
    if members.len() > 0 {
        assert(!executable_parameter(members[0].key));
        assert forall|i: int| 0 <= i < members.skip(1).len() implies !executable_parameter(
            (#[trigger] members.skip(1)[i]).key,
        ) by {
            assert(members.skip(1)[i] == members[i + 1]);
        }
        lemma_harmless_lookup(members.skip(1), key);
    }
}

proof fn lemma_descriptive_names()
    ensures
        !executable_parameter("reason"@),
        !executable_parameter("current_ratio"@),
        !executable_parameter("decline"@),
        !executable_parameter("start_ratio"@),
        !executable_parameter("window"@),
        !executable_parameter("chain_synchronized"@),
        !executable_parameter("expired_invoices"@),
        !executable_parameter("failure_rate"@),
        !executable_parameter("root_cause"@),
        !executable_parameter("settled_invoices"@),
        !executable_parameter("target_channel"@),
{
    reveal_strlit("desired_ratio");
    reveal_strlit("fee_rate_ppm");
    reveal_strlit("base_fee_msat");
    reveal_strlit("cltv_delta");
    reveal_strlit("method");
    reveal_strlit("chan_point");
    reveal_strlit("reason");
    reveal_strlit("current_ratio");
    reveal_strlit("decline");
    reveal_strlit("start_ratio");
    reveal_strlit("window");
    reveal_strlit("chain_synchronized");
    reveal_strlit("expired_invoices");
    reveal_strlit("failure_rate");
    reveal_strlit("root_cause");
    reveal_strlit("settled_invoices");
    reveal_strlit("target_channel");
    assert("desired_ratio"@[0] == 'd' && "base_fee_msat"@[0] == 'b' && "current_ratio"@[0] == 'c');
    assert("fee_rate_ppm"@[1] == 'e' && "failure_rate"@[1] == 'a');
    assert("cltv_delta"@[0] == 'c' && "chan_point"@[0] == 'c' && "root_cause"@[0] == 'r');
    assert("method"@[0] == 'm' && "reason"@[0] == 'r' && "window"@[0] == 'w');
    assert("desired_ratio"@.len() == 13 && "fee_rate_ppm"@.len() == 12 && "base_fee_msat"@.len()
        == 13 && "cltv_delta"@.len() == 10 && "method"@.len() == 6 && "chan_point"@.len() == 10);
    assert("reason"@.len() == 6 && "current_ratio"@.len() == 13 && "decline"@.len() == 7
        && "start_ratio"@.len() == 11 && "window"@.len() == 6 && "chain_synchronized"@.len() == 18
        && "expired_invoices"@.len() == 16 && "failure_rate"@.len() == 12 && "root_cause"@.len()
        == 10 && "settled_invoices"@.len() == 16 && "target_channel"@.len() == 14);
}

/// No recommendation carries a parameter to execute it with, whatever the
/// finding and however severe.
pub proof fn lemma_recommendations_are_not_executable(
    f: FindingView,
    now: Timestamp,
    i: int,
    key: Seq<char>,
)
    requires
        0 <= i < recommendations(f, now).len(),
        executable_parameter(key),
    ensures
        crate::json::param_value(recommendations(f, now)[i].action.params, key) is None,
{
    lemma_descriptive_names();
    let members = recommendations(f, now)[i].action.params->Object_0;
    assert(recommendations(f, now)[i].action.params == ParamsView::Object(members));
    assert(harmless(members));
    lemma_harmless_lookup(members, key);
}

/// Every recommendation names its finding, stands at the first stage, asks a
/// human to decide, and gives its reasons in full.
pub proof fn lemma_recommendations_are_reasoned(f: FindingView, now: Timestamp, i: int)
    requires
        0 <= i < recommendations(f, now).len(),
    ensures
        ({
            let r = recommendations(f, now)[i];
            &&& r.finding_id == f.id
            &&& r.action.stage == crate::action::ActionStage::Recommended
            &&& r.rationale.actionability == Actionability::OperatorActionable
            &&& r.rationale.evidence.len() == f.evidence.len()
            &&& r.rationale.preconditions.len() > 0
            &&& r.rationale.expected_effect.len() > 0
            &&& r.rationale.risks.len() > 0
            &&& r.rationale.limitations.len() > 0
        }),
{
    reveal_strlit(
        "If rebalancing is warranted, restoring capacity on the drained side could let the channel route payments in that direction again.",
    );
    reveal_strlit(
        "Identifying the fee policy's role in inbound liquidity lets the operator make an informed, cost-aware decision.",
    );
    reveal_strlit(
        "If the decline is unexpected, investigating routing demand and peer behaviour can help decide whether rebalancing is needed.",
    );
    reveal_strlit(
        "Restores local outbound liquidity on settlement channels, reducing invoice expiry failures.",
    );
}

/// What a language model wrote about a finding changes neither whether it is
/// answered nor how.
pub proof fn lemma_explanation_has_no_influence(
    f: FindingView,
    explanation: Option<Seq<char>>,
    now: Timestamp,
)
    ensures
        finding_objection(FindingView { explanation, ..f }) == finding_objection(f),
        recommendations(FindingView { explanation, ..f }, now) == recommendations(f, now),
{
    let g = FindingView { explanation, ..f };
    lemma_liquidity_objection_ignores(f, explanation);
    lemma_trend_objection_ignores(f, explanation);
    lemma_settlement_objection_ignores(f, explanation);
    assert(rebalance_review(g, "outbound"@, now) == rebalance_review(f, "outbound"@, now));
    assert(rebalance_review(g, "inbound"@, now) == rebalance_review(f, "inbound"@, now));
    assert(fee_review(g, "inbound"@, now) == fee_review(f, "inbound"@, now));
    assert(trend_review(g, now) == trend_review(f, now));
    assert(settlement_review(g, now) == settlement_review(f, now));
    assert(text_of(g, "direction"@) == text_of(f, "direction"@));
}

proof fn lemma_liquidity_objection_ignores(f: FindingView, explanation: Option<Seq<char>>)
    ensures
        liquidity_objection(FindingView { explanation, ..f }) == liquidity_objection(f),
{
}

proof fn lemma_trend_objection_ignores(f: FindingView, explanation: Option<Seq<char>>)
    ensures
        trend_objection(FindingView { explanation, ..f }) == trend_objection(f),
{
}

proof fn lemma_settlement_objection_ignores(f: FindingView, explanation: Option<Seq<char>>)
    ensures
        settlement_objection(FindingView { explanation, ..f }) == settlement_objection(f),
{
}

/// The same finding is always answered with the same recommendations, but for
/// when they were made.
pub proof fn lemma_recommendations_do_not_depend_on_time(
    f: FindingView,
    a: Timestamp,
    b: Timestamp,
    i: int,
)
    requires
        0 <= i < recommendations(f, a).len(),
    ensures
        recommendations(f, a).len() == recommendations(f, b).len(),
        recommendations(f, b)[i] == (RecommendationView {
            action: crate::action::ActionView {
                created_at: b,
                updated_at: b,
                ..recommendations(f, a)[i].action
            },
            ..recommendations(f, a)[i]
        }),
{
}

/// A settlement review takes the chain as synchronized exactly if the finding's evidence
/// of it is the text `true`: then its parameter says so and its summary asks for a
/// rebalance, and else the parameter denies it and the summary asks to verify the chain
/// first.
pub proof fn lemma_settlement_review_follows_synchronization(f: FindingView, now: Timestamp, k: int)
    requires
        f.detector == "settlement_reliability"@,
        finding_objection(f) is None,
        0 <= k < f.evidence.len(),
        f.evidence[k].key == "chain_synchronized"@,
    ensures
        ({
            let all = recommendations(f, now);
            let synchronized = f.evidence[k].value == JsonView::Text("true"@);
            let members = all[0].action.params->Object_0;
            let summary = all[0].action.summary;
            &&& all.len() == 1
            &&& all[0].action.params is Object
            &&& exists|i: int|
                0 <= i < members.len() && (#[trigger] members[i]).key == "chain_synchronized"@
                    && members[i].value == JsonView::Bool(synchronized)
            &&& forall|i: int|
                0 <= i < members.len() && (#[trigger] members[i]).key == "chain_synchronized"@
                    ==> members[i].value == JsonView::Bool(synchronized)
            &&& synchronized ==> exists|said: Seq<char>|
                summary == #[trigger] ("Lightning invoice settlement degradation detected: "@ + said
                    + " settled). Bitcoin Core node is synchronized; rebalance channel "@
                    + all[0].action.target->0
                    + " to restore outbound liquidity on merchant settlement paths."@)
            &&& !synchronized ==> exists|said: Seq<char>|
                summary == #[trigger] ("Invoice settlement failure rate is elevated ("@ + said
                    + "% failure rate). Bitcoin Core is not synchronized; verify chain synchronization before executing Lightning rebalances."@)
            &&& summary[0] == (if synchronized {
                'L'
            } else {
                'I'
            })
        }),
{
    lemma_evidence_is_where_its_key_is(f, k);
    let all = recommendations(f, now);
    let members = all[0].action.params->Object_0;
    reveal_strlit("channel_liquidity");
    reveal_strlit("liquidity_trend");
    reveal_strlit("settlement_reliability");
    assert("settlement_reliability"@[0] == 's');
    assert("channel_liquidity"@[0] == 'c');
    assert("liquidity_trend"@[0] == 'l');
    reveal_strlit("chain_synchronized");
    reveal_strlit("expired_invoices");
    reveal_strlit("failure_rate");
    reveal_strlit("reason");
    reveal_strlit("root_cause");
    reveal_strlit("settled_invoices");
    reveal_strlit("target_channel");
    assert("chain_synchronized"@.len() == 18);
    assert(members[0].key == "chain_synchronized"@);
    assert forall|i: int|
        0 <= i < members.len() && (#[trigger] members[i]).key == "chain_synchronized"@ implies
        members[i].value == JsonView::Bool(f.evidence[k].value == JsonView::Text("true"@)) by {
        assert(members[i].key.len() == 18);
        assert(i == 0);
    }
    reveal_strlit("Lightning invoice settlement degradation detected: ");
    reveal_strlit("Invoice settlement failure rate is elevated (");
    let percent = numeric::percent(evidence_of(f, "failure_rate"@)->0);
    let said = percent + "% failure rate ("@ + text::decimal(
        numeric::truncated(evidence_of(f, "expired_invoices"@)->0) as nat,
    ) + " expired, "@ + text::decimal(
        numeric::truncated(evidence_of(f, "settled_invoices"@)->0) as nat,
    );
    let summary = all[0].action.summary;
    if f.evidence[k].value == JsonView::Text("true"@) {
        assert(summary =~= "Lightning invoice settlement degradation detected: "@ + said
            + " settled). Bitcoin Core node is synchronized; rebalance channel "@
            + all[0].action.target->0
            + " to restore outbound liquidity on merchant settlement paths."@);
    } else {
        assert(summary =~= "Invoice settlement failure rate is elevated ("@ + percent
            + "% failure rate). Bitcoin Core is not synchronized; verify chain synchronization before executing Lightning rebalances."@);
    }
}

proof fn lemma_no_key_objection(evidence: Seq<EvidenceView>, from: int)
    requires
        0 <= from <= evidence.len(),
        key_objection(evidence, from) is None,
    ensures
        forall|i: int| from <= i < evidence.len() ==> !text::blank((#[trigger] evidence[i]).key),
        forall|i: int, j: int|
            0 <= i < j < evidence.len() && from <= j ==> (#[trigger] evidence[i]).key != (
            #[trigger] evidence[j]).key,
    decreases evidence.len() - from,
{
    if from < evidence.len() {
        lemma_no_key_objection(evidence, from + 1);
        assert forall|i: int, j: int| 0 <= i < j < evidence.len() && from <= j implies (
        #[trigger] evidence[i]).key != (#[trigger] evidence[j]).key by {
            if j == from {
                assert(evidence.take(from)[i] == evidence[i]);
            }
        }
    }
}

proof fn lemma_key_objection_is_none(evidence: Seq<EvidenceView>, from: int)
    requires
        0 <= from <= evidence.len(),
        forall|i: int| 0 <= i < evidence.len() ==> !text::blank((#[trigger] evidence[i]).key),
        forall|i: int, j: int|
            0 <= i < j < evidence.len() ==> (#[trigger] evidence[i]).key != (
            #[trigger] evidence[j]).key,
    ensures
        key_objection(evidence, from) is None,
    decreases evidence.len() - from,
{
    if from < evidence.len() {
        lemma_key_objection_is_none(evidence, from + 1);
        assert forall|j: int| 0 <= j < evidence.take(from).len() implies (
        #[trigger] evidence.take(from)[j]).key != evidence[from].key by {
            assert(evidence.take(from)[j] == evidence[j]);
        }
    }
}

proof fn lemma_evidence_is_where_its_key_is(f: FindingView, k: int)
    requires
        finding_objection(f) is None,
        0 <= k < f.evidence.len(),
    ensures
        evidence_of(f, f.evidence[k].key) == Some(f.evidence[k].value),
{
    lemma_no_key_objection(f.evidence, 0);
    assert forall|j: int| 0 <= j < k implies (#[trigger] f.evidence[j]).key
        != f.evidence[k].key by {
        assert(f.evidence[k].key == f.evidence[k].key);
    }
    crate::finding::lemma_evidence_is_found_by_key(f.evidence, f.evidence[k].key, k);
}

/// Every finding that is answered comes from a known detector in a known version, is
/// active and more than informational, and names each piece of its evidence once.
pub proof fn lemma_answered_findings_are_active_and_named(f: FindingView)
    requires
        finding_objection(f) is None,
    ensures
        f.detector == "channel_liquidity"@ || f.detector == "liquidity_trend"@ || f.detector
            == "settlement_reliability"@,
        f.detector_version == "1"@ || f.detector_version == "2"@,
        1 <= f.schema_version <= 2,
        f.lifecycle == FindingLifecycle::Active,
        f.severity == Severity::Warning || f.severity == Severity::Critical,
        forall|i: int| 0 <= i < f.evidence.len() ==> !text::blank((#[trigger] f.evidence[i]).key),
        forall|i: int, j: int|
            0 <= i < j < f.evidence.len() ==> (#[trigger] f.evidence[i]).key != (
            #[trigger] f.evidence[j]).key,
{
    lemma_no_key_objection(f.evidence, 0);
}

/// Whether a value is a number from zero to one.
pub open spec fn from_zero_to_one(v: JsonView) -> bool {
    match v {
        JsonView::Unsigned(n) => n == 0 || n == 1,
        JsonView::Real { bits, text } => bits <= 0x3FF0_0000_0000_0000 || bits
            == 0x8000_0000_0000_0000,
        _ => false,
    }
}

/// Whether a value is a finite number of zero or more.
pub open spec fn zero_or_more(v: JsonView) -> bool {
    match v {
        JsonView::Unsigned(n) => true,
        JsonView::Real { bits, text } => bits < 0x7FF0_0000_0000_0000 || bits
            == 0x8000_0000_0000_0000,
        _ => false,
    }
}

/// Whether a finding could come from any detector: version, schema, life and severity
/// are right and each piece of evidence has a name of its own.
pub open spec fn well_made(f: FindingView) -> bool {
    &&& f.detector_version == "1"@ || f.detector_version == "2"@
    &&& f.schema_version == 1 || f.schema_version == 2
    &&& f.lifecycle == FindingLifecycle::Active
    &&& f.severity != Severity::Info
    &&& forall|i: int| 0 <= i < f.evidence.len() ==> !text::blank((#[trigger] f.evidence[i]).key)
    &&& forall|i: int, j: int|
        0 <= i < j < f.evidence.len() ==> (#[trigger] f.evidence[i]).key != (
        #[trigger] f.evidence[j]).key
}

/// A finding on a channel's liquidity is answered exactly if it is well made, names its
/// channel and peer, tells one of two directions, and gives a share from zero to one,
/// balances of zero or more, a capacity above zero, and in the second version a threshold.
pub proof fn lemma_liquidity_findings_are_answered(f: FindingView)
    requires
        f.detector == "channel_liquidity"@,
    ensures
        finding_objection(f) is None <==> {
            &&& well_made(f)
            &&& f.channel is Some && !text::blank(f.channel->0)
            &&& evidence_of(f, "direction"@) == Some(JsonView::Text("outbound"@)) || evidence_of(
                f,
                "direction"@,
            ) == Some(JsonView::Text("inbound"@))
            &&& evidence_of(f, "local_ratio"@) matches Some(v) && from_zero_to_one(v)
            &&& evidence_of(f, "local_balance_msat"@) matches Some(v) && zero_or_more(v)
            &&& evidence_of(f, "remote_balance_msat"@) matches Some(v) && zero_or_more(v)
            &&& evidence_of(f, "capacity_msat"@) matches Some(v) && zero_or_more(v) && v
                != JsonView::Unsigned(0) && (v matches JsonView::Real { bits, text } ==> bits != 0
                && bits != 0x8000_0000_0000_0000)
            &&& evidence_of(f, "peer"@) matches Some(JsonView::Text(peer)) && !text::blank(peer)
            &&& f.detector_version == "2"@ ==> (evidence_of(f, "severity_threshold"@) matches Some(
                v,
            ) && from_zero_to_one(v))
        },
{
    if key_objection(f.evidence, 0) is None {
        lemma_no_key_objection(f.evidence, 0);
    }
    if well_made(f) {
        lemma_key_objection_is_none(f.evidence, 0);
    }
}

/// A finding on the trend of a channel's liquidity is answered exactly if it is well made,
/// names its channel and peer, tells of a drain, gives four shares from zero to one, and
/// a window of a whole number of snapshots.
pub proof fn lemma_trend_findings_are_answered(f: FindingView)
    requires
        f.detector == "liquidity_trend"@,
    ensures
        finding_objection(f) is None <==> {
            &&& well_made(f)
            &&& f.channel is Some && !text::blank(f.channel->0)
            &&& evidence_of(f, "direction"@) == Some(JsonView::Text("draining"@))
            &&& evidence_of(f, "start_ratio"@) matches Some(v) && from_zero_to_one(v)
            &&& evidence_of(f, "current_ratio"@) matches Some(v) && from_zero_to_one(v)
            &&& evidence_of(f, "decline"@) matches Some(v) && from_zero_to_one(v)
            &&& evidence_of(f, "min_in_window"@) matches Some(v) && from_zero_to_one(v)
            &&& evidence_of(f, "peer"@) matches Some(JsonView::Text(peer)) && !text::blank(peer)
            &&& evidence_of(f, "window"@) matches Some(v) && numeric::positive_integer(v) is Some
        },
{
    reveal_strlit("channel_liquidity");
    reveal_strlit("liquidity_trend");
    assert("channel_liquidity"@[0] == 'c');
    assert("liquidity_trend"@[0] == 'l');
    if key_objection(f.evidence, 0) is None {
        lemma_no_key_objection(f.evidence, 0);
    }
    if well_made(f) {
        lemma_key_objection_is_none(f.evidence, 0);
    }
}

/// A finding on settlements is answered exactly if it is well made, counts the invoices,
/// gives a failure rate from zero to one, and says how the chain stands and what is the
/// cause.
pub proof fn lemma_settlement_findings_are_answered(f: FindingView)
    requires
        f.detector == "settlement_reliability"@,
    ensures
        finding_objection(f) is None <==> {
            &&& well_made(f)
            &&& evidence_of(f, "expired_invoices"@) matches Some(v) && zero_or_more(v)
            &&& evidence_of(f, "settled_invoices"@) matches Some(v) && zero_or_more(v)
            &&& evidence_of(f, "failure_rate"@) matches Some(v) && from_zero_to_one(v)
            &&& evidence_of(f, "chain_synchronized"@) matches Some(JsonView::Text(s)) && !text::blank(
                s,
            )
            &&& evidence_of(f, "root_cause"@) matches Some(JsonView::Text(s)) && !text::blank(s)
        },
{
    reveal_strlit("channel_liquidity");
    reveal_strlit("liquidity_trend");
    reveal_strlit("settlement_reliability");
    assert("settlement_reliability"@[0] == 's');
    assert("channel_liquidity"@[0] == 'c');
    assert("liquidity_trend"@[0] == 'l');
    if key_objection(f.evidence, 0) is None {
        lemma_no_key_objection(f.evidence, 0);
    }
    if well_made(f) {
        lemma_key_objection_is_none(f.evidence, 0);
    }
}

/// A channel drained outbound is answered with the review of a rebalance, one drained
/// inbound with the review of its fees and then that of a rebalance, all on the finding's
/// channel and for the finding's direction.
pub proof fn lemma_liquidity_reviews_follow_the_direction(f: FindingView, now: Timestamp, k: int)
    requires
        f.detector == "channel_liquidity"@,
        finding_objection(f) is None,
        0 <= k < f.evidence.len(),
        f.evidence[k].key == "direction"@,
    ensures
        ({
            let all = recommendations(f, now);
            let outbound = f.evidence[k].value == JsonView::Text("outbound"@);
            let word = if outbound {
                "outbound"@
            } else {
                "inbound"@
            };
            &&& all.len() == (if outbound {
                1int
            } else {
                2
            })
            &&& all.last().action.action_type == ActionType::RebalanceChannel
            &&& !outbound ==> all[0].action.action_type == ActionType::UpdateFeePolicy
            &&& forall|i: int|
                0 <= i < all.len() ==> (#[trigger] all[i]).action.target == f.channel
                    && all[i].action.created_at == now && crate::json::param_value(
                    all[i].action.params,
                    "reason"@,
                ) == Some(JsonView::Text(word + " liquidity drained"@))
        }),
{
    lemma_evidence_is_where_its_key_is(f, k);
    let all = recommendations(f, now);
    assert forall|i: int| 0 <= i < all.len() implies crate::json::param_value(
        (#[trigger] all[i]).action.params,
        "reason"@,
    ) == Some(
        JsonView::Text(
            (if f.evidence[k].value == JsonView::Text("outbound"@) {
                "outbound"@
            } else {
                "inbound"@
            }) + " liquidity drained"@,
        ),
    ) by {
        let members = all[i].action.params->Object_0;
        assert(members[0].key == "reason"@);
    }
    reveal_strlit("outbound");
    reveal_strlit("inbound");
    assert("outbound"@[0] == 'o');
    assert("inbound"@[0] == 'i');
}

/// A trend is answered with one review of a rebalance on the finding's channel, which
/// hands on the evidence as it stands.
pub proof fn lemma_trend_reviews_hand_on_the_evidence(f: FindingView, now: Timestamp)
    requires
        f.detector == "liquidity_trend"@,
        finding_objection(f) is None,
    ensures
        ({
            let all = recommendations(f, now);
            let members = all[0].action.params->Object_0;
            &&& all.len() == 1
            &&& all[0].action.action_type == ActionType::RebalanceChannel
            &&& all[0].action.target == f.channel
            &&& members.len() == 5
            &&& members[0].key == "current_ratio"@ && members[0].value == crate::json::as_double(
                evidence_of(f, "current_ratio"@)->0,
            )
            &&& members[1].key == "decline"@ && members[1].value == crate::json::as_double(
                evidence_of(f, "decline"@)->0,
            )
            &&& members[2].key == "reason"@
            &&& members[3].key == "start_ratio"@ && members[3].value == crate::json::as_double(
                evidence_of(f, "start_ratio"@)->0,
            )
            &&& members[4].key == "window"@ && Some(members[4].value) == (
            match numeric::positive_integer(evidence_of(f, "window"@)->0) {
                Some(n) => Some(JsonView::Unsigned(n)),
                None => None,
            })
            &&& all[0].action.summary == "Channel "@ + f.channel->0
                + " is trending toward outbound drain: local ratio declined from "@
                + numeric::four_decimals(evidence_of(f, "start_ratio"@)->0) + " to "@
                + numeric::four_decimals(evidence_of(f, "current_ratio"@)->0)
                + " over the last "@ + text::decimal(
                numeric::positive_integer(evidence_of(f, "window"@)->0)->0 as nat,
            )
                + " snapshots. Inspect recent forwarding activity to confirm whether the trend is expected."@
        }),
{
    reveal_strlit("channel_liquidity");
    reveal_strlit("liquidity_trend");
    assert("channel_liquidity"@[0] == 'c');
    assert("liquidity_trend"@[0] == 'l');
}

/// A settlement review points at the finding's channel, or at the primary routing path
/// where it names none, and hands on the counts, the rate and the cause as they stand.
pub proof fn lemma_settlement_reviews_hand_on_the_evidence(f: FindingView, now: Timestamp)
    requires
        f.detector == "settlement_reliability"@,
        finding_objection(f) is None,
    ensures
        ({
            let all = recommendations(f, now);
            let members = all[0].action.params->Object_0;
            let target = if f.channel is Some && !text::blank(f.channel->0) {
                f.channel->0
            } else {
                "primary-routing-path"@
            };
            &&& all.len() == 1
            &&& all[0].action.action_type == ActionType::RebalanceChannel
            &&& all[0].action.target == Some(target)
            &&& members.len() == 7
            &&& members[1].key == "expired_invoices"@ && members[1].value
                == crate::json::as_double(evidence_of(f, "expired_invoices"@)->0)
            &&& members[2].key == "failure_rate"@ && members[2].value == crate::json::as_double(
                evidence_of(f, "failure_rate"@)->0,
            )
            &&& members[4].key == "root_cause"@ && Some(members[4].value) == evidence_of(
                f,
                "root_cause"@,
            )
            &&& members[5].key == "settled_invoices"@ && members[5].value
                == crate::json::as_double(evidence_of(f, "settled_invoices"@)->0)
            &&& members[6].key == "target_channel"@ && members[6].value == JsonView::Text(target)
        }),
{
    reveal_strlit("channel_liquidity");
    reveal_strlit("liquidity_trend");
    reveal_strlit("settlement_reliability");
    assert("settlement_reliability"@[0] == 's');
    assert("channel_liquidity"@[0] == 'c');
    assert("liquidity_trend"@[0] == 'l');
}

/// Every recommendation quotes all the evidence, each piece as its key and its value.
pub proof fn lemma_recommendations_quote_the_evidence(
    f: FindingView,
    now: Timestamp,
    i: int,
    k: int,
)
    requires
        0 <= i < recommendations(f, now).len(),
        0 <= k < f.evidence.len(),
    ensures
        recommendations(f, now)[i].rationale.evidence[k] == f.evidence[k].key + "="@
            + crate::json::json_text(f.evidence[k].value),
{
    reveal_strlit("=");
    assert("="@ =~= seq!['=']);
}

} // verus!
