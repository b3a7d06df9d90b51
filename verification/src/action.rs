//! Recommended actions, the recommendations that carry them, and the audit
//! log that records what became of them.
use crate::identity::action_identity;
use crate::json::{Json, JsonView, Params, ParamsView};
use crate::text;
use crate::text::copy_optional_text;
use crate::time;
use crate::time::{current_time, Timestamp};
use vstd::prelude::*;

verus! {

/// Where an action stands between its recommendation and its end.
#[derive(Debug, Clone, Copy, PartialEq, Eq, Structural)]
pub enum ActionStage {
    Recommended,
    Simulated,
    Approved,
    Executed,
    Rejected,
    Failed,
}

impl DeepView for ActionStage {
    type V = ActionStage;

    open spec fn deep_view(&self) -> ActionStage {
        *self
    }
}

/// The actions that can be recommended.
#[derive(Debug, Clone, Copy, PartialEq, Eq, Structural)]
pub enum ActionType {
    RebalanceChannel,
    UpdateFeePolicy,
    RestartService,
    Custom,
}

impl DeepView for ActionType {
    type V = ActionType;

    open spec fn deep_view(&self) -> ActionType {
        *self
    }
}

impl ActionType {
    /// The stable name of the action type.
    pub open spec fn name(self) -> Seq<char> {
        match self {
            ActionType::RebalanceChannel => "rebalance_channel"@,
            ActionType::UpdateFeePolicy => "update_fee_policy"@,
            ActionType::RestartService => "restart_service"@,
            ActionType::Custom => "custom"@,
        }
    }

    /// The stable name of the action type.
    pub fn as_str(&self) -> (r: &'static str)
        ensures
            r@ == self.name(),
    {
        match self {
            ActionType::RebalanceChannel => "rebalance_channel",
            ActionType::UpdateFeePolicy => "update_fee_policy",
            ActionType::RestartService => "restart_service",
            ActionType::Custom => "custom",
        }
    }
}

/// A concrete action with its parameters.
#[derive(Debug, PartialEq)]
pub struct Action {
    pub id: String,
    pub action_type: ActionType,
    pub stage: ActionStage,
    /// What the action is about, such as a channel or a service.
    pub target: Option<String>,
    pub params: Params,
    pub summary: String,
    pub created_at: Timestamp,
    pub updated_at: Timestamp,
}

/// The mathematical value of a [`Action`].
pub struct ActionView {
    pub id: Seq<char>,
    pub action_type: ActionType,
    pub stage: ActionStage,
    pub target: Option<Seq<char>>,
    pub params: ParamsView,
    pub summary: Seq<char>,
    pub created_at: Timestamp,
    pub updated_at: Timestamp,
}

impl DeepView for Action {
    type V = ActionView;

    open spec fn deep_view(&self) -> ActionView {
        ActionView {
            id: self.id.deep_view(),
            action_type: self.action_type,
            stage: self.stage,
            target: self.target.deep_view(),
            params: self.params.deep_view(),
            summary: self.summary.deep_view(),
            created_at: self.created_at,
            updated_at: self.updated_at,
        }
    }
}

impl Clone for Action {
    fn clone(&self) -> (r: Self)
        ensures
            r.deep_view() == self.deep_view(),
    {
        Action {
            id: self.id.clone(),
            action_type: self.action_type,
            stage: self.stage,
            target: copy_optional_text(&self.target),
            params: self.params.clone(),
            summary: self.summary.clone(),
            created_at: self.created_at,
            updated_at: self.updated_at,
        }
    }
}

/// Whether a text has the form of a random identifier: 32 lower-case hexadecimal
/// digits in five groups with hyphens between them, of which one tells that the
/// identifier is random and one how it is laid out.
pub open spec fn is_random_id(s: Seq<char>) -> bool {
    &&& s.len() == 36
    &&& forall|i: int|
        0 <= i < 36 ==> if i == 8 || i == 13 || i == 18 || i == 23 {
            #[trigger] s[i] == '-'
        } else {
            text::is_hex_digit(s[i])
        }
    &&& s[14] == '4'
    &&& s[19] == '8' || s[19] == '9' || s[19] == 'a' || s[19] == 'b'
}

/// `uuid::Uuid::new_v4`, in its hyphenated form of 36 characters. Which
/// identifier comes back is left to chance.
#[verifier::external_body]
pub(crate) fn fresh_id() -> (r: String)
    ensures
        is_random_id(r@),
{
    uuid::Uuid::new_v4().to_string()
}

impl Action {
    /// A new action under a fresh identifier, made now.
    pub fn new(
        action_type: ActionType,
        stage: ActionStage,
        target: Option<String>,
        params: Params,
        summary: &str,
    ) -> (r: Action)
        ensures
            r.deep_view() == (ActionView {
                id: r.deep_view().id,
                action_type,
                stage,
                target: target.deep_view(),
                params: params.deep_view(),
                summary: summary@,
                created_at: r.created_at,
                updated_at: r.created_at,
            }),
            is_random_id(r.id@),
            time::shown_by_clock(r.created_at),
    {
        Self::made_at(fresh_id(), action_type, stage, target, params, summary, current_time())
    }

    /// The action that a finding recommends, made now. Its identifier follows
    /// from the finding, the action type and the target alone, so that the same
    /// recommendation always carries the same identifier.
    pub fn for_recommendation(
        finding_id: &str,
        action_type: ActionType,
        target: Option<String>,
        params: Params,
        summary: &str,
    ) -> (r: Action)
        ensures
            r.deep_view() == recommended_action(
                finding_id@,
                action_type,
                target.deep_view(),
                params.deep_view(),
                summary@,
                r.created_at,
            ),
            time::shown_by_clock(r.created_at),
    {
        Self::recommended_at(finding_id, action_type, target, params, summary, current_time())
    }

    /// The action that a finding recommends, made at `now`.
    pub fn recommended_at(
        finding_id: &str,
        action_type: ActionType,
        target: Option<String>,
        params: Params,
        summary: &str,
        now: Timestamp,
    ) -> (r: Action)
        ensures
            r.deep_view() == recommended_action(
                finding_id@,
                action_type,
                target.deep_view(),
                params.deep_view(),
                summary@,
                now,
            ),
    {
        let id = match &target {
            Some(t) => action_identity(finding_id, action_type, Some(t.as_str())),
            None => action_identity(finding_id, action_type, None),
        };
        Self::made_at(id, action_type, ActionStage::Recommended, target, params, summary, now)
    }

    /// An action made at `now`.
    pub fn made_at(
        id: String,
        action_type: ActionType,
        stage: ActionStage,
        target: Option<String>,
        params: Params,
        summary: &str,
        now: Timestamp,
    ) -> (r: Action)
        ensures
            r.deep_view() == (ActionView {
                id: id@,
                action_type,
                stage,
                target: target.deep_view(),
                params: params.deep_view(),
                summary: summary@,
                created_at: now,
                updated_at: now,
            }),
    {
        Action {
            id,
            action_type,
            stage,
            target,
            params,
            summary: summary.to_owned(),
            created_at: now,
            updated_at: now,
        }
    }
}

/// The action that a finding recommends, made at `now`.
pub open spec fn recommended_action(
    finding_id: Seq<char>,
    action_type: ActionType,
    target: Option<Seq<char>>,
    params: ParamsView,
    summary: Seq<char>,
    now: Timestamp,
) -> ActionView {
    ActionView {
        id: crate::identity::action_identity_text(finding_id, action_type, target),
        action_type,
        stage: ActionStage::Recommended,
        target,
        params,
        summary,
        created_at: now,
        updated_at: now,
    }
}

/// Whether a recommendation asks the operator to act or only informs.
#[derive(Debug, Clone, Copy, PartialEq, Eq, Structural)]
pub enum Actionability {
    Informational,
    OperatorActionable,
}

impl DeepView for Actionability {
    type V = Actionability;

    open spec fn deep_view(&self) -> Actionability {
        *self
    }
}

impl Actionability {
    /// The stable name of the actionability.
    pub open spec fn name(self) -> Seq<char> {
        match self {
            Actionability::Informational => "informational"@,
            Actionability::OperatorActionable => "operator_actionable"@,
        }
    }

    /// The stable name of the actionability.
    pub fn as_str(&self) -> (r: &'static str)
        ensures
            r@ == self.name(),
    {
        match self {
            Actionability::Informational => "informational",
            Actionability::OperatorActionable => "operator_actionable",
        }
    }
}

impl Default for Actionability {
    fn default() -> (r: Self)
        ensures
            r == Actionability::Informational,
    {
        Actionability::Informational
    }
}

/// The evidence-backed reasoning behind a recommendation.
#[derive(Debug, PartialEq, Eq)]
pub struct Rationale {
    /// The evidence that the advice is grounded in.
    pub evidence: Vec<String>,
    /// What should hold before an operator considers acting.
    pub preconditions: Vec<String>,
    /// The expected effect if the operator acts.
    pub expected_effect: String,
    /// Risks and trade-offs to weigh.
    pub risks: Vec<String>,
    /// What the analysis does not know.
    pub limitations: Vec<String>,
    pub actionability: Actionability,
}

/// The mathematical value of a [`Rationale`].
pub struct RationaleView {
    pub evidence: Seq<Seq<char>>,
    pub preconditions: Seq<Seq<char>>,
    pub expected_effect: Seq<char>,
    pub risks: Seq<Seq<char>>,
    pub limitations: Seq<Seq<char>>,
    pub actionability: Actionability,
}

impl DeepView for Rationale {
    type V = RationaleView;

    open spec fn deep_view(&self) -> RationaleView {
        RationaleView {
            evidence: self.evidence.deep_view(),
            preconditions: self.preconditions.deep_view(),
            expected_effect: self.expected_effect.deep_view(),
            risks: self.risks.deep_view(),
            limitations: self.limitations.deep_view(),
            actionability: self.actionability,
        }
    }
}

impl Clone for Rationale {
    fn clone(&self) -> (r: Self)
        ensures
            r.deep_view() == self.deep_view(),
    {
        let evidence = self.evidence.clone();
        assert(evidence.deep_view() =~= self.evidence.deep_view());
        let preconditions = self.preconditions.clone();
        assert(preconditions.deep_view() =~= self.preconditions.deep_view());
        let risks = self.risks.clone();
        assert(risks.deep_view() =~= self.risks.deep_view());
        let limitations = self.limitations.clone();
        assert(limitations.deep_view() =~= self.limitations.deep_view());
        Rationale {
            evidence,
            preconditions,
            expected_effect: self.expected_effect.clone(),
            risks,
            limitations,
            actionability: self.actionability,
        }
    }
}

impl Default for Rationale {
    fn default() -> (r: Self)
        ensures
            r.deep_view() == (RationaleView {
                evidence: seq![],
                preconditions: seq![],
                expected_effect: seq![],
                risks: seq![],
                limitations: seq![],
                actionability: Actionability::Informational,
            }),
    {
        let r = Rationale {
            evidence: Vec::new(),
            preconditions: Vec::new(),
            expected_effect: String::new(),
            risks: Vec::new(),
            limitations: Vec::new(),
            actionability: Actionability::Informational,
        };
        assert(r.evidence.deep_view() =~= seq![]);
        assert(r.preconditions.deep_view() =~= seq![]);
        assert(r.risks.deep_view() =~= seq![]);
        assert(r.limitations.deep_view() =~= seq![]);
        r
    }
}

/// A finding, the action proposed for it, and the reasoning.
#[derive(Debug, PartialEq)]
pub struct Recommendation {
    pub finding_id: String,
    pub action: Action,
    pub rationale: Rationale,
}

/// The mathematical value of a [`Recommendation`].
pub struct RecommendationView {
    pub finding_id: Seq<char>,
    pub action: ActionView,
    pub rationale: RationaleView,
}

impl DeepView for Recommendation {
    type V = RecommendationView;

    open spec fn deep_view(&self) -> RecommendationView {
        RecommendationView {
            finding_id: self.finding_id.deep_view(),
            action: self.action.deep_view(),
            rationale: self.rationale.deep_view(),
        }
    }
}

impl Clone for Recommendation {
    fn clone(&self) -> (r: Self)
        ensures
            r.deep_view() == self.deep_view(),
    {
        Recommendation {
            finding_id: self.finding_id.clone(),
            action: self.action.clone(),
            rationale: self.rationale.clone(),
        }
    }
}

/// One row of the append-only audit log.
#[derive(Debug, PartialEq)]
pub struct AuditEntry {
    pub id: String,
    pub action_id: String,
    pub action_type: ActionType,
    /// The stage before this entry; none for a creation.
    pub previous_stage: Option<ActionStage>,
    pub stage: ActionStage,
    /// Who brought the change about.
    pub actor: String,
    pub details: Json,
    pub timestamp: Timestamp,
}

/// The mathematical value of a [`AuditEntry`].
pub struct AuditEntryView {
    pub id: Seq<char>,
    pub action_id: Seq<char>,
    pub action_type: ActionType,
    pub previous_stage: Option<ActionStage>,
    pub stage: ActionStage,
    pub actor: Seq<char>,
    pub details: JsonView,
    pub timestamp: Timestamp,
}

impl DeepView for AuditEntry {
    type V = AuditEntryView;

    open spec fn deep_view(&self) -> AuditEntryView {
        AuditEntryView {
            id: self.id.deep_view(),
            action_id: self.action_id.deep_view(),
            action_type: self.action_type,
            previous_stage: self.previous_stage,
            stage: self.stage,
            actor: self.actor.deep_view(),
            details: self.details.deep_view(),
            timestamp: self.timestamp,
        }
    }
}

impl Clone for AuditEntry {
    fn clone(&self) -> (r: Self)
        ensures
            r.deep_view() == self.deep_view(),
    {
        AuditEntry {
            id: self.id.clone(),
            action_id: self.action_id.clone(),
            action_type: self.action_type,
            previous_stage: self.previous_stage,
            stage: self.stage,
            actor: self.actor.clone(),
            details: self.details.clone(),
            timestamp: self.timestamp,
        }
    }
}

/// The entry that records `action` entering its stage from `previous`.
pub open spec fn audit_entry(
    id: Seq<char>,
    action: ActionView,
    previous: Option<ActionStage>,
    actor: Seq<char>,
    details: JsonView,
    now: Timestamp,
) -> AuditEntryView {
    AuditEntryView {
        id,
        action_id: action.id,
        action_type: action.action_type,
        previous_stage: previous,
        stage: action.stage,
        actor,
        details,
        timestamp: now,
    }
}

impl AuditEntry {
    /// The entry for the creation of `action`, under a fresh identifier and made now.
    pub fn from_action(action: &Action, actor: &str, details: Json) -> (r: AuditEntry)
        ensures
            r.deep_view() == audit_entry(
                r.id@,
                action.deep_view(),
                None,
                actor@,
                details.deep_view(),
                r.timestamp,
            ),
            is_random_id(r.id@),
            time::shown_by_clock(r.timestamp),
    {
        Self::recorded_at(fresh_id(), action, None, actor, details, current_time())
    }

    /// The entry for the step of `action` from `from` to its stage, under a fresh
    /// identifier and made now.
    pub fn from_transition(action: &Action, from: ActionStage, actor: &str, details: Json) -> (r:
        AuditEntry)
        ensures
            r.deep_view() == audit_entry(
                r.id@,
                action.deep_view(),
                Some(from),
                actor@,
                details.deep_view(),
                r.timestamp,
            ),
            is_random_id(r.id@),
            time::shown_by_clock(r.timestamp),
    {
        Self::recorded_at(fresh_id(), action, Some(from), actor, details, current_time())
    }

    /// The entry that records `action` entering its stage from `previous`.
    pub fn recorded_at(
        id: String,
        action: &Action,
        previous: Option<ActionStage>,
        actor: &str,
        details: Json,
        now: Timestamp,
    ) -> (r: AuditEntry)
        ensures
            r.deep_view() == audit_entry(
                id@,
                action.deep_view(),
                previous,
                actor@,
                details.deep_view(),
                now,
            ),
    {
        AuditEntry {
            id,
            action_id: action.id.clone(),
            action_type: action.action_type,
            previous_stage: previous,
            stage: action.stage,
            actor: actor.to_owned(),
            details,
            timestamp: now,
        }
    }
}

/// An action begins as recommended, with what it was made of, and unchanged since
/// it was made.
pub proof fn lemma_actions_begin_recommended(
    finding_id: Seq<char>,
    action_type: ActionType,
    target: Option<Seq<char>>,
    params: ParamsView,
    summary: Seq<char>,
    now: Timestamp,
)
    ensures
        ({
            let a = recommended_action(finding_id, action_type, target, params, summary, now);
            &&& a.stage is Recommended
            &&& a.action_type == action_type && a.target == target && a.params == params
            &&& a.summary == summary
            &&& a.created_at == now && a.updated_at == now
            &&& a.id == crate::identity::action_identity_text(finding_id, action_type, target)
        }),
{
}

/// An entry of the audit tells which action came to which stage, from which one,
/// by whom and when.
pub proof fn lemma_audit_tells_the_step(
    id: Seq<char>,
    action: ActionView,
    previous: Option<ActionStage>,
    actor: Seq<char>,
    details: JsonView,
    now: Timestamp,
)
    ensures
        ({
            let e = audit_entry(id, action, previous, actor, details, now);
            &&& e.id == id && e.action_id == action.id && e.action_type == action.action_type
            &&& e.stage == action.stage && e.previous_stage == previous
            &&& e.actor == actor && e.details == details && e.timestamp == now
        }),
{
}

} // verus!
