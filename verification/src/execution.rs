//! The way of an action from recommendation to execution: which steps are
//! legal, who may take them, and what a node is asked to do.
use crate::action::{Action, ActionStage, ActionType, ActionView};
use crate::json;
use crate::json::{write_object, Json, JsonView, Member, MemberView};
use crate::text;
use crate::text::same_text;
use vstd::prelude::*;

verus! {

/// Why an action cannot take a step or be executed.
#[derive(Debug, PartialEq, Eq)]
pub enum ExecutionError {
    IllegalTransition { from: ActionStage, to: ActionStage },
    NeedsHuman(String),
    NotExecutable(String),
    MissingParams(String),
    Unsupported(String),
    Node(String),
}

/// The mathematical value of an [`ExecutionError`].
pub enum ExecutionErrorView {
    IllegalTransition { from: ActionStage, to: ActionStage },
    NeedsHuman(Seq<char>),
    NotExecutable(Seq<char>),
    MissingParams(Seq<char>),
    Unsupported(Seq<char>),
    Node(Seq<char>),
}

impl DeepView for ExecutionError {
    type V = ExecutionErrorView;

    open spec fn deep_view(&self) -> ExecutionErrorView {
        match self {
            ExecutionError::IllegalTransition { from, to } =>
                ExecutionErrorView::IllegalTransition { from: *from, to: *to },
            ExecutionError::NeedsHuman(s) => ExecutionErrorView::NeedsHuman(s@),
            ExecutionError::NotExecutable(s) => ExecutionErrorView::NotExecutable(s@),
            ExecutionError::MissingParams(s) => ExecutionErrorView::MissingParams(s@),
            ExecutionError::Unsupported(s) => ExecutionErrorView::Unsupported(s@),
            ExecutionError::Node(s) => ExecutionErrorView::Node(s@),
        }
    }
}

/// The name of a stage.
pub open spec fn stage_name(stage: ActionStage) -> Seq<char> {
    match stage {
        ActionStage::Recommended => "Recommended"@,
        ActionStage::Simulated => "Simulated"@,
        ActionStage::Approved => "Approved"@,
        ActionStage::Executed => "Executed"@,
        ActionStage::Rejected => "Rejected"@,
        ActionStage::Failed => "Failed"@,
    }
}

/// The name of a stage.
pub fn stage_text(stage: ActionStage) -> (r: &'static str)
    ensures
        r@ == stage_name(stage),
{
    match stage {
        ActionStage::Recommended => "Recommended",
        ActionStage::Simulated => "Simulated",
        ActionStage::Approved => "Approved",
        ActionStage::Executed => "Executed",
        ActionStage::Rejected => "Rejected",
        ActionStage::Failed => "Failed",
    }
}

/// What an error says.
pub open spec fn execution_error_text(e: ExecutionErrorView) -> Seq<char> {
    match e {
        ExecutionErrorView::IllegalTransition { from, to } => "illegal transition "@ + stage_name(
            from,
        ) + " -> "@ + stage_name(to),
        ExecutionErrorView::NeedsHuman(actor) => "approval requires a human actor, got `"@ + actor
            + "` (the system cannot self-approve)"@,
        ExecutionErrorView::NotExecutable(id) => "action "@ + id
            + " is not in a stage that can be executed"@,
        ExecutionErrorView::MissingParams(s) => "missing action parameters: "@ + s,
        ExecutionErrorView::Unsupported(s) => "unsupported action type: "@ + s,
        ExecutionErrorView::Node(s) => "node error: "@ + s,
    }
}

impl ExecutionError {
    /// What the error says.
    pub fn to_text(&self) -> (r: String)
        ensures
            r@ == execution_error_text(self.deep_view()),
    {
        match self {
            ExecutionError::IllegalTransition { from, to } => "illegal transition ".to_owned().concat(
                stage_text(*from),
            ).concat(" -> ").concat(stage_text(*to)),
            ExecutionError::NeedsHuman(actor) =>
                "approval requires a human actor, got `".to_owned().concat(actor.as_str()).concat(
                "` (the system cannot self-approve)",
            ),
            ExecutionError::NotExecutable(id) => "action ".to_owned().concat(id.as_str()).concat(
                " is not in a stage that can be executed",
            ),
            ExecutionError::MissingParams(s) => "missing action parameters: ".to_owned().concat(
                s.as_str(),
            ),
            ExecutionError::Unsupported(s) => "unsupported action type: ".to_owned().concat(
                s.as_str(),
            ),
            ExecutionError::Node(s) => "node error: ".to_owned().concat(s.as_str()),
        }
    }
}

/// The actor that stands for the system itself, which approves nothing.
pub const SYSTEM_ACTOR: &'static str = "system";

/// The legal steps: forward through simulation and approval to execution, out
/// by rejection before execution, and to failure once approved.
pub open spec fn legal_step(from: ActionStage, to: ActionStage) -> bool {
    match to {
        ActionStage::Recommended => false,
        ActionStage::Simulated => from == ActionStage::Recommended,
        ActionStage::Approved => from == ActionStage::Recommended || from == ActionStage::Simulated,
        ActionStage::Executed => from == ActionStage::Approved,
        ActionStage::Rejected => from == ActionStage::Recommended || from == ActionStage::Simulated
            || from == ActionStage::Approved,
        ActionStage::Failed => from == ActionStage::Approved,
    }
}

/// Whether an action may step from one stage to another.
pub fn can_transition(from: ActionStage, to: ActionStage) -> (r: bool)
    ensures
        r == legal_step(from, to),
{
    matches!(
        (from, to),
        (ActionStage::Recommended, ActionStage::Simulated)
        | (ActionStage::Recommended, ActionStage::Approved)
        | (ActionStage::Simulated, ActionStage::Approved)
        | (ActionStage::Approved, ActionStage::Executed)
        | (ActionStage::Recommended, ActionStage::Rejected)
        | (ActionStage::Simulated, ActionStage::Rejected)
        | (ActionStage::Approved, ActionStage::Rejected)
        | (ActionStage::Approved, ActionStage::Failed)
    )
}

/// Whether an actor is a human who can approve.
pub open spec fn can_approve(actor: Seq<char>) -> bool {
    !text::blank(actor) && actor != "system"@
}

/// Takes `action` to the stage `to` in the name of `actor`. Approval takes a
/// human.
pub fn transition(action: &Action, to: ActionStage, actor: &str) -> (r: Result<
    ActionStage,
    ExecutionError,
>)
    ensures
        match r {
            Ok(stage) => stage == to && legal_step(action.stage, to) && (to == ActionStage::Approved
                ==> can_approve(actor@)),
            Err(e) => if !legal_step(action.stage, to) {
                e.deep_view() == (ExecutionErrorView::IllegalTransition { from: action.stage, to })
            } else {
                to == ActionStage::Approved && !can_approve(actor@) && e.deep_view()
                    == ExecutionErrorView::NeedsHuman(actor@)
            },
        },
{
    if !can_transition(action.stage, to) {
        return Err(ExecutionError::IllegalTransition { from: action.stage, to });
    }
    if to == ActionStage::Approved && (text::is_blank(actor) || same_text(actor, SYSTEM_ACTOR)) {
        return Err(ExecutionError::NeedsHuman(actor.to_owned()));
    }
    Ok(to)
}

/// Whether the action may be executed now.
pub fn is_executable(action: &Action) -> (r: bool)
    ensures
        r == (action.stage == ActionStage::Approved),
{
    action.stage == ActionStage::Approved
}

/// What came of an execution.
#[derive(Debug, PartialEq, Eq)]
pub struct ExecutionReport {
    pub success: bool,
    pub detail: String,
}

impl Clone for ExecutionReport {
    fn clone(&self) -> (r: Self)
        ensures
            r.success == self.success,
            r.detail@ == self.detail@,
    {
        ExecutionReport { success: self.success, detail: self.detail.clone() }
    }
}

impl ExecutionReport {
    /// The report of a success.
    pub fn succeeded(detail: &str) -> (r: ExecutionReport)
        ensures
            r.success,
            r.detail@ == detail@,
    {
        ExecutionReport { success: true, detail: detail.to_owned() }
    }
}

/// Performs approved actions.
pub trait Executor {
    fn execute(&self, action: &Action) -> Result<ExecutionReport, ExecutionError>;
}

/// Records an execution without touching a node.
pub struct RecordingExecutor;

/// How the record of an execution reads.
pub open spec fn recorded_text(action: ActionView) -> Seq<char> {
    "recorded execution of "@ + action.action_type.name() + " on "@ + (match action.target {
        Some(target) => target,
        None => "(node)"@,
    })
}

impl Executor for RecordingExecutor {
    fn execute(&self, action: &Action) -> (r: Result<ExecutionReport, ExecutionError>)
        ensures
            match r {
                Ok(report) => action.stage == ActionStage::Approved && report.success
                    && report.detail@ == recorded_text(action.deep_view()),
                Err(e) => action.stage != ActionStage::Approved && e.deep_view()
                    == ExecutionErrorView::NotExecutable(action.id@),
            },
    {
        if !is_executable(action) {
            return Err(ExecutionError::NotExecutable(action.id.clone()));
        }
        let what = "recorded execution of ".to_owned().concat(action.action_type.as_str()).concat(
            " on ",
        );
        let detail = match &action.target {
            Some(target) => what.concat(target.as_str()),
            None => what.concat("(node)"),
        };
        Ok(ExecutionReport::succeeded(detail.as_str()))
    }
}

/// The base64 character of six bits.
pub open spec fn base64_char(d: nat) -> char {
    if d < 26 {
        (65 + d) as char
    } else if d < 52 {
        (97 + d - 26) as char
    } else if d < 62 {
        (48 + d - 52) as char
    } else if d == 62 {
        '+'
    } else {
        '/'
    }
}

/// The base64 form of up to three bytes, padded to four characters.
pub open spec fn base64_group(b: Seq<u8>) -> Seq<char> {
    let x = b[0] as nat;
    let y = if b.len() > 1 {
        b[1] as nat
    } else {
        0
    };
    let z = if b.len() > 2 {
        b[2] as nat
    } else {
        0
    };
    seq![
        base64_char(x / 4),
        base64_char(x % 4 * 16 + y / 16),
        if b.len() > 1 {
            base64_char(y % 16 * 4 + z / 64)
        } else {
            '='
        },
        if b.len() > 2 {
            base64_char(z % 64)
        } else {
            '='
        },
    ]
}

/// The base64 form of bytes, with padding.
pub open spec fn base64_text(bytes: Seq<u8>) -> Seq<char>
    decreases bytes.len(),
{
    if bytes.len() == 0 {
        seq![]
    } else if bytes.len() <= 3 {
        base64_group(bytes)
    } else {
        base64_group(bytes.take(3)) + base64_text(bytes.skip(3))
    }
}

fn base64_digit(d: u8) -> (r: char)
    requires
        d < 64,
    ensures
        r == base64_char(d as nat),
{
    if d < 26 {
        (65u8 + d) as char
    } else if d < 52 {
        (97u8 + (d - 26)) as char
    } else if d < 62 {
        (48u8 + (d - 52)) as char
    } else if d == 62 {
        '+'
    } else {
        '/'
    }
}

/// The base64 form of bytes, with padding.
pub fn encode_base64(bytes: &[u8]) -> (r: String)
    ensures
        r@ == base64_text(bytes@),
{
    let mut out = String::new();
    let mut i: usize = 0;
    assert(bytes@.skip(0) =~= bytes@);
    assert(out@ + base64_text(bytes@) =~= base64_text(bytes@));
    while i < bytes.len()
        invariant
            i <= bytes.len(),
            out@ + base64_text(bytes@.skip(i as int)) == base64_text(bytes@),
        decreases bytes.len() - i,
    {
        let ghost rest = bytes@.skip(i as int);
        let ghost before = out@;
        let left: usize = bytes.len() - i;
        let x: u8 = bytes[i];
        let y: u8 = if left > 1 {
            bytes[i + 1]
        } else {
            0
        };
        let z: u8 = if left > 2 {
            bytes[i + 2]
        } else {
            0
        };
        out.push(base64_digit(x / 4));
        out.push(base64_digit(x % 4 * 16 + y / 16));
        if left > 1 {
            out.push(base64_digit(y % 16 * 4 + z / 64));
        } else {
            out.push('=');
        }
        if left > 2 {
            out.push(base64_digit(z % 64));
        } else {
            out.push('=');
        }
        if left <= 3 {
            assert(out@ =~= before + base64_group(rest));
            assert(base64_text(rest) == base64_group(rest));
            assert(out@ + Seq::<char>::empty() =~= before + base64_text(rest));
            i = bytes.len();
            assert(bytes@.skip(i as int) =~= Seq::<u8>::empty());
            assert(base64_text(Seq::<u8>::empty()) =~= Seq::<char>::empty());
        } else {
            assert(out@ =~= before + base64_group(rest.take(3)));
            assert(rest.skip(3) =~= bytes@.skip(i + 3));
            assert(before + base64_text(rest) =~= out@ + base64_text(bytes@.skip(i + 3)));
            i = i + 3;
        }
    }
    assert(bytes@.skip(i as int) =~= Seq::<u8>::empty());
    assert(out@ =~= out@ + base64_text(Seq::<u8>::empty()));
    out
}

/// A member of an object.
pub open spec fn named_value(key: Seq<char>, value: JsonView) -> MemberView {
    MemberView { key, value }
}

fn named(key: &str, value: Json) -> (r: Member)
    ensures
        r.deep_view() == named_value(key@, value.deep_view()),
{
    Member { key: key.to_owned(), value }
}

/// The string that an action's parameters hold under `key`.
pub open spec fn text_param(action: ActionView, key: Seq<char>) -> Option<Seq<char>> {
    match json::param_value(action.params, key) {
        Some(v) => json::as_text(v),
        None => None,
    }
}

/// The number that an action's parameters hold under `key`.
pub open spec fn number_param(action: ActionView, key: Seq<char>) -> Option<u64> {
    match json::param_value(action.params, key) {
        Some(v) => json::as_unsigned(v),
        None => None,
    }
}

/// How many blocks a rebalance payment is locked for.
pub const REBALANCE_TIME_LOCK: u64 = 144;

/// The one hop of a rebalance: out through the channel and back.
pub open spec fn rebalance_hop(
    chan_point: Seq<char>,
    delta_msat: u64,
    peer: Seq<char>,
) -> Seq<MemberView> {
    let amount = JsonView::Text(text::decimal(delta_msat as nat));
    let hop = seq![
        named_value("amt_to_forward_msat"@, amount),
        named_value("chan_point"@, JsonView::Text(chan_point)),
        named_value("expiry"@, JsonView::Unsigned(REBALANCE_TIME_LOCK)),
    ];
    if peer.len() == 0 {
        hop
    } else {
        hop.push(named_value("pub_key"@, JsonView::Text(peer)))
    }
}

/// The body of a request to send a rebalance payment.
pub open spec fn rebalance_body(
    payment_addr: Seq<u8>,
    chan_point: Seq<char>,
    delta_msat: u64,
    peer: Seq<char>,
) -> Seq<char> {
    let amount = JsonView::Text(text::decimal(delta_msat as nat));
    let hops = seq!['['] + json::object_text(rebalance_hop(chan_point, delta_msat, peer))
        + seq![']'];
    let route = json::object_text(
        seq![
            named_value("hops"@, JsonView::Compound(hops)),
            named_value("total_amt_msat"@, amount),
            named_value("total_time_lock"@, JsonView::Unsigned(REBALANCE_TIME_LOCK)),
        ],
    );
    json::object_text(
        seq![
            named_value("payment_addr"@, JsonView::Text(base64_text(payment_addr))),
            named_value("route"@, JsonView::Compound(route)),
        ],
    )
}

/// The body of the request that rebalances as `action` says, under a payment
/// address of these bytes.
pub fn rebalance_request(action: &Action, payment_addr: &[u8]) -> (r: Result<
    String,
    ExecutionError,
>)
    ensures
        match r {
            Ok(body) => text_param(action.deep_view(), "chan_point"@) is Some && number_param(
                action.deep_view(),
                "delta_msat"@,
            ) is Some && body@ == rebalance_body(
                payment_addr@,
                text_param(action.deep_view(), "chan_point"@)->0,
                number_param(action.deep_view(), "delta_msat"@)->0,
                crate::finding::or_empty(text_param(action.deep_view(), "peer_pubkey"@)),
            ),
            Err(e) => e.deep_view() == ExecutionErrorView::MissingParams(
                if text_param(action.deep_view(), "chan_point"@) is None {
                    "chan_point required"@
                } else {
                    "delta_msat required"@
                },
            ) && (text_param(action.deep_view(), "chan_point"@) is None || number_param(
                action.deep_view(),
                "delta_msat"@,
            ) is None),
        },
{
    let chan_point = match action.params.get_str("chan_point") {
        Some(s) => s,
        None => {
            return Err(ExecutionError::MissingParams("chan_point required".to_owned()));
        },
    };
    let delta_msat: u64 = match action.params.get_u64("delta_msat") {
        Some(n) => n,
        None => {
            return Err(ExecutionError::MissingParams("delta_msat required".to_owned()));
        },
    };
    let peer = match action.params.get_str("peer_pubkey") {
        Some(s) => s.to_owned(),
        None => String::new(),
    };
    let amount = text::u64_text(delta_msat);
    let mut hop: Vec<Member> = Vec::new();
    hop.push(named("amt_to_forward_msat", Json::Text(amount.clone())));
    hop.push(named("chan_point", Json::Text(chan_point.to_owned())));
    hop.push(named("expiry", Json::Unsigned(REBALANCE_TIME_LOCK)));
    if !peer.as_str().is_empty() {
        hop.push(named("pub_key", Json::Text(peer.clone())));
    }
    assert(hop.deep_view() =~= rebalance_hop(chan_point@, delta_msat, peer@));
    let mut hops = String::new();
    hops.push('[');
    hops.append(write_object(&hop).as_str());
    hops.push(']');
    assert(hops@ =~= seq!['['] + json::object_text(rebalance_hop(chan_point@, delta_msat, peer@))
        + seq![']']);
    let mut route: Vec<Member> = Vec::new();
    route.push(named("hops", Json::Compound(hops)));
    route.push(named("total_amt_msat", Json::Text(amount)));
    route.push(named("total_time_lock", Json::Unsigned(REBALANCE_TIME_LOCK)));
    assert(route.deep_view() =~= seq![
        named_value("hops"@, JsonView::Compound(hops@)),
        named_value("total_amt_msat"@, JsonView::Text(text::decimal(delta_msat as nat))),
        named_value("total_time_lock"@, JsonView::Unsigned(REBALANCE_TIME_LOCK)),
    ]);
    let route_text = write_object(&route);
    let mut body: Vec<Member> = Vec::new();
    body.push(named("payment_addr", Json::Text(encode_base64(payment_addr))));
    body.push(named("route", Json::Compound(route_text)));
    assert(body.deep_view() =~= seq![
        named_value("payment_addr"@, JsonView::Text(base64_text(payment_addr@))),
        named_value("route"@, JsonView::Compound(route_text@)),
    ]);
    Ok(write_object(&body))
}

/// A member that is there if a value is.
pub open spec fn optional_member(key: Seq<char>, value: Option<JsonView>) -> Seq<MemberView> {
    match value {
        Some(v) => seq![named_value(key, v)],
        None => seq![],
    }
}

/// The JSON value of an optional number.
pub open spec fn number_value(n: Option<u64>) -> Option<JsonView> {
    match n {
        Some(v) => Some(JsonView::Unsigned(v)),
        None => None,
    }
}

/// The JSON value of an optional text.
pub open spec fn text_value(s: Option<Seq<char>>) -> Option<JsonView> {
    match s {
        Some(v) => Some(JsonView::Text(v)),
        None => None,
    }
}

/// The members of a request to change a fee policy: what the action says of it.
pub open spec fn fee_policy_members(action: ActionView) -> Seq<MemberView> {
    optional_member("chan_point"@, text_value(text_param(action, "chan_point"@)))
        + optional_member("fee_base_msat"@, number_value(number_param(action, "base_fee_msat"@)))
        + optional_member("fee_rate_ppm"@, number_value(number_param(action, "fee_rate_ppm"@)))
        + optional_member("time_lock_delta"@, number_value(number_param(action, "cltv_delta"@)))
}

/// The body of the request that changes the fee policy as `action` says. The
/// policy is global unless the action names a channel point.
pub fn fee_policy_request(action: &Action) -> (r: Result<String, ExecutionError>)
    ensures
        match r {
            Ok(body) => fee_policy_members(action.deep_view()).len() > 0 && body@
                == json::object_text(fee_policy_members(action.deep_view())),
            Err(e) => fee_policy_members(action.deep_view()).len() == 0 && e.deep_view()
                == ExecutionErrorView::MissingParams("no fee params on action"@),
        },
{
    let mut body: Vec<Member> = Vec::new();
    if let Some(point) = action.params.get_str("chan_point") {
        body.push(named("chan_point", Json::Text(point.to_owned())));
    }
    let ghost view = action.deep_view();
    let ghost first = optional_member("chan_point"@, text_value(text_param(view, "chan_point"@)));
    assert(body.deep_view() =~= first);
    if let Some(n) = action.params.get_u64("base_fee_msat") {
        body.push(named("fee_base_msat", Json::Unsigned(n)));
    }
    let ghost second = first + optional_member(
        "fee_base_msat"@,
        number_value(number_param(view, "base_fee_msat"@)),
    );
    assert(body.deep_view() =~= second);
    if let Some(n) = action.params.get_u64("fee_rate_ppm") {
        body.push(named("fee_rate_ppm", Json::Unsigned(n)));
    }
    let ghost third = second + optional_member(
        "fee_rate_ppm"@,
        number_value(number_param(view, "fee_rate_ppm"@)),
    );
    assert(body.deep_view() =~= third);
    if let Some(n) = action.params.get_u64("cltv_delta") {
        body.push(named("time_lock_delta", Json::Unsigned(n)));
    }
    assert(body.deep_view() =~= fee_policy_members(view));
    if body.len() == 0 {
        return Err(ExecutionError::MissingParams("no fee params on action".to_owned()));
    }
    Ok(write_object(&body))
}

/// What a node is to be asked.
#[derive(Debug, PartialEq, Eq)]
pub enum NodeRequest {
    UpdateChannelPolicy(String),
    SendPayment(String),
}

/// The request that carries out `action`, under a payment address of these
/// bytes where it pays.
pub fn plan_execution(action: &Action, payment_addr: &[u8]) -> (r: Result<
    NodeRequest,
    ExecutionError,
>)
    ensures
        action.stage != ActionStage::Approved ==> (r matches Err(e) && e.deep_view()
            == ExecutionErrorView::NotExecutable(action.id@)),
        action.stage == ActionStage::Approved ==> match action.action_type {
            ActionType::UpdateFeePolicy => match r {
                Ok(request) => request matches NodeRequest::UpdateChannelPolicy(body)
                    && fee_policy_members(action.deep_view()).len() > 0 && body@
                    == json::object_text(fee_policy_members(action.deep_view())),
                Err(e) => fee_policy_members(action.deep_view()).len() == 0 && e.deep_view()
                    == ExecutionErrorView::MissingParams("no fee params on action"@),
            },
            ActionType::RebalanceChannel => match r {
                Ok(request) => request matches NodeRequest::SendPayment(body) && text_param(
                    action.deep_view(),
                    "chan_point"@,
                ) is Some && number_param(action.deep_view(), "delta_msat"@) is Some && body@
                    == rebalance_body(
                    payment_addr@,
                    text_param(action.deep_view(), "chan_point"@)->0,
                    number_param(action.deep_view(), "delta_msat"@)->0,
                    crate::finding::or_empty(text_param(action.deep_view(), "peer_pubkey"@)),
                ),
                Err(e) => e.deep_view() == ExecutionErrorView::MissingParams(
                    if text_param(action.deep_view(), "chan_point"@) is None {
                        "chan_point required"@
                    } else {
                        "delta_msat required"@
                    },
                ) && (text_param(action.deep_view(), "chan_point"@) is None || number_param(
                    action.deep_view(),
                    "delta_msat"@,
                ) is None),
            },
            _ => r matches Err(e) && e.deep_view() == ExecutionErrorView::Unsupported(
                action.action_type.name(),
            ),
        },
{
    if !is_executable(action) {
        return Err(ExecutionError::NotExecutable(action.id.clone()));
    }
    match action.action_type {
        ActionType::UpdateFeePolicy => match fee_policy_request(action) {
            Ok(body) => Ok(NodeRequest::UpdateChannelPolicy(body)),
            Err(e) => Err(e),
        },
        ActionType::RebalanceChannel => match rebalance_request(action, payment_addr) {
            Ok(body) => Ok(NodeRequest::SendPayment(body)),
            Err(e) => Err(e),
        },
        _ => Err(ExecutionError::Unsupported(action.action_type.as_str().to_owned())),
    }
}

/// How the report on a payment reads, by the payment hash that the node gave.
pub open spec fn payment_detail(hash: Option<Seq<char>>) -> Seq<char> {
    "rebalance payment sent: payment_hash="@ + (match hash {
        Some(h) => h,
        None => "unknown"@,
    })
}

/// The report on a payment, by the payment hash that the node gave.
pub fn payment_report(hash: Option<String>) -> (r: ExecutionReport)
    ensures
        r.success,
        r.detail@ == payment_detail(hash.deep_view()),
{
    let said = match hash {
        Some(h) => h,
        None => "unknown".to_owned(),
    };
    ExecutionReport::succeeded(
        "rebalance payment sent: payment_hash=".to_owned().concat(said.as_str()).as_str(),
    )
}

/// The report on a request that the node answered with `response`.
pub fn execution_report(request: &NodeRequest, response: &str) -> (r: ExecutionReport)
    ensures
        r.success,
        r.detail@ == match request {
            NodeRequest::UpdateChannelPolicy(_) => "update_channel_policy accepted: "@ + response@,
            NodeRequest::SendPayment(_) => payment_detail(
                json::json_text_field(response@, "payment_hash"@),
            ),
        },
{
    match request {
        NodeRequest::UpdateChannelPolicy(_) => ExecutionReport::succeeded(
            "update_channel_policy accepted: ".to_owned().concat(response).as_str(),
        ),
        NodeRequest::SendPayment(_) => payment_report(json::text_field(response, "payment_hash")),
    }
}

/// A final stage is never left.
pub proof fn lemma_final_stages(from: ActionStage, to: ActionStage)
    requires
        from == ActionStage::Executed || from == ActionStage::Rejected || from
            == ActionStage::Failed,
    ensures
        !legal_step(from, to),
{
}

/// Whether one legal step leads from each stage to the next.
pub open spec fn legal_path(stages: Seq<ActionStage>) -> bool {
    forall|i: int|
        0 <= i < stages.len() - 1 ==> legal_step(#[trigger] stages[i], stages[i + 1])
}

/// No action is executed without having been approved: on every legal path from
/// a recommendation to an execution, the stage just before is approval.
pub proof fn lemma_execution_needs_approval(stages: Seq<ActionStage>)
    requires
        stages.len() >= 1,
        stages[0] == ActionStage::Recommended,
        legal_path(stages),
        stages.last() == ActionStage::Executed,
    ensures
        stages.len() >= 3,
        stages[stages.len() - 2] == ActionStage::Approved,
{
    let n = stages.len() as int;
    if n >= 2 {
        assert(legal_step(stages[n - 2], stages[n - 2 + 1]));
    }
}

/// No stage is ever visited twice: every step leads strictly forward.
pub proof fn lemma_steps_lead_forward(from: ActionStage, to: ActionStage)
    requires
        legal_step(from, to),
    ensures
        stage_rank(from) < stage_rank(to),
{
}

/// How far along a stage is.
pub open spec fn stage_rank(stage: ActionStage) -> int {
    match stage {
        ActionStage::Recommended => 0,
        ActionStage::Simulated => 1,
        ActionStage::Approved => 2,
        ActionStage::Executed => 3,
        ActionStage::Rejected => 3,
        ActionStage::Failed => 3,
    }
}

/// What each stage can be reached from: an action can be approved only before it
/// is, rejected until it is carried out, and carried out, well or ill, only
/// once it is approved. No action is ever recommended anew.
pub proof fn lemma_what_each_stage_follows(from: ActionStage)
    ensures
        !legal_step(from, ActionStage::Recommended),
        legal_step(from, ActionStage::Simulated) <==> from is Recommended,
        legal_step(from, ActionStage::Approved) <==> from is Recommended || from is Simulated,
        legal_step(from, ActionStage::Rejected) <==> legal_step(from, ActionStage::Approved)
            || from is Approved,
        legal_step(from, ActionStage::Executed) <==> from is Approved,
        legal_step(from, ActionStage::Failed) <==> legal_step(from, ActionStage::Executed),
{
}

/// Whoever can approve an action has a name that shows, and is not the system.
pub proof fn lemma_approval_is_human(actor: Seq<char>)
    ensures
        can_approve(actor) <==> actor != "system"@ && exists|i: int|
            0 <= i < actor.len() && !text::white(#[trigger] actor[i]),
{
}

/// The six bits that a character of base64 stands for.
pub open spec fn six_bits(c: char) -> int {
    if 'A' <= c <= 'Z' {
        c as int - 'A' as int
    } else if 'a' <= c <= 'z' {
        c as int - 'a' as int + 26
    } else if '0' <= c <= '9' {
        c as int - '0' as int + 52
    } else if c == '+' {
        62
    } else {
        63
    }
}

proof fn lemma_six_bits(d: nat)
    requires
        d < 64,
    ensures
        six_bits(base64_char(d)) == d,
        base64_char(d) != '=',
{
}

proof fn lemma_base64_group_reads_back(b: Seq<u8>)
    requires
        1 <= b.len() <= 3,
    ensures
        ({
            let t = base64_group(b);
            &&& t.len() == 4
            &&& b[0] == six_bits(t[0]) * 4 + six_bits(t[1]) / 16
            &&& b.len() > 1 ==> b[1] == six_bits(t[1]) % 16 * 16 + six_bits(t[2]) / 4
            &&& b.len() > 2 ==> b[2] == six_bits(t[2]) % 4 * 64 + six_bits(t[3])
            &&& t[2] == '=' <==> b.len() == 1
            &&& t[3] == '=' <==> b.len() < 3
        }),
{
    let x = b[0] as nat;
    let y = if b.len() > 1 {
        b[1] as nat
    } else {
        0
    };
    let z = if b.len() > 2 {
        b[2] as nat
    } else {
        0
    };
    lemma_six_bits(x / 4);
    lemma_six_bits(x % 4 * 16 + y / 16);
    lemma_six_bits(y % 16 * 4 + z / 64);
    lemma_six_bits(z % 64);
}

/// Base64 writes four characters for every three bytes begun, and each byte can
/// be read from the two characters that it was spread over.
pub proof fn lemma_base64_reads_back(bytes: Seq<u8>, i: int)
    requires
        0 <= i < bytes.len(),
    ensures
        ({
            let t = base64_text(bytes);
            let k = i / 3 * 4;
            &&& t.len() == (bytes.len() + 2) / 3 * 4
            &&& i % 3 == 0 ==> bytes[i] == six_bits(t[k]) * 4 + six_bits(t[k + 1]) / 16
            &&& i % 3 == 1 ==> bytes[i] == six_bits(t[k + 1]) % 16 * 16 + six_bits(
                t[k + 2],
            ) / 4
            &&& i % 3 == 2 ==> bytes[i] == six_bits(t[k + 2]) % 4 * 64 + six_bits(
                t[k + 3],
            )
        }),
    decreases bytes.len(),
{
    if bytes.len() <= 3 {
        lemma_base64_group_reads_back(bytes);
    } else {
        let head = bytes.take(3);
        let rest = bytes.skip(3);
        lemma_base64_group_reads_back(head);
        let t = base64_text(bytes);
        assert(t =~= base64_group(head) + base64_text(rest));
        if i < 3 {
            lemma_base64_reads_back(rest, 0);
            assert(bytes[i] == head[i]);
        } else {
            lemma_base64_reads_back(rest, i - 3);
            assert(bytes[i] == rest[i - 3]);
            let k = (i - 3) / 3 * 4;
            assert(i / 3 * 4 == k + 4);
            assert(t[k + 4] == base64_text(rest)[k]);
            assert(t[k + 5] == base64_text(rest)[k + 1]);
            assert(t[k + 6] == base64_text(rest)[k + 2]);
            assert(t[k + 7] == base64_text(rest)[k + 3]);
        }
    }
}

/// The hop of a rebalancing carries the amount as a number in a string, runs over
/// the channel asked for, and names a peer exactly if one is known.
pub proof fn lemma_rebalance_hops_carry_the_amount(
    chan_point: Seq<char>,
    delta_msat: u64,
    peer: Seq<char>,
)
    ensures
        ({
            let hop = rebalance_hop(chan_point, delta_msat, peer);
            let amount = json::member_value(hop, "amt_to_forward_msat"@);
            &&& amount is Some && amount->0 is Text && text::parsed_u64(amount->0->Text_0, 10)
                == Some(delta_msat as nat)
            &&& json::member_value(hop, "chan_point"@) == Some(JsonView::Text(chan_point))
            &&& peer.len() > 0 ==> json::member_value(hop, "pub_key"@) == Some(
                JsonView::Text(peer),
            )
            &&& peer.len() == 0 ==> json::member_value(hop, "pub_key"@) is None
        }),
{
    reveal_strlit("amt_to_forward_msat");
    reveal_strlit("chan_point");
    reveal_strlit("expiry");
    reveal_strlit("pub_key");
    let hop = rebalance_hop(chan_point, delta_msat, peer);
    assert("chan_point"@.len() != "pub_key"@.len());
    assert("expiry"@.len() != "pub_key"@.len());
    text::lemma_decimal_reads_back(delta_msat as nat);
    text::lemma_decimal_has_digits_only(delta_msat as nat);
    assert(text::digit_value(text::decimal(delta_msat as nat)[0], 10) is Some);
    assert(hop[0].key == "amt_to_forward_msat"@);
    assert(hop.skip(1)[0] == hop[1]);
    assert(hop.skip(1).skip(1)[0] == hop[2]);
    assert(json::member_value(hop, "chan_point"@) == json::member_value(
        hop.skip(1),
        "chan_point"@,
    ));
    assert(json::member_value(hop, "pub_key"@) == json::member_value(hop.skip(1), "pub_key"@));
    assert(json::member_value(hop.skip(1), "pub_key"@) == json::member_value(
        hop.skip(1).skip(1),
        "pub_key"@,
    ));
    assert(json::member_value(hop.skip(1).skip(1), "pub_key"@) == json::member_value(
        hop.skip(1).skip(1).skip(1),
        "pub_key"@,
    ));
    let last = hop.skip(1).skip(1).skip(1);
    if peer.len() == 0 {
        assert(last.len() == 0);
    } else {
        assert(last[0] == hop[3]);
        assert(json::member_value(last, "pub_key"@) == Some(JsonView::Text(peer)));
    }
}

proof fn lemma_optional_member(key: Seq<char>, value: Option<JsonView>, m: MemberView)
    ensures
        optional_member(key, value).contains(m) <==> m.key == key && value == Some(m.value),
{
    if value is Some {
        assert(optional_member(key, value)[0] == named_value(key, value->0));
    }
}

/// A request for a fee policy names the channel and, under the names that LND
/// has for them, just those of the base fee, the fee rate and the delta that the
/// action gives as numbers.
pub proof fn lemma_fee_requests_hand_on_the_parameters(action: ActionView, m: MemberView)
    ensures
        fee_policy_members(action).contains(m) <==> {
            ||| m.key == "chan_point"@ && m.value is Text && json::param_value(
                action.params,
                "chan_point"@,
            ) == Some(m.value)
            ||| m.key == "fee_base_msat"@ && m.value is Unsigned && json::param_value(
                action.params,
                "base_fee_msat"@,
            ) == Some(m.value)
            ||| m.key == "fee_rate_ppm"@ && m.value is Unsigned && json::param_value(
                action.params,
                "fee_rate_ppm"@,
            ) == Some(m.value)
            ||| m.key == "time_lock_delta"@ && m.value is Unsigned && json::param_value(
                action.params,
                "cltv_delta"@,
            ) == Some(m.value)
        },
{
    let a = optional_member("chan_point"@, text_value(text_param(action, "chan_point"@)));
    let b = optional_member(
        "fee_base_msat"@,
        number_value(number_param(action, "base_fee_msat"@)),
    );
    let c = optional_member(
        "fee_rate_ppm"@,
        number_value(number_param(action, "fee_rate_ppm"@)),
    );
    let d = optional_member(
        "time_lock_delta"@,
        number_value(number_param(action, "cltv_delta"@)),
    );
    lemma_optional_member("chan_point"@, text_value(text_param(action, "chan_point"@)), m);
    lemma_optional_member(
        "fee_base_msat"@,
        number_value(number_param(action, "base_fee_msat"@)),
        m,
    );
    lemma_optional_member(
        "fee_rate_ppm"@,
        number_value(number_param(action, "fee_rate_ppm"@)),
        m,
    );
    lemma_optional_member(
        "time_lock_delta"@,
        number_value(number_param(action, "cltv_delta"@)),
        m,
    );
    let all = a + b + c + d;
    assert(all == fee_policy_members(action));
    if a.contains(m) {
        let i = choose|i: int| 0 <= i < a.len() && a[i] == m;
        assert(all[i] == m);
    }
    if b.contains(m) {
        let i = choose|i: int| 0 <= i < b.len() && b[i] == m;
        assert(all[a.len() + i] == m);
    }
    if c.contains(m) {
        let i = choose|i: int| 0 <= i < c.len() && c[i] == m;
        assert(all[a.len() + b.len() + i] == m);
    }
    if d.contains(m) {
        let i = choose|i: int| 0 <= i < d.len() && d[i] == m;
        assert(all[a.len() + b.len() + c.len() + i] == m);
    }
    if all.contains(m) {
        let i = choose|i: int| 0 <= i < all.len() && all[i] == m;
        if i < a.len() {
            assert(a[i] == m);
        } else if i < a.len() + b.len() {
            assert(b[i - a.len()] == m);
        } else if i < a.len() + b.len() + c.len() {
            assert(c[i - a.len() - b.len()] == m);
        } else {
            assert(d[i - a.len() - b.len() - c.len()] == m);
        }
    }
}

/// What a rebalancing asks for holds the payment's address in base64, the hop
/// with its channel, and the amount of the hop as the amount of the whole.
pub proof fn lemma_rebalance_requests_hold_the_hop(
    payment_addr: Seq<u8>,
    chan_point: Seq<char>,
    delta_msat: u64,
    peer: Seq<char>,
)
    ensures
        ({
            let body = rebalance_body(payment_addr, chan_point, delta_msat, peer);
            let total = json::quoted("total_amt_msat"@) + seq![':'] + json::quoted(
                text::decimal(delta_msat as nat),
            );
            &&& text::occurs(body, json::quoted(base64_text(payment_addr)))
            &&& text::occurs(
                body,
                json::object_text(rebalance_hop(chan_point, delta_msat, peer)),
            )
            &&& text::occurs(body, total)
        }),
{
    let amount = JsonView::Text(text::decimal(delta_msat as nat));
    let hop = json::object_text(rebalance_hop(chan_point, delta_msat, peer));
    let hops = seq!['['] + hop + seq![']'];
    let inner = seq![
        named_value("hops"@, JsonView::Compound(hops)),
        named_value("total_amt_msat"@, amount),
        named_value("total_time_lock"@, JsonView::Unsigned(REBALANCE_TIME_LOCK)),
    ];
    let route = json::object_text(inner);
    let outer = seq![
        named_value("payment_addr"@, JsonView::Text(base64_text(payment_addr))),
        named_value("route"@, JsonView::Compound(route)),
    ];
    let body = json::object_text(outer);
    assert(body == rebalance_body(payment_addr, chan_point, delta_msat, peer));
    json::lemma_objects_hold_their_members(outer, 0);
    json::lemma_objects_hold_their_members(outer, 1);
    json::lemma_objects_hold_their_members(inner, 0);
    json::lemma_objects_hold_their_members(inner, 1);
    text::lemma_occurs_itself(hop);
    text::lemma_occurs_inside(hop, hop, seq!['['], seq![']']);
    text::lemma_occurs_through(route, hops, hop);
    text::lemma_occurs_through(body, route, hop);
    let total = json::quoted("total_amt_msat"@) + seq![':'] + json::quoted(
        text::decimal(delta_msat as nat),
    );
    assert(json::json_text(inner[1].value) == json::quoted(text::decimal(delta_msat as nat)));
    text::lemma_occurs_through(body, route, total);
}

/// What is left over at the end is filled up: with two signs behind one byte, with
/// one behind two, and with bits that are nought up to there.
pub proof fn lemma_base64_is_filled_up(bytes: Seq<u8>)
    ensures
        base64_text(seq![]).len() == 0,
        bytes.len() > 0 ==> {
            let t = base64_text(bytes);
            let n = t.len() as int;
            &&& n >= 4
            &&& t[n - 1] == '=' <==> bytes.len() % 3 != 0
            &&& t[n - 2] == '=' <==> bytes.len() % 3 == 1
            &&& bytes.len() % 3 == 1 ==> six_bits(t[n - 3]) % 16 == 0
            &&& bytes.len() % 3 == 2 ==> six_bits(t[n - 2]) % 4 == 0
        },
    decreases bytes.len(),
{
    if bytes.len() > 3 {
        let rest = bytes.skip(3);
        lemma_base64_is_filled_up(rest);
        let t = base64_text(bytes);
        let u = base64_text(rest);
        lemma_base64_group_reads_back(bytes.take(3));
        assert(t =~= base64_group(bytes.take(3)) + u);
        assert(t[t.len() - 1] == u[u.len() - 1]);
        assert(t[t.len() - 2] == u[u.len() - 2]);
        assert(t[t.len() - 3] == u[u.len() - 3]);
    } else if bytes.len() > 0 {
        lemma_base64_group_reads_back(bytes);
        let x = bytes[0] as nat;
        if bytes.len() == 1 {
            lemma_six_bits(x % 4 * 16);
            assert(base64_group(bytes)[1] == base64_char(x % 4 * 16));
        } else if bytes.len() == 2 {
            let y = bytes[1] as nat;
            lemma_six_bits(y % 16 * 4);
            assert(base64_group(bytes)[2] == base64_char(y % 16 * 4));
        }
    }
}

} // verus!
