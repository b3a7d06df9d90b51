use rieko::action::{Action, ActionStage, ActionType};
use rieko::execution::{
    can_transition, encode_base64, execution_report, fee_policy_request, is_executable,
    plan_execution, rebalance_request, transition, ExecutionError, ExecutionReport, Executor,
    NodeRequest, RecordingExecutor, SYSTEM_ACTOR,
};
use rieko::json::{Json, Member, Params};

fn params(members: Vec<(&str, Json)>) -> Params {
    Params::Object(
        members
            .into_iter()
            .map(|(key, value)| Member { key: key.to_string(), value })
            .collect(),
    )
}

fn action(stage: ActionStage) -> Action {
    Action::new(
        ActionType::RebalanceChannel,
        stage,
        Some("c1".into()),
        params(vec![(
            "desired_ratio",
            Json::Real { bits: 0.5f64.to_bits(), text: "0.5".into() },
        )]),
        "rebalance c1",
    )
}

fn fee_action() -> Action {
    Action::new(
        ActionType::UpdateFeePolicy,
        ActionStage::Approved,
        Some("c1".into()),
        params(vec![
            ("fee_rate_ppm", Json::Unsigned(1)),
            ("base_fee_msat", Json::Unsigned(1000)),
        ]),
        "lower fees",
    )
}

fn rebalance_action(members: Vec<(&str, Json)>) -> Action {
    Action::new(
        ActionType::RebalanceChannel,
        ActionStage::Approved,
        Some("c1".into()),
        params(members),
        "rebalance",
    )
}

fn valid_rebalance() -> Action {
    rebalance_action(vec![
        ("chan_point", Json::Text("aaa111bbb222ccc333:0".into())),
        ("delta_msat", Json::Unsigned(40_000)),
    ])
}

const ALL: [ActionStage; 6] = [
    ActionStage::Recommended,
    ActionStage::Simulated,
    ActionStage::Approved,
    ActionStage::Executed,
    ActionStage::Rejected,
    ActionStage::Failed,
];

#[test]
fn recommend_to_simulate_to_approve_is_legal() {
    let rec = action(ActionStage::Recommended);
    assert_eq!(
        transition(&rec, ActionStage::Simulated, SYSTEM_ACTOR).unwrap(),
        ActionStage::Simulated
    );
    let sim = Action { stage: ActionStage::Simulated, ..rec };
    assert_eq!(
        transition(&sim, ActionStage::Approved, "alice").unwrap(),
        ActionStage::Approved
    );
}

#[test]
fn system_cannot_approve_its_own_work() {
    let rec = action(ActionStage::Simulated);
    assert!(matches!(
        transition(&rec, ActionStage::Approved, SYSTEM_ACTOR),
        Err(ExecutionError::NeedsHuman(_))
    ));
}

#[test]
fn empty_actor_cannot_approve() {
    let rec = action(ActionStage::Simulated);
    assert!(matches!(
        transition(&rec, ActionStage::Approved, ""),
        Err(ExecutionError::NeedsHuman(_))
    ));
}

#[test]
fn cannot_skip_steps() {
    let rec = action(ActionStage::Recommended);
    assert!(matches!(
        transition(&rec, ActionStage::Executed, "alice"),
        Err(ExecutionError::IllegalTransition { .. })
    ));
}

#[test]
fn rejection_is_always_legal_from_active_stages() {
    for stage in [ActionStage::Recommended, ActionStage::Simulated, ActionStage::Approved] {
        let a = action(stage);
        assert_eq!(
            transition(&a, ActionStage::Rejected, "alice").unwrap(),
            ActionStage::Rejected
        );
    }
}

#[test]
fn recording_executor_requires_approval() {
    let exec = RecordingExecutor;
    let rec = action(ActionStage::Approved);
    assert!(exec.execute(&rec).is_ok());
    let not_approved = action(ActionStage::Simulated);
    assert!(matches!(
        exec.execute(&not_approved),
        Err(ExecutionError::NotExecutable(_))
    ));
}

#[test]
fn builds_valid_policy_request() {
    let body = fee_policy_request(&fee_action()).unwrap();
    let v: serde_json::Value = serde_json::from_str(&body).unwrap();
    assert_eq!(v["fee_rate_ppm"], 1);
    assert_eq!(v["fee_base_msat"], 1000);
}

#[test]
fn rebalance_missing_params_is_error() {
    assert!(rebalance_request(&rebalance_action(vec![]), &[0u8; 32]).is_err());
}

#[test]
fn rebalance_builds_valid_request() {
    let body = rebalance_request(&valid_rebalance(), &[7u8; 32]).unwrap();
    let v: serde_json::Value = serde_json::from_str(&body).unwrap();
    assert!(!v["payment_addr"].as_str().unwrap().is_empty());
    let hop = &v["route"]["hops"][0];
    assert_eq!(hop["chan_point"], "aaa111bbb222ccc333:0");
    assert_eq!(hop["amt_to_forward_msat"], "40000");
    assert_eq!(hop["expiry"], 144);
    assert!(hop.get("pub_key").is_none());
    assert_eq!(v["route"]["total_time_lock"], 144);
    assert_eq!(v["route"]["total_amt_msat"], "40000");
}

#[test]
fn executor_requires_approval() {
    let mut action = fee_action();
    action.stage = ActionStage::Simulated;
    assert!(matches!(
        plan_execution(&action, &[0u8; 32]),
        Err(ExecutionError::NotExecutable(_))
    ));
}

#[test]
fn rebalance_names_the_peer_when_it_is_known() {
    let action = rebalance_action(vec![
        ("chan_point", Json::Text("p:0".into())),
        ("delta_msat", Json::Unsigned(1)),
        ("peer_pubkey", Json::Text("02ab".into())),
    ]);
    let body = rebalance_request(&action, &[0u8; 32]).unwrap();
    let v: serde_json::Value = serde_json::from_str(&body).unwrap();
    assert_eq!(v["route"]["hops"][0]["pub_key"], "02ab");
}

#[test]
fn rebalance_says_which_parameter_is_missing() {
    let no_point = rebalance_action(vec![("delta_msat", Json::Unsigned(1))]);
    assert_eq!(
        rebalance_request(&no_point, &[0u8; 32]),
        Err(ExecutionError::MissingParams("chan_point required".into()))
    );
    let no_delta = rebalance_action(vec![("chan_point", Json::Text("p:0".into()))]);
    assert_eq!(
        rebalance_request(&no_delta, &[0u8; 32]),
        Err(ExecutionError::MissingParams("delta_msat required".into()))
    );
}

#[test]
fn fee_request_without_parameters_is_refused() {
    let mut action = fee_action();
    action.params = params(vec![]);
    assert_eq!(
        fee_policy_request(&action),
        Err(ExecutionError::MissingParams("no fee params on action".into()))
    );
}

#[test]
fn plans_follow_the_kind_of_action() {
    assert!(matches!(
        plan_execution(&fee_action(), &[0u8; 32]),
        Ok(NodeRequest::UpdateChannelPolicy(_))
    ));
    assert!(matches!(
        plan_execution(&valid_rebalance(), &[0u8; 32]),
        Ok(NodeRequest::SendPayment(_))
    ));
    let mut custom = fee_action();
    custom.action_type = ActionType::Custom;
    assert_eq!(
        plan_execution(&custom, &[0u8; 32]),
        Err(ExecutionError::Unsupported("custom".into()))
    );
}

#[test]
fn payment_reports_name_the_payment() {
    let sent = NodeRequest::SendPayment("{}".into());
    assert_eq!(
        execution_report(&sent, "{\"payment_hash\":\"abcd\"}").detail,
        "rebalance payment sent: payment_hash=abcd"
    );
    assert_eq!(
        execution_report(&sent, "no json").detail,
        "rebalance payment sent: payment_hash=unknown"
    );
    let policy = NodeRequest::UpdateChannelPolicy("{}".into());
    assert_eq!(
        execution_report(&policy, "{}"),
        ExecutionReport { success: true, detail: "update_channel_policy accepted: {}".into() }
    );
}

#[test]
fn base64_follows_the_standard_alphabet() {
    assert_eq!(encode_base64(b""), "");
    assert_eq!(encode_base64(b"f"), "Zg==");
    assert_eq!(encode_base64(b"fo"), "Zm8=");
    assert_eq!(encode_base64(b"foo"), "Zm9v");
    assert_eq!(encode_base64(b"foobar"), "Zm9vYmFy");
    assert_eq!(encode_base64(&[255, 254, 253]), "//79");
    assert_eq!(encode_base64(&[0u8; 32]).len(), 44);
}

#[test]
fn only_approved_actions_are_executed() {
    for stage in ALL {
        assert_eq!(
            can_transition(stage, ActionStage::Executed),
            stage == ActionStage::Approved
        );
        assert_eq!(is_executable(&action(stage)), stage == ActionStage::Approved);
    }
}

#[test]
fn final_stages_are_never_left() {
    for from in [ActionStage::Executed, ActionStage::Rejected, ActionStage::Failed] {
        for to in ALL {
            assert!(!can_transition(from, to));
        }
    }
}

#[test]
fn errors_read_well() {
    assert_eq!(
        ExecutionError::IllegalTransition {
            from: ActionStage::Recommended,
            to: ActionStage::Executed
        }
        .to_text(),
        "illegal transition Recommended -> Executed"
    );
}

#[test]
fn new_actions_have_identities_of_their_own() {
    let a = action(ActionStage::Recommended);
    let b = action(ActionStage::Recommended);
    assert_eq!(a.id.len(), 36);
    assert_ne!(a.id, b.id);
    assert_eq!(a.created_at, a.updated_at);
    assert!(a.created_at.secs > 1_600_000_000);
}

#[test]
fn reports_are_copied_whole() {
    let report = ExecutionReport::succeeded("done");
    assert_eq!(report.clone(), report);
}
