use rieko::codec::TimeReading;
use rieko::action::{Action, ActionStage, ActionType, Rationale, Recommendation};
use rieko::domain::{BitcoinNetwork, ChannelSnapshot, ChannelStatus};
use rieko::finding::{
    ChannelSnapshotReference, Evidence, Finding, FindingLifecycle, FindingProvenance,
    ObservationReference, ObservationSource, Severity, FINDING_SCHEMA_VERSION,
};
use rieko::identity::channel_snapshot_state_digest;
use rieko::json::{Json, Params};
use rieko::memory_storage::MemoryStorage;
use rieko::model::{compute_input_hash, SimulationInput, SimulationResult, SimulationStatus};
use rieko::ratio::Ratio;
use rieko::simulation_app::{
    answer_existing, begin_simulation, compare_simulations, conclude_simulation, evaluate,
    is_kept, list_simulations, prepare_from, settle_shown, show_at, simulation_record, simulation_view, store_simulation, validate_command,
    CompareSimulationsCommand, CreateSimulationCommand, CreateSimulationOutcome,
    DecodedSimulation, EncodedSimulation, PreparedSimulation, SimulationAppError,
    Settlement, SimulationAppErrorKind, SimulationView, ViewTimes, MODEL_ID,
};
use rieko::time::Timestamp;

const OBSERVED: Timestamp = Timestamp { secs: 1_700_000_000, nanos: 0 };

fn at(secs: i64) -> Timestamp {
    Timestamp { secs: OBSERVED.secs + secs, nanos: 0 }
}

fn snapshot(id: &str, local: u64, remote: u64) -> ChannelSnapshot {
    let mut s = ChannelSnapshot {
        node_id: Some("node-1".into()),
        network: Some(BitcoinNetwork::Regtest),
        state_digest: None,
        channel_id: id.into(),
        local_ratio: Ratio::of(local, local + remote),
        local_balance_msat: local,
        remote_balance_msat: remote,
        capacity_msat: local + remote,
        status: ChannelStatus::Active,
        ts: OBSERVED,
        spendable_outbound_msat: local - 10_000,
        spendable_inbound_msat: remote - 10_000,
    };
    s.state_digest = Some(channel_snapshot_state_digest(&s));
    s
}

fn finding() -> Finding {
    Finding {
        id: "f1".into(),
        detector: "channel_liquidity".into(),
        detector_version: "2".into(),
        schema_version: FINDING_SCHEMA_VERSION,
        severity: Severity::Warning,
        node: Some("node-1".into()),
        channel: Some("c1".into()),
        evidence: vec![Evidence::text("direction", "inbound")],
        provenance: Some(FindingProvenance {
            network: Some(BitcoinNetwork::Regtest),
            source: ObservationSource::Fixture {
                redacted_hash: "hash".into(),
                configured_node: "node-1".into(),
            },
            producers: vec![],
            observation: ObservationReference::ChannelState {
                channel_id: "c1".into(),
                snapshot: ChannelSnapshotReference {
                    network: Some(BitcoinNetwork::Regtest),
                    observed_at: OBSERVED,
                    state_digest: snapshot("c1", 950_000, 50_000).state_digest.unwrap(),
                },
            },
        }),
        explanation: None,
        timestamp: OBSERVED,
        first_seen_at: OBSERVED,
        last_seen_at: OBSERVED,
        lifecycle: FindingLifecycle::Active,
    }
}

fn recommendation(kind: ActionType) -> Recommendation {
    Recommendation {
        finding_id: "f1".into(),
        action: Action::made_at(
            "rec1".into(),
            kind,
            ActionStage::Recommended,
            Some("c1".into()),
            Params::Object(vec![]),
            "review",
            OBSERVED,
        ),
        rationale: Rationale::default(),
    }
}

fn storage() -> MemoryStorage {
    let mut s = MemoryStorage::new();
    s.save_recommendation(&recommendation(ActionType::RebalanceChannel)).unwrap();
    s.save_finding(&finding()).unwrap();
    s.save_channel_snapshot(&snapshot("c1", 950_000, 50_000)).unwrap();
    s.save_channel_snapshot(&snapshot("c2", 200_000, 800_000)).unwrap();
    s
}

fn command() -> CreateSimulationCommand {
    CreateSimulationCommand {
        recommendation_id: "rec1".into(),
        model_id: MODEL_ID.into(),
        source_channel: "c1".into(),
        destination_channel: "c2".into(),
        amount_sats: 100,
        allow_stale: false,
    }
}

fn canonical(input: &SimulationInput) -> Vec<u8> {
    format!("{input:?}").into_bytes()
}

fn encoded(input: &SimulationInput) -> EncodedSimulation {
    EncodedSimulation {
        canonical_input: Json::Compound(format!("{input:?}")),
        assumptions: Json::Compound("[1]".into()),
        warnings: Json::Compound("[2]".into()),
        projection: Json::Compound("{3}".into()),
    }
}

fn kind(e: &SimulationAppError) -> SimulationAppErrorKind {
    e.kind
}

fn run(
    s: &mut MemoryStorage,
    command: &CreateSimulationCommand,
    now: Timestamp,
) -> Result<CreateSimulationOutcome, SimulationAppError> {
    let prepared = begin_simulation(s, command)?;
    let bytes = canonical(&prepared.input);
    let hash = compute_input_hash(&bytes);
    if let Some(record) = s.simulation_v2_by_input_hash(&hash).unwrap() {
        let result = result_of(&prepared, now);
        let existing =
            DecodedSimulation { record, input: Ok(prepared.input.clone()), result };
        if let Some(answer) = answer_existing(s, &existing, prepared.allow_stale, now) {
            return answer;
        }
    }
    let evaluation = evaluate(&prepared, &bytes, now);
    let id = format!("sim-{}", s.recent_simulations_v2(100).unwrap().len());
    let record = simulation_record(
        &id,
        &prepared,
        &hash,
        &evaluation,
        &encoded(&prepared.input),
        now,
        now,
    );
    conclude_simulation(
        s,
        &record,
        &prepared.input,
        &evaluation,
        now,
        &format!("{id}-requested"),
        &format!("{id}-ended"),
    )
}

fn result_of(prepared: &PreparedSimulation, now: Timestamp) -> Result<SimulationResult, String> {
    let mut allowed = prepared.clone();
    allowed.allow_stale = true;
    evaluate(&allowed, &canonical(&prepared.input), now).result.ok_or("none".to_string())
}

#[test]
fn a_simulation_is_stored_with_the_steps_of_its_life() {
    let mut s = storage();
    let outcome = run(&mut s, &command(), at(60)).unwrap();
    assert!(!outcome.reused);
    let view = &outcome.simulation;
    assert_eq!(view.status, SimulationStatus::Completed);
    assert!(view.no_action_executed);
    assert_eq!(view.parameters.amount_msat, 100_000);
    assert_eq!(view.result.as_ref().unwrap().projected.local_balance_msat, 850_000);
    assert_eq!(view.requested_at, at(60));
    assert_eq!(view.source_observed_at, OBSERVED);

    let record = s.simulation_v2_by_id(&view.id).unwrap().unwrap();
    assert_eq!(record.status, "completed");
    assert_eq!(record.confidence, "medium");
    assert_eq!(record.action_type, "rebalance_channel");
    assert_eq!(record.requested_at, "2023-11-14T22:14:20+00:00");
    let events = s.simulation_events(&view.id).unwrap();
    assert_eq!(events.len(), 2);
    assert_eq!(events[0].status, "requested");
    assert_eq!(events[1].status, "completed");
    assert_ne!(events[0].id, events[1].id);
    assert!(s.begin_transaction().is_ok(), "the request has ended");
}

#[test]
fn stored_simulations_get_identities_of_their_own() {
    let mut s = storage();
    let mut allowing = command();
    allowing.allow_stale = true;
    let prepared = begin_simulation(&mut s, &allowing).unwrap();
    let bytes = canonical(&prepared.input);
    let evaluation = evaluate(&prepared, &bytes, at(60));
    let outcome =
        store_simulation(&mut s, &prepared, &bytes, &evaluation, &encoded(&prepared.input), at(60))
            .unwrap();
    let view = outcome.simulation;
    assert_eq!(view.id.len(), 36);
    assert_eq!(view.input_hash, compute_input_hash(&bytes));
    assert!(view.stale, "it was completed long after its input was observed");
    assert!(view.completed_at.unwrap().secs > view.requested_at.secs);
    let events = s.simulation_events(&view.id).unwrap();
    assert_eq!(events.len(), 2);
    assert_ne!(events[0].id, events[1].id);
    assert_eq!(s.simulation_v2_by_id(&view.id).unwrap().unwrap().status, "completed");
}

#[test]
fn an_identical_request_is_answered_from_storage() {
    let mut s = storage();
    let first = run(&mut s, &command(), at(60)).unwrap();
    let second = run(&mut s, &command(), at(120)).unwrap();
    assert!(second.reused);
    assert_eq!(second.simulation.id, first.simulation.id);
    assert_eq!(s.recent_simulations_v2(10).unwrap().len(), 1);
}

#[test]
fn a_stale_result_is_reused_only_where_that_is_allowed() {
    let mut s = storage();
    run(&mut s, &command(), at(60)).unwrap();
    let refused = run(&mut s, &command(), at(2000)).unwrap_err();
    assert_eq!(kind(&refused), SimulationAppErrorKind::StaleInput);
    assert_eq!(
        refused.message,
        "identical simulation result is stale; inspect it before allowing stale input"
    );
    assert_eq!(refused.simulation.unwrap().status, SimulationStatus::Stale);
    let mut allowing = command();
    allowing.allow_stale = true;
    assert!(run(&mut s, &allowing, at(2000)).unwrap().reused);
}

#[test]
fn stale_input_is_refused_and_recorded_until_it_is_allowed() {
    let mut s = storage();
    let refused = run(&mut s, &command(), at(2000)).unwrap_err();
    assert_eq!(kind(&refused), SimulationAppErrorKind::StaleInput);
    assert_eq!(
        refused.message,
        "source snapshots are stale; inspect them before allowing stale input"
    );
    let shown = refused.simulation.unwrap();
    assert_eq!(shown.error_code.as_deref(), Some("stale_input"));
    assert_eq!(s.simulation_events(&shown.id).unwrap().len(), 2);

    let again = run(&mut s, &command(), at(2000)).unwrap_err();
    assert!(again.message.ends_with("already ended with status stale"));
    assert_eq!(s.recent_simulations_v2(10).unwrap().len(), 1);

    let mut allowing = command();
    allowing.allow_stale = true;
    let outcome = run(&mut s, &allowing, at(2000)).unwrap();
    assert!(!outcome.reused);
    assert_eq!(outcome.simulation.status, SimulationStatus::Stale);
    assert_eq!(s.recent_simulations_v2(10).unwrap().len(), 2);
}

#[test]
fn input_from_the_future_is_refused() {
    let mut s = storage();
    let refused = run(&mut s, &command(), at(-1)).unwrap_err();
    assert_eq!(kind(&refused), SimulationAppErrorKind::FutureDatedInput);
    assert_eq!(refused.simulation.unwrap().status, SimulationStatus::InvalidInput);
}

#[test]
fn unsupported_recommendations_are_refused() {
    let mut s = MemoryStorage::new();
    s.save_recommendation(&recommendation(ActionType::UpdateFeePolicy)).unwrap();
    let refused = run(&mut s, &command(), at(60)).unwrap_err();
    assert_eq!(kind(&refused), SimulationAppErrorKind::UnsupportedRecommendation);
    assert!(refused.simulation.is_none());

    s.save_finding(&finding()).unwrap();
    s.save_channel_snapshot(&snapshot("c1", 950_000, 50_000)).unwrap();
    s.save_channel_snapshot(&snapshot("c2", 200_000, 800_000)).unwrap();
    let refused = run(&mut s, &command(), at(60)).unwrap_err();
    assert_eq!(kind(&refused), SimulationAppErrorKind::UnsupportedRecommendation);
    assert_eq!(refused.simulation.unwrap().status, SimulationStatus::Unsupported);
}

#[test]
fn impossible_amounts_are_refused() {
    let mut s = storage();
    let mut large = command();
    large.amount_sats = 10_000;
    let refused = run(&mut s, &large, at(60)).unwrap_err();
    assert_eq!(kind(&refused), SimulationAppErrorKind::InvalidInput);
    assert_eq!(refused.simulation.unwrap().error_code.as_deref(), Some("invalid_input"));
}

#[test]
fn commands_must_say_everything() {
    for (field, change) in [
        ("recommendation_id", 0),
        ("model_id", 1),
        ("source_channel", 2),
        ("destination_channel", 3),
    ] {
        let mut c = command();
        match change {
            0 => c.recommendation_id = " ".into(),
            1 => c.model_id = "".into(),
            2 => c.source_channel = "\t".into(),
            _ => c.destination_channel = "\u{2003}".into(),
        }
        let e = validate_command(&c).unwrap_err();
        assert_eq!(kind(&e), SimulationAppErrorKind::InvalidRequest);
        assert_eq!(e.message, format!("{field} cannot be empty"));
    }
    let mut c = command();
    c.amount_sats = 0;
    assert_eq!(
        validate_command(&c).unwrap_err().message,
        "amount_sats must be greater than zero"
    );
}

#[test]
fn requests_that_begin_badly_leave_no_trace() {
    let mut s = storage();
    let mut c = command();
    c.model_id = "oracle".into();
    let e = run(&mut s, &c, at(60)).unwrap_err();
    assert_eq!(kind(&e), SimulationAppErrorKind::UnknownModel);
    assert_eq!(e.message, "unknown simulation model: oracle");

    let mut c = command();
    c.amount_sats = u64::MAX;
    assert_eq!(run(&mut s, &c, at(60)).unwrap_err().message, "amount_sats is too large");

    let mut c = command();
    c.recommendation_id = "none".into();
    let e = run(&mut s, &c, at(60)).unwrap_err();
    assert_eq!(kind(&e), SimulationAppErrorKind::RecommendationNotFound);
    assert_eq!(e.message, "no recommendation with id none");

    let mut c = command();
    c.destination_channel = "c3".into();
    let e = run(&mut s, &c, at(60)).unwrap_err();
    assert_eq!(kind(&e), SimulationAppErrorKind::SnapshotNotFound);
    assert_eq!(e.message, "no snapshot for destination channel c3");

    assert!(s.recent_simulations_v2(10).unwrap().is_empty());
    s.begin_transaction().unwrap();
    let e = run(&mut s, &command(), at(60)).unwrap_err();
    assert_eq!(kind(&e), SimulationAppErrorKind::Storage);
    assert_eq!(e.message, "storage backend failure: nested transaction attempted");
}

#[test]
fn findings_must_be_active_and_complete() {
    let with = |change: fn(&mut Finding)| {
        let mut s = MemoryStorage::new();
        s.save_recommendation(&recommendation(ActionType::RebalanceChannel)).unwrap();
        let mut f = finding();
        change(&mut f);
        s.save_finding(&f).unwrap();
        s.save_channel_snapshot(&snapshot("c1", 950_000, 50_000)).unwrap();
        s.save_channel_snapshot(&snapshot("c2", 200_000, 800_000)).unwrap();
        run(&mut s, &command(), at(60)).unwrap_err()
    };
    let e = with(|f| f.id = "other".into());
    assert_eq!(kind(&e), SimulationAppErrorKind::FindingNotFound);
    let e = with(|f| f.node = None);
    assert_eq!(e.message, "finding has no node identity");
    let e = with(|f| f.provenance = None);
    assert_eq!(e.message, "finding has no observation provenance");
    let e = with(|f| f.channel = Some(" ".into()));
    assert_eq!(e.message, "finding has no channel identity");

    let mut s = storage();
    s.resolve_findings_for_scope(&rieko::finding::FindingCycleScope {
        detector: "channel_liquidity".into(),
        network: Some(BitcoinNetwork::Regtest),
        node: Some("node-1".into()),
        complete: true,
    })
    .unwrap();
    let e = run(&mut s, &command(), at(60)).unwrap_err();
    assert_eq!(kind(&e), SimulationAppErrorKind::FindingInactive);
    assert_eq!(e.message, "finding f1 is not active");
}

#[test]
fn what_cannot_be_stored_is_rolled_back() {
    let mut s = storage();
    let prepared = begin_simulation(&mut s, &command()).unwrap();
    let bytes = canonical(&prepared.input);
    let evaluation = evaluate(&prepared, &bytes, at(60));
    let record = simulation_record(
        "sim",
        &prepared,
        &compute_input_hash(&bytes),
        &evaluation,
        &encoded(&prepared.input),
        at(60),
        at(61),
    );
    let e = conclude_simulation(
        &mut s,
        &record,
        &prepared.input,
        &evaluation,
        at(61),
        "event",
        "event",
    )
    .unwrap_err();
    assert_eq!(kind(&e), SimulationAppErrorKind::Storage);
    assert!(s.simulation_v2_by_id("sim").unwrap().is_none());
    assert!(s.simulation_events("sim").unwrap().is_empty());
}

fn shown(s: &mut MemoryStorage, sats: u64) -> SimulationView {
    let mut c = command();
    c.amount_sats = sats;
    run(s, &c, at(60)).unwrap().simulation
}

#[test]
fn simulations_of_one_recommendation_are_compared() {
    let mut s = storage();
    let left = shown(&mut s, 100);
    let right = shown(&mut s, 150);
    let c = CompareSimulationsCommand {
        left_simulation_id: left.id.clone(),
        right_simulation_id: right.id.clone(),
    };
    let comparison =
        compare_simulations(&c, Ok(Some(left.clone())), Ok(Some(right.clone()))).unwrap();
    assert_eq!(comparison.projected_local_balance_delta_msat, -50_000);
    assert!(comparison.no_action_executed);
    assert_eq!(comparison.recommendation_id, "rec1");

    let e = compare_simulations(&c, Ok(None), Ok(Some(right.clone()))).unwrap_err();
    assert_eq!(kind(&e), SimulationAppErrorKind::SimulationNotFound);

    let mut other = right.clone();
    other.model_version = "2".into();
    let e = compare_simulations(&c, Ok(Some(left.clone())), Ok(Some(other))).unwrap_err();
    assert_eq!(kind(&e), SimulationAppErrorKind::IncompatibleSimulations);

    let blank = CompareSimulationsCommand {
        left_simulation_id: " ".into(),
        right_simulation_id: "x".into(),
    };
    let e = compare_simulations(&blank, Ok(None), Ok(None)).unwrap_err();
    assert_eq!(kind(&e), SimulationAppErrorKind::InvalidRequest);
}

#[test]
fn unreadable_simulations_are_reported() {
    let mut s = storage();
    let view = shown(&mut s, 100);
    let record = s.simulation_v2_by_id(&view.id).unwrap().unwrap();
    let good = DecodedSimulation {
        record: record.clone(),
        input: Ok(begin_simulation(&mut s, &command()).unwrap().input),
        result: Ok(view.result.clone().unwrap()),
    };
    assert_eq!(simulation_view(&good, at(60)).unwrap(), view);
    let stale = simulation_view(&good, at(2000)).unwrap();
    assert!(stale.stale);
    assert_eq!(stale.status, SimulationStatus::Stale);

    let bad = DecodedSimulation {
        record: record.clone(),
        input: Err("eof".into()),
        result: Err("eof".into()),
    };
    let e = simulation_view(&bad, at(60)).unwrap_err();
    assert_eq!(e.message, "invalid canonical simulation input: eof");

    let mut odd = record.clone();
    odd.status = "executed".into();
    let odd = DecodedSimulation {
        record: odd,
        input: good.input.clone(),
        result: good.result.clone(),
    };
    let e = simulation_view(&odd, at(60)).unwrap_err();
    assert_eq!(e.message, "invalid persisted simulation status \"executed\"");

    assert_eq!(list_simulations(&vec![], at(60)).unwrap().len(), 0);
    assert!(list_simulations(&vec![good, odd], at(60)).is_err());
}

#[test]
fn rows_alone_prepare_a_simulation() {
    let mut s = storage();
    let rec = s.recommendation_for_action("rec1").unwrap();
    let found = s.finding_by_id("f1").unwrap();
    let sources = s.recent_channel_snapshots_for_node("node-1", "c1", 1).unwrap();
    let destinations = s.recent_channel_snapshots_for_node("node-1", "c2", 1).unwrap();
    let prepared = prepare_from(
        &command(),
        100_000,
        rec.clone(),
        found.clone(),
        &sources,
        &destinations,
    )
    .unwrap();
    assert_eq!(prepared, begin_simulation(&mut s, &command()).unwrap());

    let none = Vec::new();
    let missing = |rec: Option<Recommendation>, found: Option<Finding>| {
        prepare_from(&command(), 100_000, rec, found, &sources, &none).unwrap_err()
    };
    assert_eq!(missing(None, None).message, "no recommendation with id rec1");
    assert_eq!(missing(rec.clone(), None).message, "no finding with id f1");
    assert_eq!(missing(rec, found).message, "no snapshot for destination channel c2");
}

#[test]
fn only_new_simulations_are_kept() {
    let mut s = storage();
    assert!(is_kept(&run(&mut s, &command(), at(60))));
    assert!(!is_kept(&run(&mut s, &command(), at(120))), "it was there before");
    let mut unknown = command();
    unknown.recommendation_id = "rec2".into();
    assert!(!is_kept(&run(&mut s, &unknown, at(120))));
    let mut excessive = command();
    excessive.amount_sats = 10_000;
    let refused = run(&mut s, &excessive, at(120));
    assert!(refused.is_err() && is_kept(&refused), "a refusal is recorded");
}

#[test]
fn simulations_are_shown_with_the_times_that_were_read() {
    let mut s = storage();
    let id = run(&mut s, &command(), at(60)).unwrap().simulation.id;
    let record = s.simulation_v2_by_id(&id).unwrap().unwrap();
    let prepared = begin_simulation(&mut s, &command()).unwrap();
    let times = |requested: TimeReading, completed: Option<TimeReading>| ViewTimes {
        requested_at: requested,
        completed_at: completed,
    };
    let show = |times: ViewTimes| show_at(&record, &prepared.input, None, times, at(120));
    let view = show(times(TimeReading::At(at(7)), Some(TimeReading::At(at(8))))).unwrap();
    assert_eq!(view.requested_at, at(7));
    assert_eq!(view.completed_at, Some(at(8)));
    assert_eq!(show(times(TimeReading::At(at(7)), None)).unwrap().completed_at, None);
    let bad = TimeReading::Bad("premature end of input".into());
    let error = show(times(bad, None)).unwrap_err();
    assert_eq!(error.kind, SimulationAppErrorKind::Storage);
    assert_eq!(
        error.message,
        "invalid simulation requested_at \"2023-11-14T22:14:20+00:00\": premature end of input"
    );

    let mut refused = record.clone();
    refused.projection = Json::Null;
    refused.status = "stale".into();
    assert_eq!(settle_shown(&refused, Ok(view.clone()), true), Settlement::Evaluate);
    assert!(matches!(
        settle_shown(&refused, Ok(view.clone()), false),
        Settlement::Refuse(e) if e.simulation.is_some()
    ));
    assert_eq!(settle_shown(&record, Ok(view.clone()), false), Settlement::Reuse(view));
}
