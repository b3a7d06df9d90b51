use rieko::action::ActionType;
use rieko::domain::{BitcoinNetwork, ChannelSnapshot, ChannelStatus};
use rieko::finding::{
    ChannelSnapshotReference, FindingProvenance, ObservationReference, ObservationSource,
};
use rieko::identity::channel_snapshot_state_digest;
use rieko::model::{
    compute_input_hash, FindingDirection, LiquidityRedistributionModel,
    LiquidityRedistributionParameters, ModelError, SimulationInput, SimulationModel,
    SimulationResult, DEFAULT_FRESHNESS,
};
use rieko::ratio::Ratio;
use rieko::time::{Span, Timestamp};

fn ratio(r: f64) -> Ratio {
    Ratio { bits: r.to_bits() }
}

fn later(t: Timestamp, secs: i64) -> Timestamp {
    Timestamp { secs: t.secs + secs, nanos: t.nanos }
}

fn simulate(input: &SimulationInput) -> Result<SimulationResult, ModelError> {
    LiquidityRedistributionModel::new().simulate(input, format!("{input:?}").as_bytes())
}

fn hash(input: &SimulationInput) -> String {
    compute_input_hash(format!("{input:?}").as_bytes())
}

fn snapshot(id: &str, local: u64, remote: u64, ts: Timestamp) -> ChannelSnapshot {
    let mut snapshot = ChannelSnapshot {
        node_id: Some("node-1".into()),
        network: Some(BitcoinNetwork::Regtest),
        state_digest: None,
        channel_id: id.into(),
        local_ratio: ratio(local as f64 / (local + remote) as f64),
        local_balance_msat: local,
        remote_balance_msat: remote,
        capacity_msat: local + remote,
        status: ChannelStatus::Active,
        ts,
        spendable_outbound_msat: local.saturating_sub(10_000),
        spendable_inbound_msat: remote.saturating_sub(10_000),
    };
    snapshot.state_digest = Some(channel_snapshot_state_digest(&snapshot));
    snapshot
}

fn input() -> SimulationInput {
    let ts = Timestamp { secs: 1_700_000_000, nanos: 0 };
    SimulationInput {
        recommendation_id: "rec1".into(),
        recommendation_target: "c1".into(),
        finding_id: "f1".into(),
        finding_channel: "c1".into(),
        finding_direction: Some(FindingDirection::Inbound),
        node_id: "node-1".into(),
        network: Some(BitcoinNetwork::Regtest),
        provenance: FindingProvenance {
            network: Some(BitcoinNetwork::Regtest),
            source: ObservationSource::Fixture {
                redacted_hash: "fixture-hash".into(),
                configured_node: "node-1".into(),
            },
            producers: Vec::new(),
            observation: ObservationReference::ChannelState {
                channel_id: "c1".into(),
                snapshot: ChannelSnapshotReference {
                    network: Some(BitcoinNetwork::Regtest),
                    observed_at: ts,
                    state_digest: channel_snapshot_state_digest(&snapshot(
                        "c1", 950_000, 50_000, ts,
                    )),
                },
            },
        },
        action_type: ActionType::RebalanceChannel,
        model_id: "liquidity-redistribution".into(),
        model_version: "3".into(),
        parameters: LiquidityRedistributionParameters {
            source_channel: "c1".into(),
            destination_channel: "c2".into(),
            amount_msat: 100_000,
        },
        source_snapshot: snapshot("c1", 950_000, 50_000, ts),
        destination_snapshot: snapshot("c2", 200_000, 800_000, ts),
    }
}

fn outbound_input() -> SimulationInput {
    let mut input = input();
    let ts = input.observed_at();
    input.finding_direction = Some(FindingDirection::Outbound);
    input.parameters.source_channel = "c2".into();
    input.parameters.destination_channel = "c1".into();
    input.parameters.amount_msat = 50_000;
    input.source_snapshot = snapshot("c2", 800_000, 200_000, ts);
    input.destination_snapshot = snapshot("c1", 50_000, 950_000, ts);
    if let ObservationReference::ChannelState { snapshot, .. } =
        &mut input.provenance.observation
    {
        snapshot.state_digest = channel_snapshot_state_digest(&input.destination_snapshot);
    }
    input
}

#[test]
fn identical_inputs_produce_identical_complete_outputs() {
    let model = LiquidityRedistributionModel::new();
    let input = input();
    assert_eq!(
        simulate(&input).unwrap(),
        simulate(&input).unwrap()
    );
    assert_eq!(
        hash(&input),
        hash(&input)
    );
}

#[test]
fn model_version_changes_input_identity() {
    let input = input();
    let mut changed = input.clone();
    changed.model_version = "4".into();
    assert_ne!(
        hash(&input),
        hash(&changed)
    );
}

#[test]
fn valid_redistribution_preserves_recorded_balances() {
    let result = simulate(&input())
        .unwrap();
    assert_eq!(result.deltas[0].local_after_msat, 850_000);
    assert_eq!(result.deltas[0].remote_after_msat, 150_000);
    assert_eq!(result.deltas[1].local_after_msat, 300_000);
    assert_eq!(result.deltas[1].remote_after_msat, 700_000);
    assert!(result.deltas[0].clears_finding);
    assert!(!result.deltas[1].clears_finding);
}

#[test]
fn outbound_drained_finding_channel_is_the_destination() {
    let model = LiquidityRedistributionModel::new();
    let input = outbound_input();
    let result = simulate(&input).unwrap();
    assert_eq!(result.baseline.local_balance_msat, 50_000);
    assert_eq!(result.projected.local_balance_msat, 100_000);
    assert!(!result.deltas[0].clears_finding);
    assert!(result.deltas[1].clears_finding);

    let mut reversed = input;
    std::mem::swap(
        &mut reversed.parameters.source_channel,
        &mut reversed.parameters.destination_channel,
    );
    std::mem::swap(
        &mut reversed.source_snapshot,
        &mut reversed.destination_snapshot,
    );
    assert!(model.validate(&reversed).is_err());
}

#[test]
fn network_and_snapshot_digest_must_match_provenance() {
    let model = LiquidityRedistributionModel::new();
    let mut wrong_network = input();
    wrong_network.destination_snapshot.network = Some(BitcoinNetwork::Mainnet);
    wrong_network.destination_snapshot.state_digest = Some(channel_snapshot_state_digest(
        &wrong_network.destination_snapshot,
    ));
    assert!(model.validate(&wrong_network).is_err());

    let mut replaced_state = input();
    replaced_state.source_snapshot.local_balance_msat -= 1;
    replaced_state.source_snapshot.remote_balance_msat += 1;
    replaced_state.source_snapshot.local_ratio =
        ratio(replaced_state.source_snapshot.local_balance_msat as f64
            / replaced_state.source_snapshot.capacity_msat as f64);
    replaced_state.source_snapshot.state_digest = Some(channel_snapshot_state_digest(
        &replaced_state.source_snapshot,
    ));
    assert!(model.validate(&replaced_state).is_err());
}

#[test]
fn unsupported_action_and_mismatched_model_fail_closed() {
    let model = LiquidityRedistributionModel::new();
    let mut unsupported = input();
    unsupported.action_type = ActionType::UpdateFeePolicy;
    assert!(matches!(
        simulate(&unsupported),
        Err(ModelError::Unsupported { .. })
    ));

    let mut mismatched = input();
    mismatched.model_version = "1".into();
    assert!(matches!(
        simulate(&mismatched),
        Err(ModelError::InvalidInput(_))
    ));
}

#[test]
fn mixed_observations_and_incoherent_state_fail() {
    let model = LiquidityRedistributionModel::new();
    let mut mixed = input();
    mixed.destination_snapshot.ts.secs += 1;
    assert!(model.validate(&mixed).is_err());

    let mut incoherent = input();
    incoherent.source_snapshot.remote_balance_msat = 900_000;
    assert!(model.validate(&incoherent).is_err());

    let mut unrelated = input();
    unrelated.recommendation_target = "other-channel".into();
    assert!(model.validate(&unrelated).is_err());
}

#[test]
fn spendable_liquidity_is_enforced() {
    let model = LiquidityRedistributionModel::new();
    let mut request = input();
    request.source_snapshot.spendable_outbound_msat = 49_999;
    assert!(model.validate(&request).is_err());
    request.source_snapshot.spendable_outbound_msat = 190_000;
    request.destination_snapshot.spendable_inbound_msat = 49_999;
    assert!(model.validate(&request).is_err());
}

#[test]
fn staleness_is_derived_without_changing_input() {
    let input = input();
    assert!(!input.is_stale_at(
        later(input.observed_at(), 900),
        Span::seconds(DEFAULT_FRESHNESS)
    ));
    assert!(input.is_stale_at(
        later(input.observed_at(), 901),
        Span::seconds(DEFAULT_FRESHNESS)
    ));
    assert!(input.is_future_at(later(input.observed_at(), -1)));
}

#[test]
fn input_hashes_keep_their_value() {
    assert_eq!(
        compute_input_hash(b"{}"),
        "1b4baeaa7588c706a54c4b5fded193164633686c3f25d1861b516615538bdbd0"
    );
}

#[test]
fn each_objection_is_named() {
    let mut same = input();
    same.parameters.destination_channel = "c1".into();
    assert_eq!(
        simulate(&same).unwrap_err().to_text(),
        "invalid parameters: source and destination must differ"
    );
    let mut nothing = input();
    nothing.parameters.amount_msat = 0;
    assert!(simulate(&nothing).is_err());
    let mut undirected = input();
    undirected.finding_direction = None;
    assert_eq!(
        simulate(&undirected).unwrap_err().to_text(),
        "invalid parameters: finding liquidity direction is required"
    );
    let mut off = input();
    off.source_snapshot.local_ratio = ratio(0.9);
    off.source_snapshot.state_digest =
        Some(channel_snapshot_state_digest(&off.source_snapshot));
    assert!(simulate(&off).is_err());
}

#[test]
fn inputs_that_differ_have_different_hashes() {
    assert_ne!(compute_input_hash(b"{}"), compute_input_hash(b"{} "));
    assert_ne!(compute_input_hash(b""), compute_input_hash(b"\0"));
}
