use rieko::action::{Action, ActionStage, ActionType};
use rieko::domain::{
    Channel, ChannelId, ChannelStatus, FeePolicy, LiquidityProfile, NodeId,
};
use rieko::json::{Json, Member, Params};
use rieko::portion::{clamp_bits, portion_of, whole_percent_text};
use rieko::ratio::Ratio;
use rieko::simulator::{SimulationError, SimulationProjection, Simulator};
use rieko::time::Timestamp;

fn channel(id: &str, local: u64, remote: u64) -> Channel {
    let capacity = local + remote;
    Channel {
        id: ChannelId::new(id),
        node: NodeId::new("local-node"),
        peer: NodeId::new(&format!("peer-{id}")),
        capacity_msat: capacity,
        fee_policy: FeePolicy::default(),
        status: ChannelStatus::Active,
        liquidity: LiquidityProfile::compute(capacity, local, remote),
        last_seen: Timestamp { secs: 1_700_000_000, nanos: 0 },
        opening_height: Some(1),
        channel_point: "tx:0".into(),
        local_reserve_msat: None,
        remote_reserve_msat: None,
        is_private: false,
        is_initiator: true,
        total_sent_msat: None,
        total_received_msat: None,
    }
}

fn action(kind: ActionType, target: Option<&str>, members: Vec<(&str, Json)>) -> Action {
    Action::new(
        kind,
        ActionStage::Recommended,
        target.map(|t| t.to_string()),
        Params::Object(
            members
                .into_iter()
                .map(|(key, value)| Member { key: key.to_string(), value })
                .collect(),
        ),
        "action",
    )
}

fn rebalance_action(target: &str, desired: f64) -> Action {
    action(
        ActionType::RebalanceChannel,
        Some(target),
        vec![(
            "desired_ratio",
            Json::Real {
                bits: desired.to_bits(),
                text: serde_json::Value::from(desired).to_string(),
            },
        )],
    )
}

fn value(r: Ratio) -> f64 {
    f64::from_bits(r.bits)
}

fn ratio(r: f64) -> Ratio {
    Ratio { bits: r.to_bits() }
}

fn drift(c: &Channel, decline: f64, cycles: u32) -> Option<SimulationProjection> {
    let now = value(c.liquidity.local_ratio);
    let projected = (now - decline * cycles as f64).max(0.0);
    Simulator::project_drift(
        c,
        ratio(projected),
        cycles,
        &format!("{decline:.4}"),
        &format!("{projected:.4}"),
        ((now - 0.10).max(0.0) / decline) as u32,
    )
}

#[test]
fn rebalance_to_half_clears_drained_channel() {
    let c = channel("c1", 10_000, 90_000);
    let sim = Simulator.project(&c, &rebalance_action("c1", 0.5), "f1").unwrap();
    assert!(sim.projection.clears_finding);
    assert!((value(sim.projection.local_ratio_after) - 0.5).abs() < 1e-9);
    assert_eq!(sim.projection.delta_msat, 40_000);
    assert_eq!(sim.projection.local_balance_msat_after, 50_000);
    assert_eq!(
        sim.projection.summary,
        "Rebalancing c1 to a 50% local ratio moves 40000 msat, leaving the channel balanced."
    );
}

#[test]
fn rebalance_delta_is_absolute_motion() {
    let c = channel("c1", 90_000, 10_000);
    let sim = Simulator.project(&c, &rebalance_action("c1", 0.5), "f1").unwrap();
    assert_eq!(sim.projection.delta_msat, 40_000);
    assert_eq!(sim.projection.local_balance_msat_after, 50_000);
}

#[test]
fn fee_policy_never_clears_liquidity_finding() {
    let c = channel("c1", 10_000, 90_000);
    let action = action(ActionType::UpdateFeePolicy, Some("c1"), vec![]);
    let sim = Simulator.project(&c, &action, "f1").unwrap();
    assert!(!sim.projection.clears_finding);
    assert_eq!(sim.projection.delta_msat, 0);
    assert_eq!(sim.projection.local_ratio_after, c.liquidity.local_ratio);
}

#[test]
fn unsupported_action_type_is_rejected() {
    let c = channel("c1", 50_000, 50_000);
    let action = action(ActionType::RestartService, None, vec![]);
    assert!(matches!(
        Simulator.project(&c, &action, "f1"),
        Err(SimulationError::UnsupportedActionType(_))
    ));
}

#[test]
fn zero_capacity_is_rejected() {
    let mut c = channel("c1", 0, 0);
    c.capacity_msat = 0;
    assert!(matches!(
        Simulator.project(&c, &rebalance_action("c1", 0.5), "f1"),
        Err(SimulationError::ZeroCapacity(_))
    ));
}

#[test]
fn rebalance_review_without_numeric_target_projects_no_movement() {
    let c = channel("c1", 10_000, 90_000);
    let action = action(
        ActionType::RebalanceChannel,
        Some("c1"),
        vec![("reason", Json::Text("outbound liquidity drained".into()))],
    );
    let sim = Simulator.project(&c, &action, "f1").unwrap();
    assert!(!sim.projection.clears_finding);
    assert_eq!(sim.projection.delta_msat, 0);
    assert_eq!(sim.projection.local_ratio_after, c.liquidity.local_ratio);
    assert_eq!(
        sim.projection.local_balance_msat_after,
        c.liquidity.local_balance_msat
    );
}

#[test]
fn single_hop_route_is_equivalent_to_direct_rebalance() {
    let c = channel("c1", 10_000, 90_000);
    let channels = vec![c.clone()];
    let route = vec![ChannelId::new("c1")];
    let sims =
        Simulator.project_rebalance_route(&c, ratio(0.5), &route, &channels, "f1").unwrap();
    assert_eq!(sims.len(), 1);
    assert!(sims[0].projection.clears_finding);
    assert_eq!(sims[0].projection.delta_msat, 40_000);
}

#[test]
fn multi_hop_projects_effect_on_each_hop() {
    let c1 = channel("c1", 10_000, 90_000);
    let c2 = channel("c2", 500_000, 500_000);
    let channels = vec![c1.clone(), c2.clone()];
    let route = vec![ChannelId::new("c1"), ChannelId::new("c2")];
    let sims =
        Simulator.project_rebalance_route(&c1, ratio(0.5), &route, &channels, "f1").unwrap();
    assert_eq!(sims.len(), 2);
    assert!(sims[0].projection.clears_finding);
    assert_eq!(sims[1].projection.delta_msat, 40_000);
    assert_eq!(sims[1].projection.local_balance_msat_after, 540_000);
    assert_eq!(sims[1].action_id, "route-f1");
    assert_ne!(sims[0].id, sims[1].id);
}

#[test]
fn empty_route_is_error() {
    let c = channel("c1", 50_000, 50_000);
    assert!(Simulator
        .project_rebalance_route(&c, ratio(0.5), &vec![], &vec![], "f1")
        .is_err());
}

#[test]
fn routes_over_unknown_channels_are_refused() {
    let c = channel("c1", 50_000, 50_000);
    let route = vec![ChannelId::new("elsewhere")];
    assert_eq!(
        Simulator.project_rebalance_route(&c, ratio(0.5), &route, &vec![], "f1"),
        Err(SimulationError::ChannelNotFound(ChannelId::new("elsewhere")))
    );
}

#[test]
fn drift_projection_shows_decline_after_cycles() {
    let c = channel("c1", 400_000, 600_000);
    let proj = drift(&c, 0.05, 4).unwrap();
    assert!((value(proj.local_ratio_after) - 0.2).abs() < 1e-9);
    assert_eq!(proj.delta_msat, 200_000);
}

#[test]
fn drift_projection_floors_at_zero() {
    let c = channel("c1", 100_000, 900_000);
    let proj = drift(&c, 0.05, 5).unwrap();
    assert_eq!(value(proj.local_ratio_after), 0.0);
}

#[test]
fn drift_projection_none_for_zero_capacity() {
    let mut c = channel("c1", 0, 0);
    c.capacity_msat = 0;
    assert!(drift(&c, 0.05, 3).is_none());
}

#[test]
fn drift_is_told_in_words() {
    let c = channel("c1", 400_000, 600_000);
    assert_eq!(
        drift(&c, 0.05, 4).unwrap().summary,
        "After 4 cycles at -0.0500 per cycle, channel c1 would reach local_ratio=0.2000 (Stable) — the current severity threshold is crossed in 6 cycle(s)."
    );
}

#[test]
fn portions_agree_with_double_arithmetic() {
    let ratios = [
        0.0,
        -0.0,
        0.5,
        1.0,
        0.1,
        0.05,
        0.2,
        0.95,
        1.0 / 3.0,
        2.0 / 3.0,
        0.999_999_999_999_999_9,
        1e-300,
        5e-324,
        0.123_456_789,
        0.15,
    ];
    let amounts = [
        0u64,
        1,
        2,
        3,
        10,
        999,
        100_000,
        1_000_000,
        16_777_215_000,
        (1 << 53) - 1,
        1 << 53,
        (1 << 53) + 1,
        u64::MAX / 3,
        u64::MAX - 1,
        u64::MAX,
    ];
    for r in ratios {
        for amount in amounts {
            let expected = (r * amount as f64).round() as u64;
            assert_eq!(portion_of(r.to_bits(), amount), expected, "{r} of {amount}");
        }
    }
}

#[test]
fn many_portions_agree_with_double_arithmetic() {
    let mut seed: u64 = 0x9E37_79B9_7F4A_7C15;
    for _ in 0..20_000 {
        seed = seed.wrapping_mul(6_364_136_223_846_793_005).wrapping_add(1_442_695_040_888_963_407);
        let r = (seed >> 11) as f64 / (1u64 << 53) as f64;
        let amount = seed.rotate_left(17) >> (seed % 64);
        let expected = (r * amount as f64).round() as u64;
        assert_eq!(portion_of(r.to_bits(), amount), expected, "{r} of {amount}");
    }
}

#[test]
fn clamping_agrees_with_double_arithmetic() {
    for r in [-1.0, -0.0, 0.0, 0.25, 1.0, 1.5, f64::INFINITY, f64::NEG_INFINITY] {
        assert_eq!(
            f64::from_bits(clamp_bits(r.to_bits())),
            r.clamp(0.0, 1.0),
            "{r}"
        );
    }
    assert!(f64::from_bits(clamp_bits(f64::NAN.to_bits())).is_nan());
}

#[test]
fn percentages_agree_with_formatting() {
    for r in [0.0, 0.004, 0.005, 0.015, 0.025, 0.1, 0.155, 0.5, 0.995, 0.999, 1.0] {
        let r: f64 = r;
        assert_eq!(whole_percent_text(r.to_bits()), format!("{:.0}", r * 100.0), "{r}");
    }
}

fn is_random_id(s: &str) -> bool {
    s.len() == 36
        && s.char_indices().all(|(i, c)| match i {
            8 | 13 | 18 | 23 => c == '-',
            14 => c == '4',
            19 => "89ab".contains(c),
            _ => c.is_ascii_digit() || ('a'..='f').contains(&c),
        })
}

#[test]
fn projections_are_recorded_under_random_identifiers() {
    let c = channel("c1", 10_000, 90_000);
    let first = Simulator.project(&c, &rebalance_action("c1", 0.5), "f1").unwrap();
    let second = Simulator.project(&c, &rebalance_action("c1", 0.5), "f1").unwrap();
    assert!(is_random_id(&first.id) && is_random_id(&second.id));
    assert_ne!(first.id, second.id);
    let route = vec![c.id.clone()];
    let hops = Simulator
        .project_rebalance_route(&c, ratio(0.5), &route, &vec![c.clone()], "f1")
        .unwrap();
    assert!(hops.iter().all(|hop| is_random_id(&hop.id)));
}
