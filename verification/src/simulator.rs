//! What-if projections of recommended actions. Nothing here touches a node.
use crate::action;
use crate::action::{fresh_id, Action, ActionType, ActionView};
use crate::domain::{Channel, ChannelId, ChannelView, LiquidityImbalance, LiquidityProfile};
use crate::domain;
use crate::json;
use crate::portion;
use crate::portion::{clamp_bits, portion_of, whole_percent_text};
use crate::ratio::{Ratio, NEGATIVE_INFINITY_BITS, NEGATIVE_ZERO_BITS};
use crate::text;
use crate::text::same_text;
use crate::time;
use crate::time::{current_time, Timestamp};
use vstd::prelude::*;

verus! {

/// How a channel would look if an action were applied.
#[derive(Debug, PartialEq, Eq)]
pub struct SimulationProjection {
    pub local_ratio_before: Ratio,
    pub local_ratio_after: Ratio,
    pub local_balance_msat_after: u64,
    pub remote_balance_msat_after: u64,
    /// What must move to get there.
    pub delta_msat: u64,
    /// Whether the channel would be balanced.
    pub clears_finding: bool,
    /// What the projection means, in plain language.
    pub summary: String,
}

/// The mathematical value of a [`SimulationProjection`].
pub struct SimulationProjectionView {
    pub local_ratio_before: Ratio,
    pub local_ratio_after: Ratio,
    pub local_balance_msat_after: u64,
    pub remote_balance_msat_after: u64,
    pub delta_msat: u64,
    pub clears_finding: bool,
    pub summary: Seq<char>,
}

impl DeepView for SimulationProjection {
    type V = SimulationProjectionView;

    open spec fn deep_view(&self) -> SimulationProjectionView {
        SimulationProjectionView {
            local_ratio_before: self.local_ratio_before,
            local_ratio_after: self.local_ratio_after,
            local_balance_msat_after: self.local_balance_msat_after,
            remote_balance_msat_after: self.remote_balance_msat_after,
            delta_msat: self.delta_msat,
            clears_finding: self.clears_finding,
            summary: self.summary.deep_view(),
        }
    }
}

impl Clone for SimulationProjection {
    fn clone(&self) -> (r: Self)
        ensures
            r.deep_view() == self.deep_view(),
    {
        SimulationProjection {
            local_ratio_before: self.local_ratio_before,
            local_ratio_after: self.local_ratio_after,
            local_balance_msat_after: self.local_balance_msat_after,
            remote_balance_msat_after: self.remote_balance_msat_after,
            delta_msat: self.delta_msat,
            clears_finding: self.clears_finding,
            summary: self.summary.clone(),
        }
    }
}

/// One recorded what-if run.
#[derive(Debug, PartialEq, Eq)]
pub struct Simulation {
    pub id: String,
    pub action_id: String,
    pub finding_id: String,
    pub action_type: ActionType,
    pub projection: SimulationProjection,
    pub created_at: Timestamp,
}

/// The mathematical value of a [`Simulation`].
pub struct SimulationView {
    pub id: Seq<char>,
    pub action_id: Seq<char>,
    pub finding_id: Seq<char>,
    pub action_type: ActionType,
    pub projection: SimulationProjectionView,
    pub created_at: Timestamp,
}

impl DeepView for Simulation {
    type V = SimulationView;

    open spec fn deep_view(&self) -> SimulationView {
        SimulationView {
            id: self.id.deep_view(),
            action_id: self.action_id.deep_view(),
            finding_id: self.finding_id.deep_view(),
            action_type: self.action_type,
            projection: self.projection.deep_view(),
            created_at: self.created_at,
        }
    }
}

impl Clone for Simulation {
    fn clone(&self) -> (r: Self)
        ensures
            r.deep_view() == self.deep_view(),
    {
        Simulation {
            id: self.id.clone(),
            action_id: self.action_id.clone(),
            finding_id: self.finding_id.clone(),
            action_type: self.action_type,
            projection: self.projection.clone(),
            created_at: self.created_at,
        }
    }
}

/// Why an action cannot be projected.
#[derive(Debug, PartialEq, Eq)]
pub enum SimulationError {
    ChannelNotFound(ChannelId),
    MissingDesiredRatio(String),
    UnsupportedActionType(String),
    ZeroCapacity(String),
}

/// The mathematical value of a [`SimulationError`].
pub enum SimulationErrorView {
    ChannelNotFound(Seq<char>),
    MissingDesiredRatio(Seq<char>),
    UnsupportedActionType(Seq<char>),
    ZeroCapacity(Seq<char>),
}

impl DeepView for SimulationError {
    type V = SimulationErrorView;

    open spec fn deep_view(&self) -> SimulationErrorView {
        match self {
            SimulationError::ChannelNotFound(id) => SimulationErrorView::ChannelNotFound(
                id.deep_view(),
            ),
            SimulationError::MissingDesiredRatio(s) => SimulationErrorView::MissingDesiredRatio(s@),
            SimulationError::UnsupportedActionType(s) => SimulationErrorView::UnsupportedActionType(
                s@,
            ),
            SimulationError::ZeroCapacity(s) => SimulationErrorView::ZeroCapacity(s@),
        }
    }
}

/// What an error says.
pub open spec fn simulation_error_text(e: SimulationErrorView) -> Seq<char> {
    match e {
        SimulationErrorView::ChannelNotFound(id) => "cannot simulate action for channel "@ + id
            + ": not found in graph"@,
        SimulationErrorView::MissingDesiredRatio(s) => "cannot simulate "@ + s
            + ": no desired ratio in params"@,
        SimulationErrorView::UnsupportedActionType(s) => "cannot simulate action type "@ + s,
        SimulationErrorView::ZeroCapacity(s) => "cannot simulate: channel "@ + s
            + " has zero capacity"@,
    }
}

impl SimulationError {
    /// What the error says.
    pub fn to_text(&self) -> (r: String)
        ensures
            r@ == simulation_error_text(self.deep_view()),
    {
        match self {
            SimulationError::ChannelNotFound(id) => "cannot simulate action for channel ".to_owned().concat(
                id.as_str(),
            ).concat(": not found in graph"),
            SimulationError::MissingDesiredRatio(s) => "cannot simulate ".to_owned().concat(
                s.as_str(),
            ).concat(": no desired ratio in params"),
            SimulationError::UnsupportedActionType(s) => "cannot simulate action type ".to_owned().concat(
                s.as_str(),
            ),
            SimulationError::ZeroCapacity(s) => "cannot simulate: channel ".to_owned().concat(
                s.as_str(),
            ).concat(" has zero capacity"),
        }
    }
}

/// The distance between two amounts.
pub open spec fn distance(a: u64, b: u64) -> u64 {
    if a >= b {
        (a - b) as u64
    } else {
        (b - a) as u64
    }
}

fn distance_of(a: u64, b: u64) -> (r: u64)
    ensures
        r == distance(a, b),
{
    if a >= b {
        a - b
    } else {
        b - a
    }
}

/// What is left of `a` without `b`, or nothing.
pub open spec fn remainder(a: u64, b: u64) -> u64 {
    if a >= b {
        (a - b) as u64
    } else {
        0
    }
}

fn remainder_of(a: u64, b: u64) -> (r: u64)
    ensures
        r == remainder(a, b),
{
    if a >= b {
        a - b
    } else {
        0
    }
}

/// A projection in which nothing moves.
pub open spec fn unmoved(c: ChannelView, summary: Seq<char>) -> SimulationProjectionView {
    SimulationProjectionView {
        local_ratio_before: c.liquidity.local_ratio,
        local_ratio_after: c.liquidity.local_ratio,
        local_balance_msat_after: c.liquidity.local_balance_msat,
        remote_balance_msat_after: c.liquidity.remote_balance_msat,
        delta_msat: 0,
        clears_finding: false,
        summary,
    }
}

fn leave_unmoved(c: &Channel, summary: String) -> (r: SimulationProjection)
    ensures
        r.deep_view() == unmoved(c.deep_view(), summary@),
{
    SimulationProjection {
        local_ratio_before: c.liquidity.local_ratio,
        local_ratio_after: c.liquidity.local_ratio,
        local_balance_msat_after: c.liquidity.local_balance_msat,
        remote_balance_msat_after: c.liquidity.remote_balance_msat,
        delta_msat: 0,
        clears_finding: false,
        summary,
    }
}

/// Whether a channel with this much on the local side is balanced.
pub open spec fn balanced_at(capacity: u64, local: u64) -> bool {
    domain::imbalance_of(capacity, local) == LiquidityImbalance::Balanced
}

/// How a state is called.
pub open spec fn balance_word(balanced: bool) -> Seq<char> {
    if balanced {
        "balanced"@
    } else {
        "still unbalanced"@
    }
}

fn word_for(balanced: bool) -> (r: &'static str)
    ensures
        r@ == balance_word(balanced),
{
    if balanced {
        "balanced"
    } else {
        "still unbalanced"
    }
}

/// A channel rebalanced so that the local side holds the portion `desired`.
pub open spec fn rebalanced(c: ChannelView, desired: u64) -> SimulationProjectionView {
    let local = portion::portion(desired, c.capacity_msat);
    let delta = distance(local, c.liquidity.local_balance_msat);
    let balanced = balanced_at(c.capacity_msat, local);
    SimulationProjectionView {
        local_ratio_before: c.liquidity.local_ratio,
        local_ratio_after: Ratio {
            bits: crate::ratio::ratio_bits(local as nat, c.capacity_msat as nat) as u64,
        },
        local_balance_msat_after: local,
        remote_balance_msat_after: remainder(c.capacity_msat, local),
        delta_msat: delta,
        clears_finding: balanced,
        summary: "Rebalancing "@ + c.id + " to a "@ + portion::whole_percent(desired)
            + "% local ratio moves "@ + text::decimal(delta as nat)
            + " msat, leaving the channel "@ + balance_word(balanced) + "."@,
    }
}

/// The portion that an action wants on the local side, brought into the range
/// from 0 to 1.
pub open spec fn desired_portion(a: ActionView) -> Option<u64> {
    match json::param_value(a.params, "desired_ratio"@) {
        Some(v) => portion::clamped_number(v),
        None => None,
    }
}

/// What an action would do to a channel.
pub open spec fn projection_of(c: ChannelView, a: ActionView) -> Result<
    SimulationProjectionView,
    SimulationErrorView,
> {
    match a.action_type {
        ActionType::RebalanceChannel => if c.capacity_msat == 0 {
            Err(SimulationErrorView::ZeroCapacity(c.id))
        } else {
            match desired_portion(a) {
                Some(desired) => Ok(rebalanced(c, desired)),
                None => Ok(
                    unmoved(
                        c,
                        "Channel "@ + c.id
                            + " rebalance review carries no numeric target; no liquidity movement is projected."@,
                    ),
                ),
            }
        },
        ActionType::UpdateFeePolicy => Ok(
            unmoved(
                c,
                "Fee policy changes do not move existing liquidity; the imbalance remains until flows shift"@,
            ),
        ),
        ActionType::RestartService => Err(
            SimulationErrorView::UnsupportedActionType(a.action_type.name()),
        ),
        ActionType::Custom => Err(SimulationErrorView::UnsupportedActionType(a.action_type.name())),
    }
}

/// The outcome of a projection over mathematical values.
pub open spec fn projection_outcome(r: Result<SimulationProjection, SimulationError>) -> Result<
    SimulationProjectionView,
    SimulationErrorView,
> {
    match r {
        Ok(p) => Ok(p.deep_view()),
        Err(e) => Err(e.deep_view()),
    }
}

/// The run that records a projection.
pub open spec fn simulation_of(
    id: Seq<char>,
    action: ActionView,
    finding_id: Seq<char>,
    projection: SimulationProjectionView,
    now: Timestamp,
) -> SimulationView {
    SimulationView {
        id,
        action_id: action.id,
        finding_id,
        action_type: action.action_type,
        projection,
        created_at: now,
    }
}

/// The hop of a route with this channel identifier.
pub open spec fn find_channel(channels: Seq<ChannelView>, id: Seq<char>) -> Option<ChannelView>
    decreases channels.len(),
{
    if channels.len() == 0 {
        None
    } else if channels[0].id == id {
        Some(channels[0])
    } else {
        find_channel(channels.skip(1), id)
    }
}

fn look_up<'a>(channels: &'a Vec<Channel>, id: &ChannelId) -> (r: Option<&'a Channel>)
    ensures
        r.deep_view() == find_channel(channels.deep_view(), id.deep_view()),
{
    let ghost all = channels.deep_view();
    let mut i: usize = 0;
    assert(all.skip(0) =~= all);
    while i < channels.len()
        invariant
            i <= channels.len(),
            all == channels.deep_view(),
            find_channel(all, id.deep_view()) == find_channel(all.skip(i as int), id.deep_view()),
        decreases channels.len() - i,
    {
        assert(all.skip(i as int)[0] == channels[i as int].deep_view());
        if same_text(channels[i].id.as_str(), id.as_str()) {
            return Some(&channels[i]);
        }
        assert(all.skip(i as int).skip(1) =~= all.skip(i + 1));
        i += 1;
    }
    None
}

/// What the local side of a hop holds once `delta` has moved through the route:
/// the desired portion at the first hop, then more and less by turns.
pub open spec fn hop_local(hop: ChannelView, i: nat, desired: u64, delta: u64) -> u64 {
    if i == 0 {
        portion::portion(desired, hop.capacity_msat)
    } else if i % 2 == 0 && delta > 0 {
        remainder(hop.liquidity.local_balance_msat, delta)
    } else if hop.liquidity.local_balance_msat + delta > u64::MAX {
        u64::MAX
    } else {
        (hop.liquidity.local_balance_msat + delta) as u64
    }
}

/// What a route does to its hop at place `i`.
pub open spec fn hop_projection(
    hop: ChannelView,
    i: nat,
    desired: u64,
    delta: u64,
) -> SimulationProjectionView {
    let local = hop_local(hop, i, desired, delta);
    let balanced = balanced_at(hop.capacity_msat, local);
    SimulationProjectionView {
        local_ratio_before: hop.liquidity.local_ratio,
        local_ratio_after: Ratio {
            bits: crate::ratio::ratio_bits(local as nat, hop.capacity_msat as nat) as u64,
        },
        local_balance_msat_after: local,
        remote_balance_msat_after: remainder(hop.capacity_msat, local),
        delta_msat: delta,
        clears_finding: balanced,
        summary: "Hop "@ + text::decimal(i) + " ("@ + hop.id + "): "@ + text::decimal(delta as nat)
            + " msat routed → local="@ + text::decimal(local as nat) + ", "@ + balance_word(
            balanced,
        ),
    }
}

/// The first identifier of a route that names no channel.
pub open spec fn first_unknown(route: Seq<Seq<char>>, channels: Seq<ChannelView>) -> Option<
    Seq<char>,
>
    decreases route.len(),
{
    if route.len() == 0 {
        None
    } else if find_channel(channels, route[0]) is None {
        Some(route[0])
    } else {
        first_unknown(route.skip(1), channels)
    }
}

/// What a route does to each of its hops.
pub open spec fn route_effects(
    source: ChannelView,
    desired_bits: u64,
    route: Seq<Seq<char>>,
    channels: Seq<ChannelView>,
) -> Result<Seq<SimulationProjectionView>, SimulationErrorView> {
    let desired = portion::clamped_bits(desired_bits);
    let delta = distance(
        portion::portion(desired, source.capacity_msat),
        source.liquidity.local_balance_msat,
    );
    if route.len() == 0 {
        Err(SimulationErrorView::UnsupportedActionType("empty route"@))
    } else if source.capacity_msat == 0 {
        Err(SimulationErrorView::ZeroCapacity(source.id))
    } else if first_unknown(route, channels) is Some {
        Err(SimulationErrorView::ChannelNotFound(first_unknown(route, channels)->0))
    } else {
        Ok(
            Seq::new(
                route.len(),
                |i: int|
                    hop_projection(find_channel(channels, route[i])->0, i as nat, desired, delta),
            ),
        )
    }
}

/// The outcome of projecting a route over mathematical values.
pub open spec fn route_outcome(r: Result<Vec<SimulationProjection>, SimulationError>) -> Result<
    Seq<SimulationProjectionView>,
    SimulationErrorView,
> {
    match r {
        Ok(p) => Ok(p.deep_view()),
        Err(e) => Err(e.deep_view()),
    }
}

fn project_hop(hop: &Channel, i: usize, desired: u64, delta: u64) -> (r: SimulationProjection)
    ensures
        r.deep_view() == hop_projection(hop.deep_view(), i as nat, desired, delta),
{
    let before: u64 = hop.liquidity.local_balance_msat;
    let local: u64 = if i == 0 {
        portion_of(desired, hop.capacity_msat)
    } else if i % 2 == 0 && delta > 0 {
        remainder_of(before, delta)
    } else {
        match before.checked_add(delta) {
            Some(sum) => sum,
            None => u64::MAX,
        }
    };
    let remote: u64 = remainder_of(hop.capacity_msat, local);
    let projected = LiquidityProfile::compute(hop.capacity_msat, local, remote);
    let balanced = projected.imbalance == LiquidityImbalance::Balanced;
    let summary = "Hop ".to_owned().concat(text::u64_text(i as u64).as_str()).concat(" (").concat(
        hop.id.as_str(),
    ).concat("): ").concat(text::u64_text(delta).as_str()).concat(" msat routed → local=").concat(
        text::u64_text(local).as_str(),
    ).concat(", ").concat(word_for(balanced));
    SimulationProjection {
        local_ratio_before: hop.liquidity.local_ratio,
        local_ratio_after: projected.local_ratio,
        local_balance_msat_after: local,
        remote_balance_msat_after: remote,
        delta_msat: delta,
        clears_finding: balanced,
        summary,
    }
}

/// What a route that brings `source` to the portion `desired_ratio` does to
/// each of its hops.
pub fn project_route(
    source: &Channel,
    desired_ratio: Ratio,
    route: &Vec<ChannelId>,
    channels: &Vec<Channel>,
) -> (r: Result<Vec<SimulationProjection>, SimulationError>)
    ensures
        route_outcome(r) == route_effects(
            source.deep_view(),
            desired_ratio.bits,
            route.deep_view(),
            channels.deep_view(),
        ),
{
    if route.len() == 0 {
        return Err(SimulationError::UnsupportedActionType("empty route".to_owned()));
    }
    if source.capacity_msat == 0 {
        return Err(SimulationError::ZeroCapacity(source.id.as_str().to_owned()));
    }
    let desired: u64 = clamp_bits(desired_ratio.bits);
    let delta: u64 = distance_of(
        portion_of(desired, source.capacity_msat),
        source.liquidity.local_balance_msat,
    );
    let ghost all = route.deep_view();
    let ghost known = channels.deep_view();
    let mut out: Vec<SimulationProjection> = Vec::new();
    let mut i: usize = 0;
    assert(all.skip(0) =~= all);
    while i < route.len()
        invariant
            i <= route.len(),
            all == route.deep_view(),
            known == channels.deep_view(),
            source.capacity_msat > 0,
            out.deep_view().len() == i,
            first_unknown(all, known) == first_unknown(all.skip(i as int), known),
            forall|k: int|
                0 <= k < i ==> #[trigger] out.deep_view()[k] == hop_projection(
                    find_channel(known, all[k])->0,
                    k as nat,
                    desired,
                    delta,
                ),
        decreases route.len() - i,
    {
        assert(all[i as int] == route[i as int].deep_view());
        assert(all.skip(i as int)[0] == all[i as int]);
        assert(all.skip(i as int).skip(1) =~= all.skip(i + 1));
        match look_up(channels, &route[i]) {
            Some(hop) => {
                let projection = project_hop(hop, i, desired, delta);
                let ghost before = out.deep_view();
                out.push(projection);
                assert(out.deep_view() =~= before.push(projection.deep_view()));
            },
            None => {
                return Err(SimulationError::ChannelNotFound(route[i].clone()));
            },
        }
        i += 1;
    }
    assert(out.deep_view() =~= route_effects(
        source.deep_view(),
        desired_ratio.bits,
        all,
        known,
    )->Ok_0);
    Ok(out)
}

/// The runs that record what a route does, hop by hop.
pub open spec fn records_route(
    simulations: Seq<SimulationView>,
    effects: Seq<SimulationProjectionView>,
    finding_id: Seq<char>,
) -> bool {
    simulations.len() == effects.len() && forall|i: int|
        0 <= i < simulations.len() ==> action::is_random_id((#[trigger] simulations[i]).id)
            && time::shown_by_clock(simulations[i].created_at) && simulations[i] == (
        SimulationView {
            id: simulations[i].id,
            action_id: "route-"@ + finding_id,
            finding_id,
            action_type: ActionType::RebalanceChannel,
            projection: effects[i],
            created_at: simulations[i].created_at,
        })
}

/// The bits of 0.1.
pub const TENTH_BITS: u64 = 0x3FB9_9999_9999_999A;

/// What a channel comes to once it has drifted to `projected_ratio`. How far it
/// declines by then, and in how many cycles it crosses the threshold, is handed
/// in, as are the texts of the two numbers.
pub open spec fn drifted(
    c: ChannelView,
    projected_ratio: Ratio,
    cycles_ahead: u32,
    decline_text: Seq<char>,
    projected_text: Seq<char>,
    cycles_to_threshold: u32,
) -> Option<SimulationProjectionView> {
    if c.capacity_msat == 0 || c.liquidity.local_ratio.bits == 0 || NEGATIVE_ZERO_BITS
        <= c.liquidity.local_ratio.bits <= NEGATIVE_INFINITY_BITS {
        None
    } else {
        let local = portion::portion(projected_ratio.bits, c.capacity_msat);
        let ratio = crate::ratio::ratio_bits(local as nat, c.capacity_msat as nat) as u64;
        let word = if domain::imbalance_of(c.capacity_msat, local)
            == LiquidityImbalance::SeverelyDrained {
            "Critical"@
        } else if ratio < TENTH_BITS {
            "Drained"@
        } else {
            "Stable"@
        };
        Some(
            SimulationProjectionView {
                local_ratio_before: c.liquidity.local_ratio,
                local_ratio_after: projected_ratio,
                local_balance_msat_after: local,
                remote_balance_msat_after: remainder(c.capacity_msat, local),
                delta_msat: distance(local, c.liquidity.local_balance_msat),
                clears_finding: false,
                summary: "After "@ + text::decimal(cycles_ahead as nat) + " cycles at -"@
                    + decline_text + " per cycle, channel "@ + c.id
                    + " would reach local_ratio="@ + projected_text + " ("@ + word
                    + ") — the current severity threshold is crossed in "@ + text::decimal(
                    cycles_to_threshold as nat,
                ) + " cycle(s)."@,
            },
        )
    }
}

/// Projects recommended actions. The projections depend on the channel and the
/// action alone.
pub struct Simulator;

impl Simulator {
    /// What `action` would do to `channel`, recorded under a fresh identifier.
    pub fn project(&self, channel: &Channel, action: &Action, finding_id: &str) -> (r: Result<
        Simulation,
        SimulationError,
    >)
        ensures
            match r {
                Ok(s) => projection_of(channel.deep_view(), action.deep_view()) == Ok::<
                    SimulationProjectionView,
                    SimulationErrorView,
                >(s.projection.deep_view()) && s.deep_view() == simulation_of(
                    s.id@,
                    action.deep_view(),
                    finding_id@,
                    s.projection.deep_view(),
                    s.created_at,
                ) && action::is_random_id(s.id@) && time::shown_by_clock(s.created_at),
                Err(e) => projection_of(channel.deep_view(), action.deep_view()) == Err::<
                    SimulationProjectionView,
                    SimulationErrorView,
                >(e.deep_view()),
            },
    {
        match self.project_effect(channel, action) {
            Ok(projection) => Ok(
                Simulation {
                    id: fresh_id(),
                    action_id: action.id.clone(),
                    finding_id: finding_id.to_owned(),
                    action_type: action.action_type,
                    projection,
                    created_at: current_time(),
                },
            ),
            Err(e) => Err(e),
        }
    }

    /// What `action` would do to `channel`.
    pub fn project_effect(&self, channel: &Channel, action: &Action) -> (r: Result<
        SimulationProjection,
        SimulationError,
    >)
        ensures
            projection_outcome(r) == projection_of(channel.deep_view(), action.deep_view()),
    {
        match action.action_type {
            ActionType::RebalanceChannel => self.project_rebalance(channel, action),
            ActionType::UpdateFeePolicy => Ok(
                leave_unmoved(
                    channel,
                    "Fee policy changes do not move existing liquidity; the imbalance remains until flows shift".to_owned(),
                ),
            ),
            ActionType::RestartService => Err(
                SimulationError::UnsupportedActionType(action.action_type.as_str().to_owned()),
            ),
            ActionType::Custom => Err(
                SimulationError::UnsupportedActionType(action.action_type.as_str().to_owned()),
            ),
        }
    }

    fn project_rebalance(&self, channel: &Channel, action: &Action) -> (r: Result<
        SimulationProjection,
        SimulationError,
    >)
        requires
            action.action_type == ActionType::RebalanceChannel,
        ensures
            projection_outcome(r) == projection_of(channel.deep_view(), action.deep_view()),
    {
        if channel.capacity_msat == 0 {
            return Err(SimulationError::ZeroCapacity(channel.id.as_str().to_owned()));
        }
        let wanted: Option<u64> = match action.params.get("desired_ratio") {
            Some(v) => v.to_clamped_bits(),
            None => None,
        };
        let desired: u64 = match wanted {
            Some(desired) => desired,
            None => {
                return Ok(
                    leave_unmoved(
                        channel,
                        "Channel ".to_owned().concat(channel.id.as_str()).concat(
                            " rebalance review carries no numeric target; no liquidity movement is projected.",
                        ),
                    ),
                );
            },
        };
        let local: u64 = portion_of(desired, channel.capacity_msat);
        let remote: u64 = remainder_of(channel.capacity_msat, local);
        let projected = LiquidityProfile::compute(channel.capacity_msat, local, remote);
        let balanced = projected.imbalance == LiquidityImbalance::Balanced;
        let delta: u64 = distance_of(local, channel.liquidity.local_balance_msat);
        let summary = "Rebalancing ".to_owned().concat(channel.id.as_str()).concat(" to a ").concat(
            whole_percent_text(desired).as_str(),
        ).concat("% local ratio moves ").concat(text::u64_text(delta).as_str()).concat(
            " msat, leaving the channel ",
        ).concat(word_for(balanced)).concat(".");
        Ok(
            SimulationProjection {
                local_ratio_before: channel.liquidity.local_ratio,
                local_ratio_after: projected.local_ratio,
                local_balance_msat_after: local,
                remote_balance_msat_after: remote,
                delta_msat: delta,
                clears_finding: balanced,
                summary,
            },
        )
    }

    /// What a route that brings `source_channel` to the portion `desired_ratio`
    /// does to each of its hops, each recorded under a fresh identifier.
    pub fn project_rebalance_route(
        &self,
        source_channel: &Channel,
        desired_ratio: Ratio,
        route: &Vec<ChannelId>,
        channels: &Vec<Channel>,
        finding_id: &str,
    ) -> (r: Result<Vec<Simulation>, SimulationError>)
        ensures
            match r {
                Ok(simulations) => (route_effects(
                    source_channel.deep_view(),
                    desired_ratio.bits,
                    route.deep_view(),
                    channels.deep_view(),
                ) matches Ok(effects) && records_route(
                    simulations.deep_view(),
                    effects,
                    finding_id@,
                )),
                Err(e) => route_effects(
                    source_channel.deep_view(),
                    desired_ratio.bits,
                    route.deep_view(),
                    channels.deep_view(),
                ) == Err::<Seq<SimulationProjectionView>, SimulationErrorView>(e.deep_view()),
            },
    {
        match project_route(source_channel, desired_ratio, route, channels) {
            Ok(projections) => {
                let ghost effects = projections.deep_view();
                let mut out: Vec<Simulation> = Vec::new();
                let mut i: usize = 0;
                while i < projections.len()
                    invariant
                        i <= projections.len(),
                        effects == projections.deep_view(),
                        records_route(out.deep_view(), effects.take(i as int), finding_id@),
                    decreases projections.len() - i,
                {
                    assert(effects[i as int] == projections[i as int].deep_view());
                    let simulation = Simulation {
                        id: fresh_id(),
                        action_id: "route-".to_owned().concat(finding_id),
                        finding_id: finding_id.to_owned(),
                        action_type: ActionType::RebalanceChannel,
                        projection: projections[i].clone(),
                        created_at: current_time(),
                    };
                    let ghost before = out.deep_view();
                    out.push(simulation);
                    assert(out.deep_view() =~= before.push(simulation.deep_view()));
                    assert(effects.take(i + 1) =~= effects.take(i as int).push(effects[i as int]));
                    i += 1;
                }
                assert(effects.take(i as int) =~= effects);
                Ok(out)
            },
            Err(e) => Err(e),
        }
    }

    /// What a channel comes to once it has drifted to `projected_ratio`; nothing
    /// where it has no capacity, or nothing left to lose.
    pub fn project_drift(
        channel: &Channel,
        projected_ratio: Ratio,
        cycles_ahead: u32,
        decline_text: &str,
        projected_text: &str,
        cycles_to_threshold: u32,
    ) -> (r: Option<SimulationProjection>)
        ensures
            r.deep_view() == drifted(
                channel.deep_view(),
                projected_ratio,
                cycles_ahead,
                decline_text@,
                projected_text@,
                cycles_to_threshold,
            ),
    {
        let now: u64 = channel.liquidity.local_ratio.bits;
        if channel.capacity_msat == 0 || now == 0 || (NEGATIVE_ZERO_BITS <= now && now
            <= NEGATIVE_INFINITY_BITS) {
            return None;
        }
        let local: u64 = portion_of(projected_ratio.bits, channel.capacity_msat);
        let remote: u64 = remainder_of(channel.capacity_msat, local);
        let projected = LiquidityProfile::compute(channel.capacity_msat, local, remote);
        let word = if projected.imbalance == LiquidityImbalance::SeverelyDrained {
            "Critical"
        } else if projected.local_ratio.bits < TENTH_BITS {
            "Drained"
        } else {
            "Stable"
        };
        let summary = "After ".to_owned().concat(text::u64_text(cycles_ahead as u64).as_str()).concat(
            " cycles at -",
        ).concat(decline_text).concat(" per cycle, channel ").concat(channel.id.as_str()).concat(
            " would reach local_ratio=",
        ).concat(projected_text).concat(" (").concat(word).concat(
            ") — the current severity threshold is crossed in ",
        ).concat(text::u64_text(cycles_to_threshold as u64).as_str()).concat(" cycle(s).");
        Some(
            SimulationProjection {
                local_ratio_before: channel.liquidity.local_ratio,
                local_ratio_after: projected_ratio,
                local_balance_msat_after: local,
                remote_balance_msat_after: remote,
                delta_msat: distance_of(local, channel.liquidity.local_balance_msat),
                clears_finding: false,
                summary,
            },
        )
    }
}

/// A change of fees moves no liquidity and clears no finding.
pub proof fn lemma_fee_changes_move_nothing(c: ChannelView, a: ActionView)
    requires
        a.action_type == ActionType::UpdateFeePolicy,
    ensures
        projection_of(c, a) matches Ok(p) && p.delta_msat == 0 && !p.clears_finding
            && p.local_ratio_after == c.liquidity.local_ratio && p.local_balance_msat_after
            == c.liquidity.local_balance_msat,
{
}

/// A rebalance without a numeric target moves nothing and clears nothing.
pub proof fn lemma_no_target_moves_nothing(c: ChannelView, a: ActionView)
    requires
        a.action_type == ActionType::RebalanceChannel,
        c.capacity_msat > 0,
        desired_portion(a) is None,
    ensures
        projection_of(c, a) matches Ok(p) && p.delta_msat == 0 && !p.clears_finding
            && p.local_ratio_after == c.liquidity.local_ratio && p.local_balance_msat_after
            == c.liquidity.local_balance_msat,
{
}

/// A route of one hop does to its channel what rebalancing it directly does, but
/// for the words of the summary.
pub proof fn lemma_single_hop_is_direct(c: ChannelView, desired_bits: u64)
    requires
        c.capacity_msat > 0,
    ensures
        route_effects(c, desired_bits, seq![c.id], seq![c]) matches Ok(effects) && effects.len()
            == 1 && effects[0] == (SimulationProjectionView {
            summary: effects[0].summary,
            ..rebalanced(c, portion::clamped_bits(desired_bits))
        }),
{
    let route = seq![c.id];
    let channels = seq![c];
    assert(channels[0].id == route[0]);
    assert(find_channel(channels, route[0]) == Some(c));
    assert(first_unknown(route.skip(1), channels) is None);
    assert(first_unknown(route, channels) is None);
}

proof fn lemma_found_is_first(channels: Seq<ChannelView>, id: Seq<char>, k: int)
    requires
        0 <= k < channels.len(),
        channels[k].id == id,
        forall|j: int| 0 <= j < k ==> (#[trigger] channels[j]).id != id,
    ensures
        find_channel(channels, id) == Some(channels[k]),
    decreases k,
{
    if k > 0 {
        assert(channels[0].id != id);
        let rest = channels.skip(1);
        assert forall|j: int| 0 <= j < k - 1 implies (#[trigger] rest[j]).id != id by {
            assert(rest[j] == channels[j + 1]);
        }
        lemma_found_is_first(rest, id, k - 1);
    }
}

proof fn lemma_known_channel(channels: Seq<ChannelView>, id: Seq<char>) -> (k: int)
    requires
        find_channel(channels, id) is Some,
    ensures
        0 <= k < channels.len(),
        channels[k].id == id,
        forall|j: int| 0 <= j < k ==> (#[trigger] channels[j]).id != id,
    decreases channels.len(),
{
    if channels[0].id == id {
        0
    } else {
        let rest = channels.skip(1);
        let k = lemma_known_channel(rest, id);
        assert(rest[k] == channels[k + 1]);
        assert forall|j: int| 0 <= j < k + 1 implies (#[trigger] channels[j]).id != id by {
            if j > 0 {
                assert(rest[j - 1] == channels[j]);
            }
        }
        k + 1
    }
}

proof fn lemma_first_unknown_is_unknown(route: Seq<Seq<char>>, channels: Seq<ChannelView>)
    ensures
        first_unknown(route, channels) is None <==> forall|i: int|
            0 <= i < route.len() ==> find_channel(channels, #[trigger] route[i]) is Some,
    decreases route.len(),
{
    if route.len() > 0 {
        let rest = route.skip(1);
        lemma_first_unknown_is_unknown(rest, channels);
        if first_unknown(route, channels) is None {
            assert forall|i: int| 0 <= i < route.len() implies find_channel(
                channels,
                #[trigger] route[i],
            ) is Some by {
                if i > 0 {
                    assert(rest[i - 1] == route[i]);
                }
            }
        }
        if forall|i: int| 0 <= i < route.len() ==> find_channel(channels, #[trigger] route[i]) is Some {
            assert forall|i: int| 0 <= i < rest.len() implies find_channel(
                channels,
                #[trigger] rest[i],
            ) is Some by {
                assert(rest[i] == route[i + 1]);
            }
            assert(find_channel(channels, route[0]) is Some);
        }
    }
}

/// Along a route the amount moved goes onto the local side of each hop at an odd place
/// and leaves that of each hop at an even place past the first, held at nothing and at
/// the greatest amount there is. Every hop moves the same amount.
pub proof fn lemma_route_alternates(
    source: ChannelView,
    desired_bits: u64,
    route: Seq<Seq<char>>,
    channels: Seq<ChannelView>,
    i: int,
    k: int,
)
    requires
        route_effects(source, desired_bits, route, channels) is Ok,
        0 < i < route.len(),
        0 <= k < channels.len(),
        channels[k].id == route[i],
        forall|j: int| 0 <= j < k ==> (#[trigger] channels[j]).id != route[i],
    ensures
        route_effects(source, desired_bits, route, channels) matches Ok(effects) && ({
            let before = channels[k].liquidity.local_balance_msat;
            let after = effects[i].local_balance_msat_after;
            let moved = effects[0].delta_msat;
            &&& effects.len() == route.len()
            &&& effects[i].delta_msat == moved
            &&& i % 2 == 1 && before + moved <= u64::MAX ==> after == before + moved
            &&& i % 2 == 1 && before + moved > u64::MAX ==> after == u64::MAX
            &&& i % 2 == 0 && before >= moved ==> after == before - moved
            &&& i % 2 == 0 && before < moved ==> after == 0
        }),
{
    lemma_found_is_first(channels, route[i], k);
}

/// The first hop of a route that begins at its source comes to hold the desired portion
/// of the capacity, and what moves is the difference to what it held.
pub proof fn lemma_route_begins_at_its_source(
    source: ChannelView,
    desired_bits: u64,
    route: Seq<Seq<char>>,
    channels: Seq<ChannelView>,
    k: int,
)
    requires
        route_effects(source, desired_bits, route, channels) is Ok,
        0 <= k < channels.len(),
        channels[k] == source,
        source.id == route[0],
        forall|j: int| 0 <= j < k ==> (#[trigger] channels[j]).id != route[0],
    ensures
        route_effects(source, desired_bits, route, channels) matches Ok(effects) && ({
            let before = source.liquidity.local_balance_msat;
            let after = effects[0].local_balance_msat_after;
            let moved = effects[0].delta_msat;
            &&& after == portion::portion(portion::clamped_bits(desired_bits), source.capacity_msat)
            &&& after >= before ==> moved == after - before
            &&& after < before ==> moved == before - after
        }),
{
    lemma_found_is_first(channels, route[0], k);
}

/// Each hop of a route shows what its channel held, leaves the rest of the capacity on
/// the remote side, and is said to be cleared exactly if it then holds from a tenth to
/// nine tenths of its capacity locally.
pub proof fn lemma_route_hops_are_whole(
    source: ChannelView,
    desired_bits: u64,
    route: Seq<Seq<char>>,
    channels: Seq<ChannelView>,
    i: int,
    k: int,
)
    requires
        route_effects(source, desired_bits, route, channels) is Ok,
        0 <= i < route.len(),
        0 <= k < channels.len(),
        channels[k].id == route[i],
        forall|j: int| 0 <= j < k ==> (#[trigger] channels[j]).id != route[i],
    ensures
        route_effects(source, desired_bits, route, channels) matches Ok(effects) && ({
            let capacity = channels[k].capacity_msat;
            let local = effects[i].local_balance_msat_after;
            let remote = effects[i].remote_balance_msat_after;
            &&& local <= capacity ==> local + remote == capacity
            &&& local > capacity ==> remote == 0
            &&& effects[i].local_ratio_before == channels[k].liquidity.local_ratio
            &&& effects[i].local_ratio_after.bits == crate::ratio::ratio_bits(
                local as nat,
                capacity as nat,
            ) as u64
            &&& effects[i].clears_finding <==> capacity > 0 && 10 * local >= capacity && 10 * local
                <= 9 * capacity
        }),
{
    lemma_found_is_first(channels, route[i], k);
}

/// A route is projected exactly if it has hops, its source has capacity and every hop is
/// a known channel.
pub proof fn lemma_known_routes_are_projected(
    source: ChannelView,
    desired_bits: u64,
    route: Seq<Seq<char>>,
    channels: Seq<ChannelView>,
)
    ensures
        route_effects(source, desired_bits, route, channels) is Ok <==> route.len() > 0
            && source.capacity_msat > 0 && forall|i: int|
            0 <= i < route.len() ==> exists|k: int|
                0 <= k < channels.len() && (#[trigger] channels[k]).id == #[trigger] route[i],
{
    lemma_first_unknown_is_unknown(route, channels);
    if first_unknown(route, channels) is None {
        assert forall|i: int| 0 <= i < route.len() implies exists|k: int|
            0 <= k < channels.len() && (#[trigger] channels[k]).id == #[trigger] route[i] by {
            let k = lemma_known_channel(channels, route[i]);
            assert(channels[k].id == route[i]);
        }
    }
    if forall|i: int|
        0 <= i < route.len() ==> exists|k: int|
            0 <= k < channels.len() && (#[trigger] channels[k]).id == #[trigger] route[i] {
        assert forall|i: int| 0 <= i < route.len() implies find_channel(
            channels,
            #[trigger] route[i],
        ) is Some by {
            let k = choose|k: int|
                0 <= k < channels.len() && (#[trigger] channels[k]).id == route[i];
            lemma_present_is_found(channels, route[i], k);
        }
    }
}

proof fn lemma_present_is_found(channels: Seq<ChannelView>, id: Seq<char>, k: int)
    requires
        0 <= k < channels.len(),
        channels[k].id == id,
    ensures
        find_channel(channels, id) is Some,
    decreases channels.len(),
{
    if channels[0].id != id {
        assert(channels.skip(1)[k - 1] == channels[k]);
        lemma_present_is_found(channels.skip(1), id, k - 1);
    }
}

/// Rebalancing a channel to a portion puts that portion on the local side and the rest of
/// the capacity on the remote one, moves the difference to what was there, and clears
/// the finding exactly if the local side then holds from a tenth to nine tenths.
pub proof fn lemma_rebalancing_reaches_its_target(c: ChannelView, a: ActionView, desired: u64)
    requires
        a.action_type == ActionType::RebalanceChannel,
        c.capacity_msat > 0,
        desired_portion(a) == Some(desired),
    ensures
        projection_of(c, a) matches Ok(p) && ({
            let before = c.liquidity.local_balance_msat;
            let after = p.local_balance_msat_after;
            &&& after == portion::portion(desired, c.capacity_msat)
            &&& after <= c.capacity_msat ==> after + p.remote_balance_msat_after == c.capacity_msat
            &&& after > c.capacity_msat ==> p.remote_balance_msat_after == 0
            &&& after >= before ==> p.delta_msat == after - before
            &&& after < before ==> p.delta_msat == before - after
            &&& p.local_ratio_before == c.liquidity.local_ratio
            &&& p.local_ratio_after.bits == crate::ratio::ratio_bits(
                after as nat,
                c.capacity_msat as nat,
            ) as u64
            &&& p.clears_finding <==> 10 * after >= c.capacity_msat && 10 * after <= 9
                * c.capacity_msat
        }),
{
}

/// What can be projected: a rebalance of a channel with capacity and a change of fees,
/// and nothing else.
pub proof fn lemma_what_can_be_projected(c: ChannelView, a: ActionView)
    ensures
        projection_of(c, a) is Ok <==> (a.action_type == ActionType::RebalanceChannel
            && c.capacity_msat > 0) || a.action_type == ActionType::UpdateFeePolicy,
        a.action_type == ActionType::RebalanceChannel && c.capacity_msat == 0 ==> projection_of(
            c,
            a,
        ) == Err::<SimulationProjectionView, SimulationErrorView>(
            SimulationErrorView::ZeroCapacity(c.id),
        ),
{
}

/// A channel that drifts ends at the projected portion of its capacity with the rest on
/// the remote side, and clears nothing. One without capacity or without anything left
/// does not drift.
pub proof fn lemma_drift_reaches_the_projected_portion(
    c: ChannelView,
    projected: Ratio,
    cycles: u32,
    decline: Seq<char>,
    shown: Seq<char>,
    threshold: u32,
)
    ensures
        drifted(c, projected, cycles, decline, shown, threshold) is None <==> c.capacity_msat == 0
            || c.liquidity.local_ratio.bits == 0 || 0x8000_0000_0000_0000
            <= c.liquidity.local_ratio.bits <= 0xFFF0_0000_0000_0000,
        drifted(c, projected, cycles, decline, shown, threshold) matches Some(p) ==> ({
            let before = c.liquidity.local_balance_msat;
            let after = p.local_balance_msat_after;
            &&& after == portion::portion(projected.bits, c.capacity_msat)
            &&& after <= c.capacity_msat ==> after + p.remote_balance_msat_after == c.capacity_msat
            &&& after > c.capacity_msat ==> p.remote_balance_msat_after == 0
            &&& after >= before ==> p.delta_msat == after - before
            &&& after < before ==> p.delta_msat == before - after
            &&& p.local_ratio_before == c.liquidity.local_ratio
            &&& p.local_ratio_after == projected
            &&& !p.clears_finding
        }),
{
}

/// A simulation names its action and its finding, and tells what was projected
/// and when.
pub proof fn lemma_simulations_name_their_action(
    id: Seq<char>,
    action: ActionView,
    finding_id: Seq<char>,
    projection: SimulationProjectionView,
    now: Timestamp,
)
    ensures
        ({
            let s = simulation_of(id, action, finding_id, projection, now);
            &&& s.id == id && s.action_id == action.id && s.finding_id == finding_id
            &&& s.action_type == action.action_type
            &&& s.projection == projection && s.created_at == now
        }),
{
}

/// A route is recorded hop by hop, in its order, under one name made of the
/// finding's.
pub proof fn lemma_routes_are_recorded_hop_by_hop(
    simulations: Seq<SimulationView>,
    effects: Seq<SimulationProjectionView>,
    finding_id: Seq<char>,
    i: int,
)
    requires
        records_route(simulations, effects, finding_id),
        0 <= i < effects.len(),
    ensures
        simulations.len() == effects.len(),
        simulations[i].projection == effects[i],
        simulations[i].finding_id == finding_id,
        simulations[i].action_id == "route-"@ + finding_id,
        simulations[i].action_type is RebalanceChannel,
{
}

/// A change of fees, and a rebalance without a target that is a number, move
/// nothing: the channel stays as it is, and no finding is cleared.
pub proof fn lemma_what_moves_nothing(c: ChannelView, a: ActionView)
    requires
        a.action_type == ActionType::UpdateFeePolicy || (a.action_type
            == ActionType::RebalanceChannel && c.capacity_msat > 0 && desired_portion(a) is None),
    ensures
        projection_of(c, a) matches Ok(p) && ({
            &&& p.local_balance_msat_after == c.liquidity.local_balance_msat
            &&& p.remote_balance_msat_after == c.liquidity.remote_balance_msat
            &&& p.local_ratio_before == c.liquidity.local_ratio
            &&& p.local_ratio_after == c.liquidity.local_ratio
            &&& p.delta_msat == 0
            &&& !p.clears_finding
        }),
{
}

/// The target of a rebalance is what the action says of the desired ratio: a
/// double from nought to one as it is, any other number as the end of that range
/// that it lies beyond. What is no number is no target.
pub proof fn lemma_which_target_a_rebalance_has(a: ActionView)
    ensures
        ({
            let v = json::param_value(a.params, "desired_ratio"@);
            &&& v is None ==> desired_portion(a) is None
            &&& v is Some ==> (desired_portion(a) is Some <==> v->0 is Real || v->0 is Unsigned
                || v->0 is Negative)
            &&& v is Some && v->0 is Real && v->0->bits <= 0x3FF0_0000_0000_0000
                ==> desired_portion(a) == Some(v->0->bits)
            &&& v is Some && v->0 is Real && 0x3FF0_0000_0000_0000 < v->0->bits
                <= 0x7FF0_0000_0000_0000 ==> desired_portion(a) == Some(0x3FF0_0000_0000_0000u64)
            &&& v is Some && v->0 is Unsigned && v->0->Unsigned_0 > 0 ==> desired_portion(a)
                == Some(0x3FF0_0000_0000_0000u64)
            &&& v is Some && (v->0 is Negative || v->0 == json::JsonView::Unsigned(0))
                ==> desired_portion(a) == Some(0u64)
        }),
{
}

} // verus!
