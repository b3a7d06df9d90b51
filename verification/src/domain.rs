//! The entities that every other module speaks of: networks, nodes, channels,
//! their liquidity, and the events observed on them.
use crate::ratio::Ratio;
use crate::text::copy_optional_text;
use crate::time::Timestamp;
use vstd::prelude::*;

verus! {

/// A Bitcoin network.
#[derive(Debug, Clone, Copy, PartialEq, Eq, Structural)]
pub enum BitcoinNetwork {
    Mainnet,
    Testnet,
    Signet,
    Regtest,
}

impl DeepView for BitcoinNetwork {
    type V = BitcoinNetwork;

    open spec fn deep_view(&self) -> BitcoinNetwork {
        *self
    }
}

impl BitcoinNetwork {
    /// The lower-case name of the network.
    pub open spec fn name(self) -> Seq<char> {
        match self {
            BitcoinNetwork::Mainnet => "mainnet"@,
            BitcoinNetwork::Testnet => "testnet"@,
            BitcoinNetwork::Signet => "signet"@,
            BitcoinNetwork::Regtest => "regtest"@,
        }
    }

    /// The lower-case name of the network.
    pub fn as_str(self) -> (r: &'static str)
        ensures
            r@ == self.name(),
    {
        match self {
            BitcoinNetwork::Mainnet => "mainnet",
            BitcoinNetwork::Testnet => "testnet",
            BitcoinNetwork::Signet => "signet",
            BitcoinNetwork::Regtest => "regtest",
        }
    }
}

/// Whether two optional networks are the same.
pub fn same_network(a: Option<BitcoinNetwork>, b: Option<BitcoinNetwork>) -> (r: bool)
    ensures
        r == (a == b),
{
    match (a, b) {
        (None, None) => true,
        (Some(x), Some(y)) => x == y,
        _ => false,
    }
}

/// Identity of a Lightning node.
#[derive(Debug, PartialEq, Eq)]
pub struct NodeId {
    value: String,
}

impl DeepView for NodeId {
    type V = Seq<char>;

    closed spec fn deep_view(&self) -> Seq<char> {
        self.value@
    }
}

impl NodeId {
    /// The node of this name.
    pub fn new(value: &str) -> (r: NodeId)
        ensures
            r.deep_view() == value@,
    {
        NodeId { value: value.to_owned() }
    }

    /// The name.
    pub fn as_str(&self) -> (r: &str)
        ensures
            r@ == self.deep_view(),
    {
        self.value.as_str()
    }
}

impl Clone for NodeId {
    fn clone(&self) -> (r: Self)
        ensures
            r == *self,
            r.deep_view() == self.deep_view(),
    {
        NodeId { value: self.value.clone() }
    }
}

/// Identity of a channel.
#[derive(Debug, PartialEq, Eq)]
pub struct ChannelId {
    value: String,
}

impl DeepView for ChannelId {
    type V = Seq<char>;

    closed spec fn deep_view(&self) -> Seq<char> {
        self.value@
    }
}

impl ChannelId {
    /// The channel of this name.
    pub fn new(value: &str) -> (r: ChannelId)
        ensures
            r.deep_view() == value@,
    {
        ChannelId { value: value.to_owned() }
    }

    /// The name.
    pub fn as_str(&self) -> (r: &str)
        ensures
            r@ == self.deep_view(),
    {
        self.value.as_str()
    }
}

impl Clone for ChannelId {
    fn clone(&self) -> (r: Self)
        ensures
            r == *self,
            r.deep_view() == self.deep_view(),
    {
        ChannelId { value: self.value.clone() }
    }
}

/// Where a channel stands in its life.
#[derive(Debug, Clone, Copy, PartialEq, Eq, Structural)]
pub enum ChannelStatus {
    Opening,
    Active,
    Inactive,
    Closing,
    Closed,
    PendingOpen,
    WaitingClose,
    ForceClosing,
    Unknown,
}

impl DeepView for ChannelStatus {
    type V = ChannelStatus;

    open spec fn deep_view(&self) -> ChannelStatus {
        *self
    }
}

impl ChannelStatus {
    /// Whether the channel can carry payments now.
    pub open spec fn open_for_use(self) -> bool {
        self == ChannelStatus::Active
    }

    /// Whether the channel can carry payments now.
    pub fn is_open(self) -> (r: bool)
        ensures
            r == self.open_for_use(),
    {
        matches!(self, ChannelStatus::Active)
    }

    /// Whether the channel is closed or on its way there.
    pub open spec fn ending(self) -> bool {
        self == ChannelStatus::Closing || self == ChannelStatus::Closed || self
            == ChannelStatus::WaitingClose || self == ChannelStatus::ForceClosing
    }

    /// Whether the channel is closed or on its way there.
    pub fn is_closed(self) -> (r: bool)
        ensures
            r == self.ending(),
    {
        matches!(
            self,
            ChannelStatus::Closing | ChannelStatus::Closed | ChannelStatus::WaitingClose
            | ChannelStatus::ForceClosing
        )
    }
}

/// How far the local share of a channel is from the middle.
#[derive(Debug, Clone, Copy, PartialEq, Eq, Structural)]
pub enum LiquidityImbalance {
    Balanced,
    /// Little of the capacity is on the local side.
    OutboundDrained,
    /// Little of the capacity is on the remote side.
    InboundDrained,
    /// Next to nothing is left on one side.
    SeverelyDrained,
    /// The channel has no capacity to judge by.
    Unknown,
}

impl DeepView for LiquidityImbalance {
    type V = LiquidityImbalance;

    open spec fn deep_view(&self) -> LiquidityImbalance {
        *self
    }
}

/// The imbalance of a channel with `local` of its `capacity` on the local side:
/// drained where a side holds less than a tenth, severely below a twentieth.
pub open spec fn imbalance_of(capacity: u64, local: u64) -> LiquidityImbalance {
    if capacity == 0 {
        LiquidityImbalance::Unknown
    } else if local * 20 < capacity || local * 20 > capacity * 19 {
        LiquidityImbalance::SeverelyDrained
    } else if local * 10 < capacity {
        LiquidityImbalance::OutboundDrained
    } else if local * 10 > capacity * 9 {
        LiquidityImbalance::InboundDrained
    } else {
        LiquidityImbalance::Balanced
    }
}

/// The liquidity of a channel, seen from the local side.
#[derive(Debug, Clone, Copy, PartialEq, Eq, Structural)]
pub struct LiquidityProfile {
    pub local_ratio: Ratio,
    pub local_balance_msat: u64,
    pub remote_balance_msat: u64,
    pub inbound_capacity_msat: u64,
    pub outbound_capacity_msat: u64,
    pub spendable_outbound_msat: u64,
    pub spendable_inbound_msat: u64,
    pub imbalance: LiquidityImbalance,
}

/// The profile of a channel with these balances and no reserves.
pub open spec fn liquidity_of(capacity: u64, local: u64, remote: u64) -> LiquidityProfile {
    LiquidityProfile {
        local_ratio: Ratio { bits: crate::ratio::ratio_bits(local as nat, capacity as nat) as u64 },
        local_balance_msat: local,
        remote_balance_msat: remote,
        inbound_capacity_msat: remote,
        outbound_capacity_msat: local,
        spendable_outbound_msat: local,
        spendable_inbound_msat: remote,
        imbalance: imbalance_of(capacity, local),
    }
}

/// The imbalance of a channel with `local` of its `capacity` on the local side.
pub fn classify_imbalance(capacity: u64, local: u64) -> (r: LiquidityImbalance)
    ensures
        r == imbalance_of(capacity, local),
{
    let c: u128 = capacity as u128;
    let l: u128 = local as u128;
    if c == 0 {
        LiquidityImbalance::Unknown
    } else if l * 20 < c || l * 20 > c * 19 {
        LiquidityImbalance::SeverelyDrained
    } else if l * 10 < c {
        LiquidityImbalance::OutboundDrained
    } else if l * 10 > c * 9 {
        LiquidityImbalance::InboundDrained
    } else {
        LiquidityImbalance::Balanced
    }
}

impl LiquidityProfile {
    /// The profile of a channel with these balances and no reserves.
    pub fn compute(capacity_msat: u64, local_msat: u64, remote_msat: u64) -> (r: LiquidityProfile)
        ensures
            r == liquidity_of(capacity_msat, local_msat, remote_msat),
    {
        LiquidityProfile {
            local_ratio: Ratio::of(local_msat, capacity_msat),
            local_balance_msat: local_msat,
            remote_balance_msat: remote_msat,
            inbound_capacity_msat: remote_msat,
            outbound_capacity_msat: local_msat,
            spendable_outbound_msat: local_msat,
            spendable_inbound_msat: remote_msat,
            imbalance: classify_imbalance(capacity_msat, local_msat),
        }
    }
}

/// What a node charges for forwarding through a channel.
#[derive(Debug, Clone, Copy, PartialEq, Eq, Structural)]
pub struct FeePolicy {
    pub base_fee_msat: u64,
    pub fee_rate_ppm: u64,
    pub min_htlc_msat: u64,
    pub max_htlc_msat: Option<u64>,
    pub cltv_delta: u32,
}

/// The policy of a channel whose fees are not known.
pub open spec fn no_fee_policy() -> FeePolicy {
    FeePolicy {
        base_fee_msat: 0,
        fee_rate_ppm: 0,
        min_htlc_msat: 0,
        max_htlc_msat: None,
        cltv_delta: 0,
    }
}

impl Default for FeePolicy {
    fn default() -> (r: Self)
        ensures
            r == no_fee_policy(),
    {
        FeePolicy {
            base_fee_msat: 0,
            fee_rate_ppm: 0,
            min_htlc_msat: 0,
            max_htlc_msat: None,
            cltv_delta: 0,
        }
    }
}

/// A channel between the local node and a peer.
#[derive(Debug, PartialEq)]
pub struct Channel {
    pub id: ChannelId,
    pub node: NodeId,
    pub peer: NodeId,
    pub channel_point: String,
    pub capacity_msat: u64,
    pub fee_policy: FeePolicy,
    pub status: ChannelStatus,
    pub liquidity: LiquidityProfile,
    pub last_seen: Timestamp,
    pub opening_height: Option<u32>,
    pub local_reserve_msat: Option<u64>,
    pub remote_reserve_msat: Option<u64>,
    pub is_private: bool,
    pub is_initiator: bool,
    pub total_sent_msat: Option<u64>,
    pub total_received_msat: Option<u64>,
}

/// The mathematical value of a [`Channel`].
pub struct ChannelView {
    pub id: Seq<char>,
    pub node: Seq<char>,
    pub peer: Seq<char>,
    pub channel_point: Seq<char>,
    pub capacity_msat: u64,
    pub fee_policy: FeePolicy,
    pub status: ChannelStatus,
    pub liquidity: LiquidityProfile,
    pub last_seen: Timestamp,
    pub opening_height: Option<u32>,
    pub local_reserve_msat: Option<u64>,
    pub remote_reserve_msat: Option<u64>,
    pub is_private: bool,
    pub is_initiator: bool,
    pub total_sent_msat: Option<u64>,
    pub total_received_msat: Option<u64>,
}

impl DeepView for Channel {
    type V = ChannelView;

    open spec fn deep_view(&self) -> ChannelView {
        ChannelView {
            id: self.id.deep_view(),
            node: self.node.deep_view(),
            peer: self.peer.deep_view(),
            channel_point: self.channel_point.deep_view(),
            capacity_msat: self.capacity_msat,
            fee_policy: self.fee_policy,
            status: self.status,
            liquidity: self.liquidity,
            last_seen: self.last_seen,
            opening_height: self.opening_height,
            local_reserve_msat: self.local_reserve_msat,
            remote_reserve_msat: self.remote_reserve_msat,
            is_private: self.is_private,
            is_initiator: self.is_initiator,
            total_sent_msat: self.total_sent_msat,
            total_received_msat: self.total_received_msat,
        }
    }
}

impl Clone for Channel {
    fn clone(&self) -> (r: Self)
        ensures
            r.deep_view() == self.deep_view(),
    {
        Channel {
            id: self.id.clone(),
            node: self.node.clone(),
            peer: self.peer.clone(),
            channel_point: self.channel_point.clone(),
            capacity_msat: self.capacity_msat,
            fee_policy: self.fee_policy,
            status: self.status,
            liquidity: self.liquidity,
            last_seen: self.last_seen,
            opening_height: self.opening_height,
            local_reserve_msat: self.local_reserve_msat,
            remote_reserve_msat: self.remote_reserve_msat,
            is_private: self.is_private,
            is_initiator: self.is_initiator,
            total_sent_msat: self.total_sent_msat,
            total_received_msat: self.total_received_msat,
        }
    }
}

/// The state of one channel at one moment.
#[derive(Debug, PartialEq)]
pub struct ChannelSnapshot {
    pub node_id: Option<String>,
    pub network: Option<BitcoinNetwork>,
    /// Digest of the state, as it was stored with the snapshot.
    pub state_digest: Option<String>,
    pub channel_id: String,
    pub local_ratio: Ratio,
    pub local_balance_msat: u64,
    pub remote_balance_msat: u64,
    pub capacity_msat: u64,
    pub status: ChannelStatus,
    pub ts: Timestamp,
    pub spendable_outbound_msat: u64,
    pub spendable_inbound_msat: u64,
}

/// The mathematical value of a [`ChannelSnapshot`].
pub struct ChannelSnapshotView {
    pub node_id: Option<Seq<char>>,
    pub network: Option<BitcoinNetwork>,
    pub state_digest: Option<Seq<char>>,
    pub channel_id: Seq<char>,
    pub local_ratio: Ratio,
    pub local_balance_msat: u64,
    pub remote_balance_msat: u64,
    pub capacity_msat: u64,
    pub status: ChannelStatus,
    pub ts: Timestamp,
    pub spendable_outbound_msat: u64,
    pub spendable_inbound_msat: u64,
}

impl DeepView for ChannelSnapshot {
    type V = ChannelSnapshotView;

    open spec fn deep_view(&self) -> ChannelSnapshotView {
        ChannelSnapshotView {
            node_id: self.node_id.deep_view(),
            network: self.network,
            state_digest: self.state_digest.deep_view(),
            channel_id: self.channel_id.deep_view(),
            local_ratio: self.local_ratio,
            local_balance_msat: self.local_balance_msat,
            remote_balance_msat: self.remote_balance_msat,
            capacity_msat: self.capacity_msat,
            status: self.status,
            ts: self.ts,
            spendable_outbound_msat: self.spendable_outbound_msat,
            spendable_inbound_msat: self.spendable_inbound_msat,
        }
    }
}

impl Clone for ChannelSnapshot {
    fn clone(&self) -> (r: Self)
        ensures
            r.deep_view() == self.deep_view(),
    {
        ChannelSnapshot {
            node_id: copy_optional_text(&self.node_id),
            network: self.network,
            state_digest: copy_optional_text(&self.state_digest),
            channel_id: self.channel_id.clone(),
            local_ratio: self.local_ratio,
            local_balance_msat: self.local_balance_msat,
            remote_balance_msat: self.remote_balance_msat,
            capacity_msat: self.capacity_msat,
            status: self.status,
            ts: self.ts,
            spendable_outbound_msat: self.spendable_outbound_msat,
            spendable_inbound_msat: self.spendable_inbound_msat,
        }
    }
}

/// The snapshot of `channel` seen at `ts`, on `network` where one is known.
pub open spec fn snapshot_on(
    channel: ChannelView,
    ts: Timestamp,
    network: Option<BitcoinNetwork>,
) -> ChannelSnapshotView {
    ChannelSnapshotView {
        node_id: Some(channel.node),
        network,
        state_digest: None,
        channel_id: channel.id,
        local_ratio: channel.liquidity.local_ratio,
        local_balance_msat: channel.liquidity.local_balance_msat,
        remote_balance_msat: channel.liquidity.remote_balance_msat,
        capacity_msat: channel.capacity_msat,
        status: channel.status,
        ts,
        spendable_outbound_msat: channel.liquidity.spendable_outbound_msat,
        spendable_inbound_msat: channel.liquidity.spendable_inbound_msat,
    }
}

/// The snapshot of `channel` seen at `ts` on `network`.
pub open spec fn snapshot_of(
    channel: ChannelView,
    ts: Timestamp,
    network: BitcoinNetwork,
) -> ChannelSnapshotView {
    snapshot_on(channel, ts, Some(network))
}

impl ChannelSnapshot {
    /// The snapshot of `channel` seen at `ts` on `network`.
    pub fn from_channel(channel: &Channel, ts: Timestamp, network: BitcoinNetwork) -> (r: Self)
        ensures
            r.deep_view() == snapshot_of(channel.deep_view(), ts, network),
    {
        Self::seen_on(channel, ts, Some(network))
    }

    /// The snapshot of `channel` seen at `ts`, on `network` where one is known.
    pub fn seen_on(channel: &Channel, ts: Timestamp, network: Option<BitcoinNetwork>) -> (r: Self)
        ensures
            r.deep_view() == snapshot_on(channel.deep_view(), ts, network),
    {
        ChannelSnapshot {
            node_id: Some(channel.node.as_str().to_owned()),
            network,
            state_digest: None,
            channel_id: channel.id.as_str().to_owned(),
            local_ratio: channel.liquidity.local_ratio,
            local_balance_msat: channel.liquidity.local_balance_msat,
            remote_balance_msat: channel.liquidity.remote_balance_msat,
            capacity_msat: channel.capacity_msat,
            status: channel.status,
            ts,
            spendable_outbound_msat: channel.liquidity.spendable_outbound_msat,
            spendable_inbound_msat: channel.liquidity.spendable_inbound_msat,
        }
    }
}

/// Whether a node can be reached.
#[derive(Debug, Clone, Copy, PartialEq, Eq, Structural)]
pub enum NodeStatus {
    Online,
    Offline,
    Unknown,
}

impl DeepView for NodeStatus {
    type V = NodeStatus;

    open spec fn deep_view(&self) -> NodeStatus {
        *self
    }
}

/// A Lightning node.
#[derive(Debug, PartialEq)]
pub struct Node {
    pub id: NodeId,
    pub alias: Option<String>,
    pub version: Option<String>,
    pub status: NodeStatus,
    pub last_seen: Timestamp,
}

/// The mathematical value of a [`Node`].
pub struct NodeView {
    pub id: Seq<char>,
    pub alias: Option<Seq<char>>,
    pub version: Option<Seq<char>>,
    pub status: NodeStatus,
    pub last_seen: Timestamp,
}

impl DeepView for Node {
    type V = NodeView;

    open spec fn deep_view(&self) -> NodeView {
        NodeView {
            id: self.id.deep_view(),
            alias: self.alias.deep_view(),
            version: self.version.deep_view(),
            status: self.status,
            last_seen: self.last_seen,
        }
    }
}

impl Clone for Node {
    fn clone(&self) -> (r: Self)
        ensures
            r.deep_view() == self.deep_view(),
    {
        Node {
            id: self.id.clone(),
            alias: copy_optional_text(&self.alias),
            version: copy_optional_text(&self.version),
            status: self.status,
            last_seen: self.last_seen,
        }
    }
}

/// A payment that the local node forwarded.
#[derive(Debug, PartialEq)]
pub struct ForwardEvent {
    pub id: String,
    pub channel_in: ChannelId,
    pub channel_out: ChannelId,
    pub amount_msat: u64,
    pub fee_msat: u64,
    pub timestamp: Timestamp,
}

/// The mathematical value of a [`ForwardEvent`].
pub struct ForwardEventView {
    pub id: Seq<char>,
    pub channel_in: Seq<char>,
    pub channel_out: Seq<char>,
    pub amount_msat: u64,
    pub fee_msat: u64,
    pub timestamp: Timestamp,
}

impl DeepView for ForwardEvent {
    type V = ForwardEventView;

    open spec fn deep_view(&self) -> ForwardEventView {
        ForwardEventView {
            id: self.id.deep_view(),
            channel_in: self.channel_in.deep_view(),
            channel_out: self.channel_out.deep_view(),
            amount_msat: self.amount_msat,
            fee_msat: self.fee_msat,
            timestamp: self.timestamp,
        }
    }
}

impl Clone for ForwardEvent {
    fn clone(&self) -> (r: Self)
        ensures
            r.deep_view() == self.deep_view(),
    {
        ForwardEvent {
            id: self.id.clone(),
            channel_in: self.channel_in.clone(),
            channel_out: self.channel_out.clone(),
            amount_msat: self.amount_msat,
            fee_msat: self.fee_msat,
            timestamp: self.timestamp,
        }
    }
}

/// A payment that the local node sent or received.
#[derive(Debug, PartialEq)]
pub struct PaymentEvent {
    pub id: String,
    pub amount_msat: u64,
    pub fee_msat: u64,
    pub timestamp: Timestamp,
}

/// The mathematical value of a [`PaymentEvent`].
pub struct PaymentEventView {
    pub id: Seq<char>,
    pub amount_msat: u64,
    pub fee_msat: u64,
    pub timestamp: Timestamp,
}

impl DeepView for PaymentEvent {
    type V = PaymentEventView;

    open spec fn deep_view(&self) -> PaymentEventView {
        PaymentEventView {
            id: self.id.deep_view(),
            amount_msat: self.amount_msat,
            fee_msat: self.fee_msat,
            timestamp: self.timestamp,
        }
    }
}

impl Clone for PaymentEvent {
    fn clone(&self) -> (r: Self)
        ensures
            r.deep_view() == self.deep_view(),
    {
        PaymentEvent {
            id: self.id.clone(),
            amount_msat: self.amount_msat,
            fee_msat: self.fee_msat,
            timestamp: self.timestamp,
        }
    }
}

/// A channel is balanced exactly if at least a tenth of its capacity lies on
/// either side, and severely drained exactly if less than a twentieth lies on
/// one of them. In between, the side with less than a tenth gives the name.
pub proof fn lemma_imbalance_goes_by_the_smaller_side(capacity: u64, local: u64)
    ensures
        imbalance_of(capacity, local) == LiquidityImbalance::Unknown <==> capacity == 0,
        imbalance_of(capacity, local) == LiquidityImbalance::Balanced <==> capacity > 0 && capacity
            <= 10 * local && capacity <= 10 * (capacity - local),
        imbalance_of(capacity, local) == LiquidityImbalance::SeverelyDrained <==> 20 * local
            < capacity || (capacity > 0 && 20 * (capacity - local) < capacity),
        imbalance_of(capacity, local) == LiquidityImbalance::OutboundDrained ==> 10 * local
            < capacity <= 20 * local,
        imbalance_of(capacity, local) == LiquidityImbalance::InboundDrained ==> 10 * (capacity
            - local) < capacity <= 20 * (capacity - local),
{
}

/// Seen from the other end, a balanced channel is balanced, a severely drained
/// one is severely drained, and what was outbound is inbound.
pub proof fn lemma_imbalance_is_symmetric(capacity: u64, local: u64)
    requires
        local <= capacity,
    ensures
        imbalance_of(capacity, (capacity - local) as u64) == (match imbalance_of(capacity, local) {
            LiquidityImbalance::OutboundDrained => LiquidityImbalance::InboundDrained,
            LiquidityImbalance::InboundDrained => LiquidityImbalance::OutboundDrained,
            other => other,
        }),
{
}

/// The profile of a channel tells its balances apart: what can be sent is the
/// local one, what can be received the remote one.
pub proof fn lemma_profile_keeps_the_balances(capacity: u64, local: u64, remote: u64)
    ensures
        ({
            let p = liquidity_of(capacity, local, remote);
            &&& p.local_balance_msat == p.outbound_capacity_msat == p.spendable_outbound_msat
                == local
            &&& p.remote_balance_msat == p.inbound_capacity_msat == p.spendable_inbound_msat
                == remote
        }),
{
}

/// A snapshot shows its channel as it is, from the side of the node that the
/// channel belongs to.
pub proof fn lemma_snapshots_show_their_channel(
    channel: ChannelView,
    ts: Timestamp,
    network: BitcoinNetwork,
)
    ensures
        ({
            let s = snapshot_of(channel, ts, network);
            &&& s.node_id == Some(channel.node) && s.channel_id == channel.id
            &&& s.network == Some(network) && s.ts == ts
            &&& s.capacity_msat == channel.capacity_msat && s.status == channel.status
            &&& s.local_ratio == channel.liquidity.local_ratio
            &&& s.local_balance_msat == channel.liquidity.local_balance_msat
            &&& s.remote_balance_msat == channel.liquidity.remote_balance_msat
            &&& s.spendable_outbound_msat == channel.liquidity.spendable_outbound_msat
            &&& s.spendable_inbound_msat == channel.liquidity.spendable_inbound_msat
        }),
{
}

/// No channel is open for use while it ends, and every channel that neither
/// ends nor is open for use is opening, inactive or in a state unknown.
pub proof fn lemma_channels_are_open_or_ending(status: ChannelStatus)
    ensures
        status.open_for_use() <==> status is Active,
        !(status.open_for_use() && status.ending()),
        !status.open_for_use() && !status.ending() <==> status is Opening || status is PendingOpen
            || status is Inactive || status is Unknown,
{
}

} // verus!
