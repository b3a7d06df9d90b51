//! What every ingestion adapter hands over: node snapshots, events, health, and
//! the errors it fails with.
use crate::domain::{BitcoinNetwork, ChannelSnapshot, ChannelSnapshotView, ChannelStatus};
use crate::text;
use crate::text::copy_optional_text;
use crate::time::Timestamp;
use vstd::prelude::*;

verus! {

/// Why an adapter could not ingest.
#[derive(Debug, PartialEq, Eq)]
pub enum IngestionError {
    Authentication(String),
    Connection(String),
    Normalization(String),
    Closed,
    Other(String),
}

/// The mathematical value of an [`IngestionError`].
pub enum IngestionErrorView {
    Authentication(Seq<char>),
    Connection(Seq<char>),
    Normalization(Seq<char>),
    Closed,
    Other(Seq<char>),
}

impl DeepView for IngestionError {
    type V = IngestionErrorView;

    open spec fn deep_view(&self) -> IngestionErrorView {
        match self {
            IngestionError::Authentication(s) => IngestionErrorView::Authentication(s@),
            IngestionError::Connection(s) => IngestionErrorView::Connection(s@),
            IngestionError::Normalization(s) => IngestionErrorView::Normalization(s@),
            IngestionError::Closed => IngestionErrorView::Closed,
            IngestionError::Other(s) => IngestionErrorView::Other(s@),
        }
    }
}

/// Whether an adapter reaches its source.
#[derive(Debug, PartialEq, Eq)]
pub struct AdapterHealth {
    pub is_connected: bool,
    pub source_name: String,
    pub latency_ms: Option<u64>,
    pub message: Option<String>,
}

/// The mathematical value of a [`AdapterHealth`].
pub struct AdapterHealthView {
    pub is_connected: bool,
    pub source_name: Seq<char>,
    pub latency_ms: Option<u64>,
    pub message: Option<Seq<char>>,
}

impl DeepView for AdapterHealth {
    type V = AdapterHealthView;

    open spec fn deep_view(&self) -> AdapterHealthView {
        AdapterHealthView {
            is_connected: self.is_connected,
            source_name: self.source_name.deep_view(),
            latency_ms: self.latency_ms,
            message: self.message.deep_view(),
        }
    }
}

impl Clone for AdapterHealth {
    fn clone(&self) -> (r: Self)
        ensures
            r.deep_view() == self.deep_view(),
    {
        AdapterHealth {
            is_connected: self.is_connected,
            source_name: self.source_name.clone(),
            latency_ms: self.latency_ms,
            message: copy_optional_text(&self.message),
        }
    }
}

/// The state of a node and of all its channels at one moment.
#[derive(Debug, PartialEq)]
pub struct NodeSnapshot {
    pub node_id: String,
    pub network: BitcoinNetwork,
    pub channels: Vec<ChannelSnapshot>,
    pub active_channels_count: u64,
    pub inactive_channels_count: u64,
    pub total_local_balance_msat: u64,
    pub total_remote_balance_msat: u64,
    pub total_capacity_msat: u64,
    pub block_height: Option<u32>,
    pub onchain_balance_sats: Option<u64>,
    pub observed_at: Timestamp,
}

/// The mathematical value of a [`NodeSnapshot`].
pub struct NodeSnapshotView {
    pub node_id: Seq<char>,
    pub network: BitcoinNetwork,
    pub channels: Seq<ChannelSnapshotView>,
    pub active_channels_count: u64,
    pub inactive_channels_count: u64,
    pub total_local_balance_msat: u64,
    pub total_remote_balance_msat: u64,
    pub total_capacity_msat: u64,
    pub block_height: Option<u32>,
    pub onchain_balance_sats: Option<u64>,
    pub observed_at: Timestamp,
}

impl DeepView for NodeSnapshot {
    type V = NodeSnapshotView;

    open spec fn deep_view(&self) -> NodeSnapshotView {
        NodeSnapshotView {
            node_id: self.node_id.deep_view(),
            network: self.network,
            channels: self.channels.deep_view(),
            active_channels_count: self.active_channels_count,
            inactive_channels_count: self.inactive_channels_count,
            total_local_balance_msat: self.total_local_balance_msat,
            total_remote_balance_msat: self.total_remote_balance_msat,
            total_capacity_msat: self.total_capacity_msat,
            block_height: self.block_height,
            onchain_balance_sats: self.onchain_balance_sats,
            observed_at: self.observed_at,
        }
    }
}

impl Clone for NodeSnapshot {
    fn clone(&self) -> (r: Self)
        ensures
            r.deep_view() == self.deep_view(),
    {
        let channels = self.channels.clone();
        assert(channels.deep_view() =~= self.channels.deep_view());
        NodeSnapshot {
            node_id: self.node_id.clone(),
            network: self.network,
            channels,
            active_channels_count: self.active_channels_count,
            inactive_channels_count: self.inactive_channels_count,
            total_local_balance_msat: self.total_local_balance_msat,
            total_remote_balance_msat: self.total_remote_balance_msat,
            total_capacity_msat: self.total_capacity_msat,
            block_height: self.block_height,
            onchain_balance_sats: self.onchain_balance_sats,
            observed_at: self.observed_at,
        }
    }
}

/// How many channels are active.
pub open spec fn active_count(channels: Seq<ChannelSnapshotView>) -> nat
    decreases channels.len(),
{
    if channels.len() == 0 {
        0
    } else {
        active_count(channels.drop_last()) + (if channels.last().status == ChannelStatus::Active {
            1nat
        } else {
            0
        })
    }
}

/// The sum of an amount over all channels, held at the greatest amount there is.
pub open spec fn capped_total(
    channels: Seq<ChannelSnapshotView>,
    amount: spec_fn(ChannelSnapshotView) -> u64,
) -> u64
    decreases channels.len(),
{
    if channels.len() == 0 {
        0
    } else {
        let sum = capped_total(channels.drop_last(), amount) + amount(channels.last());
        if sum > u64::MAX {
            u64::MAX
        } else {
            sum as u64
        }
    }
}

/// A balance, as far as it can be used: that of an inactive channel cannot.
pub open spec fn usable(channel: ChannelSnapshotView, balance: u64) -> u64 {
    if channel.status == ChannelStatus::Active {
        balance
    } else {
        0
    }
}

fn capped_add(a: u64, b: u64) -> (r: u64)
    ensures
        r == (if a + b > u64::MAX {
            u64::MAX
        } else {
            (a + b) as u64
        }),
{
    match a.checked_add(b) {
        Some(sum) => sum,
        None => u64::MAX,
    }
}

/// The snapshot of a node with these channels. The capacities of all channels are
/// summed up, but the balances of the active ones only.
pub open spec fn node_snapshot(
    node_id: Seq<char>,
    network: BitcoinNetwork,
    channels: Seq<ChannelSnapshotView>,
    observed_at: Timestamp,
    block_height: Option<u32>,
    onchain_balance_sats: Option<u64>,
) -> NodeSnapshotView {
    NodeSnapshotView {
        node_id,
        network,
        channels,
        active_channels_count: active_count(channels) as u64,
        inactive_channels_count: (channels.len() - active_count(channels)) as u64,
        total_local_balance_msat: capped_total(
            channels,
            |c: ChannelSnapshotView| usable(c, c.local_balance_msat),
        ),
        total_remote_balance_msat: capped_total(
            channels,
            |c: ChannelSnapshotView| usable(c, c.remote_balance_msat),
        ),
        total_capacity_msat: capped_total(channels, |c: ChannelSnapshotView| c.capacity_msat),
        block_height,
        onchain_balance_sats,
        observed_at,
    }
}

impl NodeSnapshot {
    /// The snapshot of a node with these channels.
    pub fn from_channels(
        node_id: String,
        network: BitcoinNetwork,
        channels: Vec<ChannelSnapshot>,
        observed_at: Timestamp,
        block_height: Option<u32>,
        onchain_balance_sats: Option<u64>,
    ) -> (r: NodeSnapshot)
        ensures
            r.deep_view() == node_snapshot(
                node_id@,
                network,
                channels.deep_view(),
                observed_at,
                block_height,
                onchain_balance_sats,
            ),
    {
        let ghost all = channels.deep_view();
        let ghost local = |c: ChannelSnapshotView| usable(c, c.local_balance_msat);
        let ghost remote = |c: ChannelSnapshotView| usable(c, c.remote_balance_msat);
        let ghost capacity = |c: ChannelSnapshotView| c.capacity_msat;
        let mut active: u64 = 0;
        let mut total_local: u64 = 0;
        let mut total_remote: u64 = 0;
        let mut total_capacity: u64 = 0;
        let mut i: usize = 0;
        while i < channels.len()
            invariant
                i <= channels.len(),
                all == channels.deep_view(),
                local == |c: ChannelSnapshotView| usable(c, c.local_balance_msat),
                remote == |c: ChannelSnapshotView| usable(c, c.remote_balance_msat),
                capacity == |c: ChannelSnapshotView| c.capacity_msat,
                active == active_count(all.take(i as int)),
                active <= i,
                total_local == capped_total(all.take(i as int), local),
                total_remote == capped_total(all.take(i as int), remote),
                total_capacity == capped_total(all.take(i as int), capacity),
            decreases channels.len() - i,
        {
            let c = &channels[i];
            assert(all.take(i + 1).drop_last() =~= all.take(i as int));
            assert(all.take(i + 1).last() == c.deep_view());
            if c.status == ChannelStatus::Active {
                active = active + 1;
                total_local = capped_add(total_local, c.local_balance_msat);
                total_remote = capped_add(total_remote, c.remote_balance_msat);
            }
            total_capacity = capped_add(total_capacity, c.capacity_msat);
            i += 1;
        }
        assert(all.take(i as int) =~= all);
        NodeSnapshot {
            node_id,
            network,
            active_channels_count: active,
            inactive_channels_count: channels.len() as u64 - active,
            total_local_balance_msat: total_local,
            total_remote_balance_msat: total_remote,
            total_capacity_msat: total_capacity,
            channels,
            block_height,
            onchain_balance_sats,
            observed_at,
        }
    }
}

/// A named text that came with an invoice.
#[derive(Debug, PartialEq, Eq)]
pub struct MetadataEntry {
    pub key: String,
    pub value: String,
}

/// The mathematical value of a [`MetadataEntry`].
pub struct MetadataEntryView {
    pub key: Seq<char>,
    pub value: Seq<char>,
}

impl DeepView for MetadataEntry {
    type V = MetadataEntryView;

    open spec fn deep_view(&self) -> MetadataEntryView {
        MetadataEntryView {
            key: self.key.deep_view(),
            value: self.value.deep_view(),
        }
    }
}

impl Clone for MetadataEntry {
    fn clone(&self) -> (r: Self)
        ensures
            r.deep_view() == self.deep_view(),
    {
        MetadataEntry {
            key: self.key.clone(),
            value: self.value.clone(),
        }
    }
}

/// An invoice was settled, or is about to be.
#[derive(Debug, PartialEq, Eq)]
pub struct InvoiceSettledEvent {
    pub id: String,
    pub store_id: Option<String>,
    pub payment_method: Option<String>,
    pub amount_msat: u64,
    pub fee_msat: u64,
    pub timestamp: Timestamp,
    pub payment_hash: Option<String>,
    pub metadata: Vec<MetadataEntry>,
}

/// The mathematical value of a [`InvoiceSettledEvent`].
pub struct InvoiceSettledEventView {
    pub id: Seq<char>,
    pub store_id: Option<Seq<char>>,
    pub payment_method: Option<Seq<char>>,
    pub amount_msat: u64,
    pub fee_msat: u64,
    pub timestamp: Timestamp,
    pub payment_hash: Option<Seq<char>>,
    pub metadata: Seq<MetadataEntryView>,
}

impl DeepView for InvoiceSettledEvent {
    type V = InvoiceSettledEventView;

    open spec fn deep_view(&self) -> InvoiceSettledEventView {
        InvoiceSettledEventView {
            id: self.id.deep_view(),
            store_id: self.store_id.deep_view(),
            payment_method: self.payment_method.deep_view(),
            amount_msat: self.amount_msat,
            fee_msat: self.fee_msat,
            timestamp: self.timestamp,
            payment_hash: self.payment_hash.deep_view(),
            metadata: self.metadata.deep_view(),
        }
    }
}

impl Clone for InvoiceSettledEvent {
    fn clone(&self) -> (r: Self)
        ensures
            r.deep_view() == self.deep_view(),
    {
        let metadata = self.metadata.clone();
        assert(metadata.deep_view() =~= self.metadata.deep_view());
        InvoiceSettledEvent {
            id: self.id.clone(),
            store_id: copy_optional_text(&self.store_id),
            payment_method: copy_optional_text(&self.payment_method),
            amount_msat: self.amount_msat,
            fee_msat: self.fee_msat,
            timestamp: self.timestamp,
            payment_hash: copy_optional_text(&self.payment_hash),
            metadata,
        }
    }
}

impl InvoiceSettledEvent {
    /// The text that came with the invoice under `key`.
    pub fn metadata_value(&self, key: &str) -> (r: Option<&str>)
        ensures
            r.deep_view() == metadata_text(self.deep_view().metadata, key@),
    {
        let ghost all = self.metadata.deep_view();
        let mut i: usize = 0;
        assert(all.skip(0) =~= all);
        while i < self.metadata.len()
            invariant
                i <= self.metadata.len(),
                all == self.metadata.deep_view(),
                metadata_text(all, key@) == metadata_text(all.skip(i as int), key@),
            decreases self.metadata.len() - i,
        {
            assert(all.skip(i as int)[0] == self.metadata[i as int].deep_view());
            if text::same_text(self.metadata[i].key.as_str(), key) {
                return Some(self.metadata[i].value.as_str());
            }
            assert(all.skip(i as int).skip(1) =~= all.skip(i + 1));
            i += 1;
        }
        None
    }
}

/// The first text under `key`.
pub open spec fn metadata_text(entries: Seq<MetadataEntryView>, key: Seq<char>) -> Option<
    Seq<char>,
>
    decreases entries.len(),
{
    if entries.len() == 0 {
        None
    } else if entries[0].key == key {
        Some(entries[0].value)
    } else {
        metadata_text(entries.skip(1), key)
    }
}

/// A payment towards an invoice came in.
#[derive(Debug, PartialEq, Eq)]
pub struct InvoicePaymentReceivedEvent {
    pub id: String,
    pub store_id: Option<String>,
    pub payment_method: Option<String>,
    pub amount_msat: u64,
    pub fee_msat: u64,
    pub timestamp: Timestamp,
}

/// The mathematical value of a [`InvoicePaymentReceivedEvent`].
pub struct InvoicePaymentReceivedEventView {
    pub id: Seq<char>,
    pub store_id: Option<Seq<char>>,
    pub payment_method: Option<Seq<char>>,
    pub amount_msat: u64,
    pub fee_msat: u64,
    pub timestamp: Timestamp,
}

impl DeepView for InvoicePaymentReceivedEvent {
    type V = InvoicePaymentReceivedEventView;

    open spec fn deep_view(&self) -> InvoicePaymentReceivedEventView {
        InvoicePaymentReceivedEventView {
            id: self.id.deep_view(),
            store_id: self.store_id.deep_view(),
            payment_method: self.payment_method.deep_view(),
            amount_msat: self.amount_msat,
            fee_msat: self.fee_msat,
            timestamp: self.timestamp,
        }
    }
}

impl Clone for InvoicePaymentReceivedEvent {
    fn clone(&self) -> (r: Self)
        ensures
            r.deep_view() == self.deep_view(),
    {
        InvoicePaymentReceivedEvent {
            id: self.id.clone(),
            store_id: copy_optional_text(&self.store_id),
            payment_method: copy_optional_text(&self.payment_method),
            amount_msat: self.amount_msat,
            fee_msat: self.fee_msat,
            timestamp: self.timestamp,
        }
    }
}

/// An invoice expired, or turned out invalid.
#[derive(Debug, PartialEq, Eq)]
pub struct InvoiceExpiredEvent {
    pub id: String,
    pub store_id: Option<String>,
    pub amount_msat: Option<u64>,
    pub timestamp: Timestamp,
}

/// The mathematical value of a [`InvoiceExpiredEvent`].
pub struct InvoiceExpiredEventView {
    pub id: Seq<char>,
    pub store_id: Option<Seq<char>>,
    pub amount_msat: Option<u64>,
    pub timestamp: Timestamp,
}

impl DeepView for InvoiceExpiredEvent {
    type V = InvoiceExpiredEventView;

    open spec fn deep_view(&self) -> InvoiceExpiredEventView {
        InvoiceExpiredEventView {
            id: self.id.deep_view(),
            store_id: self.store_id.deep_view(),
            amount_msat: self.amount_msat,
            timestamp: self.timestamp,
        }
    }
}

impl Clone for InvoiceExpiredEvent {
    fn clone(&self) -> (r: Self)
        ensures
            r.deep_view() == self.deep_view(),
    {
        InvoiceExpiredEvent {
            id: self.id.clone(),
            store_id: copy_optional_text(&self.store_id),
            amount_msat: self.amount_msat,
            timestamp: self.timestamp,
        }
    }
}

/// Something that happened at a node or a store.
#[derive(Debug, PartialEq, Eq)]
pub enum NodeEvent {
    InvoiceSettled(InvoiceSettledEvent),
    InvoicePaymentReceived(InvoicePaymentReceivedEvent),
    InvoiceExpired(InvoiceExpiredEvent),
}

/// The mathematical value of a [`NodeEvent`].
pub enum NodeEventView {
    InvoiceSettled(InvoiceSettledEventView),
    InvoicePaymentReceived(InvoicePaymentReceivedEventView),
    InvoiceExpired(InvoiceExpiredEventView),
}

impl DeepView for NodeEvent {
    type V = NodeEventView;

    open spec fn deep_view(&self) -> NodeEventView {
        match self {
            NodeEvent::InvoiceSettled(e) => NodeEventView::InvoiceSettled(e.deep_view()),
            NodeEvent::InvoicePaymentReceived(e) => NodeEventView::InvoicePaymentReceived(
                e.deep_view(),
            ),
            NodeEvent::InvoiceExpired(e) => NodeEventView::InvoiceExpired(e.deep_view()),
        }
    }
}

impl Clone for NodeEvent {
    fn clone(&self) -> (r: Self)
        ensures
            r.deep_view() == self.deep_view(),
    {
        match self {
            NodeEvent::InvoiceSettled(e) => NodeEvent::InvoiceSettled(e.clone()),
            NodeEvent::InvoicePaymentReceived(e) => NodeEvent::InvoicePaymentReceived(e.clone()),
            NodeEvent::InvoiceExpired(e) => NodeEvent::InvoiceExpired(e.clone()),
        }
    }
}

/// One more channel adds its capacity to a node's. It adds its balances, each to
/// its own side, exactly if it is active. No sum grows beyond the greatest
/// amount there is.
pub proof fn lemma_one_more_channel(
    node_id: Seq<char>,
    network: BitcoinNetwork,
    channels: Seq<ChannelSnapshotView>,
    c: ChannelSnapshotView,
    observed_at: Timestamp,
    block_height: Option<u32>,
    onchain_balance_sats: Option<u64>,
)
    requires
        channels.len() < u64::MAX,
    ensures
        ({
            let n = node_snapshot(
                node_id,
                network,
                channels,
                observed_at,
                block_height,
                onchain_balance_sats,
            );
            let m = node_snapshot(
                node_id,
                network,
                channels.push(c),
                observed_at,
                block_height,
                onchain_balance_sats,
            );
            let active = c.status is Active;
            &&& active ==> m.active_channels_count == n.active_channels_count + 1
                && m.inactive_channels_count == n.inactive_channels_count
            &&& !active ==> m.active_channels_count == n.active_channels_count
                && m.inactive_channels_count == n.inactive_channels_count + 1
            &&& active && n.total_local_balance_msat + c.local_balance_msat <= u64::MAX
                ==> m.total_local_balance_msat == n.total_local_balance_msat
                + c.local_balance_msat
            &&& active && n.total_local_balance_msat + c.local_balance_msat > u64::MAX
                ==> m.total_local_balance_msat == u64::MAX
            &&& active && n.total_remote_balance_msat + c.remote_balance_msat <= u64::MAX
                ==> m.total_remote_balance_msat == n.total_remote_balance_msat
                + c.remote_balance_msat
            &&& active && n.total_remote_balance_msat + c.remote_balance_msat > u64::MAX
                ==> m.total_remote_balance_msat == u64::MAX
            &&& !active ==> m.total_local_balance_msat == n.total_local_balance_msat
                && m.total_remote_balance_msat == n.total_remote_balance_msat
            &&& n.total_capacity_msat + c.capacity_msat <= u64::MAX ==> m.total_capacity_msat
                == n.total_capacity_msat + c.capacity_msat
            &&& n.total_capacity_msat + c.capacity_msat > u64::MAX ==> m.total_capacity_msat
                == u64::MAX
        }),
{
    assert(channels.push(c).drop_last() =~= channels);
    lemma_active_count_bound(channels);
    lemma_active_count_bound(channels.push(c));
}

proof fn lemma_active_count_bound(channels: Seq<ChannelSnapshotView>)
    ensures
        active_count(channels) <= channels.len(),
    decreases channels.len(),
{
    if channels.len() > 0 {
        lemma_active_count_bound(channels.drop_last());
    }
}

/// A node without channels has nothing, and a node snapshot names its node, its
/// network and its moment, and lists its channels as they are.
pub proof fn lemma_node_snapshots_begin_empty(
    node_id: Seq<char>,
    network: BitcoinNetwork,
    channels: Seq<ChannelSnapshotView>,
    observed_at: Timestamp,
    block_height: Option<u32>,
    onchain_balance_sats: Option<u64>,
)
    ensures
        ({
            let n = node_snapshot(
                node_id,
                network,
                channels,
                observed_at,
                block_height,
                onchain_balance_sats,
            );
            &&& n.node_id == node_id && n.network == network && n.observed_at == observed_at
            &&& n.channels == channels
            &&& n.block_height == block_height
            &&& n.onchain_balance_sats == onchain_balance_sats
            &&& channels.len() == 0 ==> n.active_channels_count == n.inactive_channels_count
                == n.total_local_balance_msat == n.total_remote_balance_msat
                == n.total_capacity_msat == 0
        }),
{
}

/// The text under a key is that of the first entry of this key.
pub proof fn lemma_the_first_entry_counts(
    entry: MetadataEntryView,
    rest: Seq<MetadataEntryView>,
    key: Seq<char>,
)
    ensures
        metadata_text(seq![], key) is None,
        entry.key == key ==> metadata_text(seq![entry] + rest, key) == Some(entry.value),
        entry.key != key ==> metadata_text(seq![entry] + rest, key) == metadata_text(rest, key),
{
    assert((seq![entry] + rest).skip(1) =~= rest);
}

} // verus!
