//! The live graph of nodes and channels, held in memory.
use crate::domain::{
    Channel, ChannelId, ChannelView, ForwardEvent, ForwardEventView, Node, NodeId, NodeStatus,
    NodeView, PaymentEvent, PaymentEventView,
};
use crate::path;
use crate::path::{find_path, Path};
use crate::text::same_text;
use crate::time::Timestamp;
use vstd::prelude::*;

verus! {

/// Why the graph cannot do what it is asked to.
#[derive(Debug, PartialEq, Eq)]
pub enum GraphError {
    NodeNotFound(NodeId),
    ChannelNotFound(ChannelId),
}

impl GraphError {
    /// What the error says.
    pub fn to_text(&self) -> (r: String)
        ensures
            r@ == (match self {
                GraphError::NodeNotFound(id) => "node "@ + id.deep_view() + " not found"@,
                GraphError::ChannelNotFound(id) => "channel "@ + id.deep_view() + " not found"@,
            }),
    {
        match self {
            GraphError::NodeNotFound(id) => "node ".to_owned().concat(id.as_str()).concat(
                " not found",
            ),
            GraphError::ChannelNotFound(id) => "channel ".to_owned().concat(id.as_str()).concat(
                " not found",
            ),
        }
    }
}

/// The outcome of writing to the graph.
pub type GraphResult<T> = Result<T, GraphError>;

/// When a source was last seen.
pub struct LedgerView {
    pub source: Seq<char>,
    pub at: Timestamp,
}

/// The mathematical value of a graph.
pub struct GraphModel {
    pub nodes: Seq<NodeView>,
    pub channels: Seq<ChannelView>,
    pub forwards: Seq<ForwardEventView>,
    pub payments: Seq<PaymentEventView>,
    pub ledger: Seq<LedgerView>,
}

/// The place of the first node with this identity, or the number of nodes.
pub open spec fn node_place(nodes: Seq<NodeView>, id: Seq<char>) -> int
    decreases nodes.len(),
{
    if nodes.len() == 0 || nodes[0].id == id {
        0
    } else {
        1 + node_place(nodes.skip(1), id)
    }
}

/// The place of the first channel with this identity, or the number of channels.
pub open spec fn channel_place(channels: Seq<ChannelView>, id: Seq<char>) -> int
    decreases channels.len(),
{
    if channels.len() == 0 || channels[0].id == id {
        0
    } else {
        1 + channel_place(channels.skip(1), id)
    }
}

/// The place of the first entry for a source, or the number of entries.
pub open spec fn ledger_place(ledger: Seq<LedgerView>, source: Seq<char>) -> int
    decreases ledger.len(),
{
    if ledger.len() == 0 || ledger[0].source == source {
        0
    } else {
        1 + ledger_place(ledger.skip(1), source)
    }
}

/// What stands at a place, if anything does.
pub open spec fn found<T>(all: Seq<T>, place: int) -> Option<T> {
    if 0 <= place < all.len() {
        Some(all[place])
    } else {
        None
    }
}

/// The list with `item` at a place, or behind the end.
pub open spec fn put<T>(all: Seq<T>, place: int, item: T) -> Seq<T> {
    if 0 <= place < all.len() {
        all.update(place, item)
    } else {
        all.push(item)
    }
}

/// The last `limit` items, the newest first.
pub open spec fn newest_first<T>(all: Seq<T>, limit: nat) -> Seq<T> {
    Seq::new(
        if limit < all.len() {
            limit
        } else {
            all.len()
        },
        |i: int| all[all.len() - 1 - i],
    )
}

/// Where the node or channel behind a name stands, each name stands once.
pub open spec fn distinct(m: GraphModel) -> bool {
    &&& forall|i: int, j: int|
        0 <= i < j < m.nodes.len() ==> (#[trigger] m.nodes[i]).id != (#[trigger] m.nodes[j]).id
    &&& forall|i: int, j: int|
        0 <= i < j < m.channels.len() ==> (#[trigger] m.channels[i]).id != (
        #[trigger] m.channels[j]).id
    &&& forall|i: int, j: int|
        0 <= i < j < m.ledger.len() ==> (#[trigger] m.ledger[i]).source != (
        #[trigger] m.ledger[j]).source
}

/// The channels that have a node at one of their ends, in order.
pub open spec fn channels_at(channels: Seq<ChannelView>, node: Seq<char>) -> Seq<ChannelView>
    decreases channels.len(),
{
    if channels.len() == 0 {
        seq![]
    } else {
        let before = channels_at(channels.drop_last(), node);
        if path::touches(channels.last(), node) {
            before.push(channels.last())
        } else {
            before
        }
    }
}

/// The capacity of all these channels together.
pub open spec fn capacity_sum(channels: Seq<ChannelView>) -> nat
    decreases channels.len(),
{
    if channels.len() == 0 {
        0
    } else {
        capacity_sum(channels.drop_last()) + channels.last().capacity_msat as nat
    }
}

/// How many of these channels are open.
pub open spec fn open_count(channels: Seq<ChannelView>) -> nat
    decreases channels.len(),
{
    if channels.len() == 0 {
        0
    } else {
        open_count(channels.drop_last()) + (if channels.last().status.open_for_use() {
            1nat
        } else {
            0
        })
    }
}

/// The graph with a node in it, in place of one of the same identity.
pub open spec fn with_node(m: GraphModel, node: NodeView) -> GraphModel {
    GraphModel { nodes: put(m.nodes, node_place(m.nodes, node.id), node), ..m }
}

/// What is known of a node that only a channel speaks of.
pub open spec fn bare_node(id: Seq<char>, last_seen: Timestamp) -> NodeView {
    NodeView { id, alias: None, version: None, status: NodeStatus::Unknown, last_seen }
}

/// The graph with a channel in it, in place of one of the same identity. A peer
/// that is not known yet comes in with it.
pub open spec fn with_channel(m: GraphModel, channel: ChannelView) -> GraphModel {
    GraphModel {
        nodes: if node_place(m.nodes, channel.peer) < m.nodes.len() {
            m.nodes
        } else {
            m.nodes.push(bare_node(channel.peer, channel.last_seen))
        },
        channels: put(m.channels, channel_place(m.channels, channel.id), channel),
        ..m
    }
}

/// The graph with all these channels put in, one after the other.
pub open spec fn with_channels(m: GraphModel, channels: Seq<ChannelView>) -> GraphModel
    decreases channels.len(),
{
    if channels.len() == 0 {
        m
    } else {
        with_channel(with_channels(m, channels.drop_last()), channels.last())
    }
}

/// The graph that has last seen a source at this moment.
pub open spec fn with_seen(m: GraphModel, source: Seq<char>, at: Timestamp) -> GraphModel {
    GraphModel {
        ledger: put(m.ledger, ledger_place(m.ledger, source), LedgerView { source, at }),
        ..m
    }
}

/// What can be read from a graph.
pub trait GraphView {
    /// The mathematical value of the graph.
    spec fn model(&self) -> GraphModel;

    /// All nodes.
    fn nodes(&self) -> (r: Vec<&Node>)
        ensures
            r.deep_view() == self.model().nodes,
    ;

    /// The node of this identity.
    fn node(&self, id: &NodeId) -> (r: Option<&Node>)
        ensures
            r.deep_view() == found(
                self.model().nodes,
                node_place(self.model().nodes, id.deep_view()),
            ),
    ;

    /// All channels.
    fn channels(&self) -> (r: Vec<&Channel>)
        ensures
            r.deep_view() == self.model().channels,
    ;

    /// The channel of this identity.
    fn channel(&self, id: &ChannelId) -> (r: Option<&Channel>)
        ensures
            r.deep_view() == found(
                self.model().channels,
                channel_place(self.model().channels, id.deep_view()),
            ),
    ;

    /// The channels that have a node at one of their ends.
    fn channels_for_peer(&self, peer: &NodeId) -> (r: Vec<&Channel>)
        ensures
            r.deep_view() == channels_at(self.model().channels, peer.deep_view()),
    ;

    /// The newest forwarded payments, at most `limit`.
    fn recent_forwards(&self, limit: usize) -> (r: Vec<&ForwardEvent>)
        ensures
            r.deep_view() == newest_first(self.model().forwards, limit as nat),
    ;

    /// The newest payments, at most `limit`.
    fn recent_payments(&self, limit: usize) -> (r: Vec<&PaymentEvent>)
        ensures
            r.deep_view() == newest_first(self.model().payments, limit as nat),
    ;
}

/// What can be written to a graph. Nodes, channels and sources are put in under
/// their identities, so that writing the same thing twice changes nothing.
pub trait GraphStore: GraphView {
    /// Puts in a node.
    fn upsert_node(&mut self, node: Node) -> (r: GraphResult<()>)
        ensures
            r is Ok,
            final(self).model() == with_node(old(self).model(), node.deep_view()),
    ;

    /// Puts in a channel, and its peer where that is not known yet.
    fn upsert_channel(&mut self, channel: Channel) -> (r: GraphResult<()>)
        ensures
            r is Ok,
            final(self).model() == with_channel(old(self).model(), channel.deep_view()),
    ;

    /// Puts in channels and says how many there were.
    fn upsert_channels(&mut self, channels: Vec<Channel>) -> (r: GraphResult<usize>)
        ensures
            r == Ok::<usize, GraphError>(channels@.len() as usize),
            final(self).model() == with_channels(old(self).model(), channels.deep_view()),
    ;

    /// Keeps a forwarded payment.
    fn record_forward(&mut self, event: ForwardEvent)
        ensures
            final(self).model() == (GraphModel {
                forwards: old(self).model().forwards.push(event.deep_view()),
                ..old(self).model()
            }),
    ;

    /// Keeps a payment.
    fn record_payment(&mut self, event: PaymentEvent)
        ensures
            final(self).model() == (GraphModel {
                payments: old(self).model().payments.push(event.deep_view()),
                ..old(self).model()
            }),
    ;

    /// Notes when a source was last seen.
    fn mark_source_seen(&mut self, source: &str, at: Timestamp)
        ensures
            final(self).model() == with_seen(old(self).model(), source@, at),
    ;

    /// When a source was last seen.
    fn source_last_seen(&self, source: &str) -> (r: Option<Timestamp>)
        ensures
            r == (match found(
                self.model().ledger,
                ledger_place(self.model().ledger, source@),
            ) {
                Some(entry) => Some(entry.at),
                None => None,
            }),
    ;
}

#[derive(Debug)]
struct LedgerEntry {
    source: String,
    at: Timestamp,
}

impl DeepView for LedgerEntry {
    type V = LedgerView;

    closed spec fn deep_view(&self) -> LedgerView {
        LedgerView { source: self.source@, at: self.at }
    }
}

impl Clone for LedgerEntry {
    fn clone(&self) -> (r: Self)
        ensures
            r.deep_view() == self.deep_view(),
    {
        LedgerEntry { source: self.source.clone(), at: self.at }
    }
}

/// A graph held in memory.
#[derive(Debug)]
pub struct InMemoryGraph {
    nodes: Vec<Node>,
    channels: Vec<Channel>,
    forwards: Vec<ForwardEvent>,
    payments: Vec<PaymentEvent>,
    ledger: Vec<LedgerEntry>,
}

proof fn lemma_node_place(nodes: Seq<NodeView>, id: Seq<char>, k: int)
    requires
        0 <= k <= nodes.len(),
        forall|i: int| 0 <= i < k ==> (#[trigger] nodes[i]).id != id,
        k < nodes.len() ==> nodes[k].id == id,
    ensures
        node_place(nodes, id) == k,
    decreases k,
{
    if k > 0 {
        assert(nodes[0].id != id);
        assert forall|i: int| 0 <= i < k - 1 implies (#[trigger] nodes.skip(1)[i]).id != id by {
            assert(nodes[i + 1].id != id);
        }
        lemma_node_place(nodes.skip(1), id, k - 1);
    }
}

proof fn lemma_channel_place(channels: Seq<ChannelView>, id: Seq<char>, k: int)
    requires
        0 <= k <= channels.len(),
        forall|i: int| 0 <= i < k ==> (#[trigger] channels[i]).id != id,
        k < channels.len() ==> channels[k].id == id,
    ensures
        channel_place(channels, id) == k,
    decreases k,
{
    if k > 0 {
        assert(channels[0].id != id);
        assert forall|i: int| 0 <= i < k - 1 implies (#[trigger] channels.skip(1)[i]).id != id by {
            assert(channels[i + 1].id != id);
        }
        lemma_channel_place(channels.skip(1), id, k - 1);
    }
}

proof fn lemma_ledger_place(ledger: Seq<LedgerView>, source: Seq<char>, k: int)
    requires
        0 <= k <= ledger.len(),
        forall|i: int| 0 <= i < k ==> (#[trigger] ledger[i]).source != source,
        k < ledger.len() ==> ledger[k].source == source,
    ensures
        ledger_place(ledger, source) == k,
    decreases k,
{
    if k > 0 {
        assert(ledger[0].source != source);
        assert forall|i: int| 0 <= i < k - 1 implies (#[trigger] ledger.skip(1)[i]).source
            != source by {
            assert(ledger[i + 1].source != source);
        }
        lemma_ledger_place(ledger.skip(1), source, k - 1);
    }
}

impl Default for InMemoryGraph {
    fn default() -> (r: Self)
        ensures
            r.model() == (GraphModel {
                nodes: seq![],
                channels: seq![],
                forwards: seq![],
                payments: seq![],
                ledger: seq![],
            }),
    {
        InMemoryGraph::new()
    }
}

impl Clone for InMemoryGraph {
    fn clone(&self) -> (r: Self)
        ensures
            r.model() == self.model(),
    {
        let nodes = self.nodes.clone();
        let channels = self.channels.clone();
        let forwards = self.forwards.clone();
        let payments = self.payments.clone();
        let ledger = self.ledger.clone();
        assert(nodes.deep_view() =~= self.nodes.deep_view());
        assert(channels.deep_view() =~= self.channels.deep_view());
        assert(forwards.deep_view() =~= self.forwards.deep_view());
        assert(payments.deep_view() =~= self.payments.deep_view());
        assert(ledger.deep_view() =~= self.ledger.deep_view());
        InMemoryGraph { nodes, channels, forwards, payments, ledger }
    }
}

impl InMemoryGraph {
    /// A graph with nothing in it.
    pub fn new() -> (r: InMemoryGraph)
        ensures
            r.model() == (GraphModel {
                nodes: seq![],
                channels: seq![],
                forwards: seq![],
                payments: seq![],
                ledger: seq![],
            }),
    {
        let r = InMemoryGraph {
            nodes: Vec::new(),
            channels: Vec::new(),
            forwards: Vec::new(),
            payments: Vec::new(),
            ledger: Vec::new(),
        };
        assert(r.nodes.deep_view() =~= seq![]);
        assert(r.channels.deep_view() =~= seq![]);
        assert(r.forwards.deep_view() =~= seq![]);
        assert(r.payments.deep_view() =~= seq![]);
        assert(r.ledger.deep_view() =~= seq![]);
        r
    }

    /// How many nodes and channels there are.
    pub fn len(&self) -> (r: (usize, usize))
        ensures
            r.0 == self.model().nodes.len(),
            r.1 == self.model().channels.len(),
    {
        (self.nodes.len(), self.channels.len())
    }

    /// Whether there is neither a node nor a channel.
    pub fn is_empty(&self) -> (r: bool)
        ensures
            r == (self.model().nodes.len() == 0 && self.model().channels.len() == 0),
    {
        self.nodes.len() == 0 && self.channels.len() == 0
    }

    fn place_of_node(&self, id: &NodeId) -> (r: usize)
        ensures
            r == node_place(self.model().nodes, id.deep_view()),
            r <= self.nodes.len(),
    {
        let ghost all = self.nodes.deep_view();
        let mut i: usize = 0;
        while i < self.nodes.len()
            invariant
                i <= self.nodes.len(),
                all == self.nodes.deep_view(),
                forall|k: int| 0 <= k < i ==> (#[trigger] all[k]).id != id.deep_view(),
            decreases self.nodes.len() - i,
        {
            assert(all[i as int] == self.nodes[i as int].deep_view());
            if same_text(self.nodes[i].id.as_str(), id.as_str()) {
                proof {
                    lemma_node_place(all, id.deep_view(), i as int);
                }
                return i;
            }
            i += 1;
        }
        proof {
            lemma_node_place(all, id.deep_view(), i as int);
        }
        i
    }

    fn place_of_channel(&self, id: &ChannelId) -> (r: usize)
        ensures
            r == channel_place(self.model().channels, id.deep_view()),
            r <= self.channels.len(),
    {
        let ghost all = self.channels.deep_view();
        let mut i: usize = 0;
        while i < self.channels.len()
            invariant
                i <= self.channels.len(),
                all == self.channels.deep_view(),
                forall|k: int| 0 <= k < i ==> (#[trigger] all[k]).id != id.deep_view(),
            decreases self.channels.len() - i,
        {
            assert(all[i as int] == self.channels[i as int].deep_view());
            if same_text(self.channels[i].id.as_str(), id.as_str()) {
                proof {
                    lemma_channel_place(all, id.deep_view(), i as int);
                }
                return i;
            }
            i += 1;
        }
        proof {
            lemma_channel_place(all, id.deep_view(), i as int);
        }
        i
    }

    fn place_of_source(&self, source: &str) -> (r: usize)
        ensures
            r == ledger_place(self.model().ledger, source@),
            r <= self.ledger.len(),
    {
        let ghost all = self.ledger.deep_view();
        let mut i: usize = 0;
        while i < self.ledger.len()
            invariant
                i <= self.ledger.len(),
                all == self.ledger.deep_view(),
                forall|k: int| 0 <= k < i ==> (#[trigger] all[k]).source != source@,
            decreases self.ledger.len() - i,
        {
            assert(all[i as int] == self.ledger[i as int].deep_view());
            if same_text(self.ledger[i].source.as_str(), source) {
                proof {
                    lemma_ledger_place(all, source@, i as int);
                }
                return i;
            }
            i += 1;
        }
        proof {
            lemma_ledger_place(all, source@, i as int);
        }
        i
    }

    /// The cheapest route from `source` to `target` for `amount_msat`.
    pub fn find_path(&self, source: &NodeId, target: &NodeId, amount_msat: u64) -> (r: Option<Path>)
        ensures
            r is Some == path::reachable(
                self.model().channels,
                source.deep_view(),
                target.deep_view(),
                amount_msat,
            ),
            match r {
                Some(found) => path::cheapest(
                    found.deep_view(),
                    self.model().channels,
                    source.deep_view(),
                    target.deep_view(),
                    amount_msat,
                ),
                None => true,
            },
            source.deep_view() == target.deep_view() ==> (r matches Some(found) && found.hops@.len()
                == 0 && found.total_cost_msat == 0),
    {
        find_path(source, target, amount_msat, &self.channels)
    }

    /// The capacity of all channels with a peer, where an amount can hold it.
    pub fn total_capacity_with_peer(&self, peer: &NodeId) -> (r: u64)
        requires
            capacity_sum(channels_at(self.model().channels, peer.deep_view())) <= u64::MAX,
        ensures
            r == capacity_sum(channels_at(self.model().channels, peer.deep_view())),
    {
        let found = self.channels_for_peer(peer);
        let ghost all = found.deep_view();
        let mut total: u64 = 0;
        let mut i: usize = 0;
        while i < found.len()
            invariant
                i <= found.len(),
                all == found.deep_view(),
                capacity_sum(all) <= u64::MAX,
                total == capacity_sum(all.take(i as int)),
            decreases found.len() - i,
        {
            assert(all.take(i + 1).drop_last() =~= all.take(i as int));
            assert(all.take(i + 1).last() == found[i as int].deep_view());
            proof {
                lemma_capacity_grows(all, i + 1);
            }
            total = total + found[i].capacity_msat;
            i += 1;
        }
        assert(all.take(i as int) =~= all);
        total
    }

    /// How many open channels there are with a peer.
    pub fn channel_count_with_peer(&self, peer: &NodeId) -> (r: usize)
        ensures
            r == open_count(channels_at(self.model().channels, peer.deep_view())),
    {
        let found = self.channels_for_peer(peer);
        let ghost all = found.deep_view();
        let mut count: usize = 0;
        let mut i: usize = 0;
        while i < found.len()
            invariant
                i <= found.len(),
                all == found.deep_view(),
                count <= i,
                count == open_count(all.take(i as int)),
            decreases found.len() - i,
        {
            assert(all.take(i + 1).drop_last() =~= all.take(i as int));
            assert(all.take(i + 1).last() == found[i as int].deep_view());
            if found[i].status.is_open() {
                count = count + 1;
            }
            i += 1;
        }
        assert(all.take(i as int) =~= all);
        count
    }
}

proof fn lemma_capacity_grows(channels: Seq<ChannelView>, k: int)
    requires
        0 <= k <= channels.len(),
    ensures
        capacity_sum(channels.take(k)) <= capacity_sum(channels),
    decreases channels.len(),
{
    if k < channels.len() {
        lemma_capacity_grows(channels.drop_last(), k);
        assert(channels.drop_last().take(k) =~= channels.take(k));
    } else {
        assert(channels.take(k) =~= channels);
    }
}

impl GraphView for InMemoryGraph {
    closed spec fn model(&self) -> GraphModel {
        GraphModel {
            nodes: self.nodes.deep_view(),
            channels: self.channels.deep_view(),
            forwards: self.forwards.deep_view(),
            payments: self.payments.deep_view(),
            ledger: self.ledger.deep_view(),
        }
    }

    fn nodes(&self) -> (r: Vec<&Node>) {
        let mut out: Vec<&Node> = Vec::new();
        let mut i: usize = 0;
        while i < self.nodes.len()
            invariant
                i <= self.nodes.len(),
                out.deep_view() == self.nodes.deep_view().take(i as int),
            decreases self.nodes.len() - i,
        {
            let ghost before = out.deep_view();
            out.push(&self.nodes[i]);
            assert(out.deep_view() =~= before.push(self.nodes[i as int].deep_view()));
            assert(out.deep_view() =~= self.nodes.deep_view().take(i + 1));
            i += 1;
        }
        assert(self.nodes.deep_view().take(i as int) =~= self.nodes.deep_view());
        out
    }

    fn node(&self, id: &NodeId) -> (r: Option<&Node>) {
        let i = self.place_of_node(id);
        if i < self.nodes.len() {
            Some(&self.nodes[i])
        } else {
            None
        }
    }

    fn channels(&self) -> (r: Vec<&Channel>) {
        let mut out: Vec<&Channel> = Vec::new();
        let mut i: usize = 0;
        while i < self.channels.len()
            invariant
                i <= self.channels.len(),
                out.deep_view() == self.channels.deep_view().take(i as int),
            decreases self.channels.len() - i,
        {
            let ghost before = out.deep_view();
            out.push(&self.channels[i]);
            assert(out.deep_view() =~= before.push(self.channels[i as int].deep_view()));
            assert(out.deep_view() =~= self.channels.deep_view().take(i + 1));
            i += 1;
        }
        assert(self.channels.deep_view().take(i as int) =~= self.channels.deep_view());
        out
    }

    fn channel(&self, id: &ChannelId) -> (r: Option<&Channel>) {
        let i = self.place_of_channel(id);
        if i < self.channels.len() {
            Some(&self.channels[i])
        } else {
            None
        }
    }

    fn channels_for_peer(&self, peer: &NodeId) -> (r: Vec<&Channel>) {
        let ghost all = self.channels.deep_view();
        let mut out: Vec<&Channel> = Vec::new();
        let mut i: usize = 0;
        assert(out.deep_view() =~= channels_at(all.take(0), peer.deep_view()));
        while i < self.channels.len()
            invariant
                i <= self.channels.len(),
                all == self.channels.deep_view(),
                out.deep_view() == channels_at(all.take(i as int), peer.deep_view()),
            decreases self.channels.len() - i,
        {
            let channel = &self.channels[i];
            assert(all.take(i + 1).drop_last() =~= all.take(i as int));
            assert(all.take(i + 1).last() == channel.deep_view());
            if same_text(peer.as_str(), channel.node.as_str()) || same_text(
                peer.as_str(),
                channel.peer.as_str(),
            ) {
                let ghost before = out.deep_view();
                out.push(channel);
                assert(out.deep_view() =~= before.push(channel.deep_view()));
            }
            i += 1;
        }
        assert(all.take(i as int) =~= all);
        out
    }

    fn recent_forwards(&self, limit: usize) -> (r: Vec<&ForwardEvent>) {
        let ghost all = self.forwards.deep_view();
        let mut out: Vec<&ForwardEvent> = Vec::new();
        while out.len() < limit && out.len() < self.forwards.len()
            invariant
                all == self.forwards.deep_view(),
                out.len() <= limit,
                out.len() <= self.forwards.len(),
                forall|i: int|
                    0 <= i < out.len() ==> #[trigger] out.deep_view()[i] == all[all.len() - 1 - i],
            decreases self.forwards.len() - out.len(),
        {
            let ghost before = out.deep_view();
            let event = &self.forwards[self.forwards.len() - 1 - out.len()];
            out.push(event);
            assert(out.deep_view() =~= before.push(event.deep_view()));
        }
        assert(out.deep_view() =~= newest_first(all, limit as nat));
        out
    }

    fn recent_payments(&self, limit: usize) -> (r: Vec<&PaymentEvent>) {
        let ghost all = self.payments.deep_view();
        let mut out: Vec<&PaymentEvent> = Vec::new();
        while out.len() < limit && out.len() < self.payments.len()
            invariant
                all == self.payments.deep_view(),
                out.len() <= limit,
                out.len() <= self.payments.len(),
                forall|i: int|
                    0 <= i < out.len() ==> #[trigger] out.deep_view()[i] == all[all.len() - 1 - i],
            decreases self.payments.len() - out.len(),
        {
            let ghost before = out.deep_view();
            let event = &self.payments[self.payments.len() - 1 - out.len()];
            out.push(event);
            assert(out.deep_view() =~= before.push(event.deep_view()));
        }
        assert(out.deep_view() =~= newest_first(all, limit as nat));
        out
    }
}

impl GraphStore for InMemoryGraph {
    fn upsert_node(&mut self, node: Node) -> (r: GraphResult<()>) {
        let i = self.place_of_node(&node.id);
        let ghost before = self.nodes.deep_view();
        let ghost view = node.deep_view();
        if i < self.nodes.len() {
            self.nodes.set(i, node);
            assert(self.nodes.deep_view() =~= before.update(i as int, view));
        } else {
            self.nodes.push(node);
            assert(self.nodes.deep_view() =~= before.push(view));
        }
        Ok(())
    }

    fn upsert_channel(&mut self, channel: Channel) -> (r: GraphResult<()>) {
        let ghost view = channel.deep_view();
        let known = self.place_of_node(&channel.peer);
        if known == self.nodes.len() {
            let ghost before = self.nodes.deep_view();
            let peer = Node {
                id: channel.peer.clone(),
                alias: None,
                version: None,
                status: NodeStatus::Unknown,
                last_seen: channel.last_seen,
            };
            self.nodes.push(peer);
            assert(self.nodes.deep_view() =~= before.push(peer.deep_view()));
        }
        let i = self.place_of_channel(&channel.id);
        let ghost before = self.channels.deep_view();
        if i < self.channels.len() {
            self.channels.set(i, channel);
            assert(self.channels.deep_view() =~= before.update(i as int, view));
        } else {
            self.channels.push(channel);
            assert(self.channels.deep_view() =~= before.push(view));
        }
        Ok(())
    }

    fn upsert_channels(&mut self, channels: Vec<Channel>) -> (r: GraphResult<usize>) {
        let ghost all = channels.deep_view();
        let ghost start = self.model();
        let n = channels.len();
        let mut i: usize = 0;
        while i < channels.len()
            invariant
                i <= channels.len(),
                all == channels.deep_view(),
                self.model() == with_channels(start, all.take(i as int)),
            decreases channels.len() - i,
        {
            assert(all.take(i + 1).drop_last() =~= all.take(i as int));
            assert(all.take(i + 1).last() == channels[i as int].deep_view());
            let _ = self.upsert_channel(channels[i].clone());
            i += 1;
        }
        assert(all.take(i as int) =~= all);
        Ok(n)
    }

    fn record_forward(&mut self, event: ForwardEvent) {
        let ghost before = self.forwards.deep_view();
        let ghost view = event.deep_view();
        self.forwards.push(event);
        assert(self.forwards.deep_view() =~= before.push(view));
    }

    fn record_payment(&mut self, event: PaymentEvent) {
        let ghost before = self.payments.deep_view();
        let ghost view = event.deep_view();
        self.payments.push(event);
        assert(self.payments.deep_view() =~= before.push(view));
    }

    fn mark_source_seen(&mut self, source: &str, at: Timestamp) {
        let i = self.place_of_source(source);
        let ghost before = self.ledger.deep_view();
        let entry = LedgerEntry { source: source.to_owned(), at };
        let ghost view = entry.deep_view();
        if i < self.ledger.len() {
            self.ledger.set(i, entry);
            assert(self.ledger.deep_view() =~= before.update(i as int, view));
        } else {
            self.ledger.push(entry);
            assert(self.ledger.deep_view() =~= before.push(view));
        }
    }

    fn source_last_seen(&self, source: &str) -> (r: Option<Timestamp>) {
        let i = self.place_of_source(source);
        if i < self.ledger.len() {
            assert(self.ledger.deep_view()[i as int] == self.ledger[i as int].deep_view());
            Some(self.ledger[i].at)
        } else {
            None
        }
    }
}

proof fn lemma_place_is_first(channels: Seq<ChannelView>, id: Seq<char>)
    ensures
        0 <= channel_place(channels, id) <= channels.len(),
        channel_place(channels, id) < channels.len() ==> channels[channel_place(channels, id)].id
            == id,
        forall|i: int|
            0 <= i < channel_place(channels, id) ==> (#[trigger] channels[i]).id != id,
    decreases channels.len(),
{
    if channels.len() > 0 && channels[0].id != id {
        lemma_place_is_first(channels.skip(1), id);
        assert forall|i: int| 0 <= i < channel_place(channels, id) implies (
        #[trigger] channels[i]).id != id by {
            if i > 0 {
                assert(channels.skip(1)[i - 1] == channels[i]);
            }
        }
    }
}

proof fn lemma_node_place_is_first(nodes: Seq<NodeView>, id: Seq<char>)
    ensures
        0 <= node_place(nodes, id) <= nodes.len(),
        node_place(nodes, id) < nodes.len() ==> nodes[node_place(nodes, id)].id == id,
        forall|i: int| 0 <= i < node_place(nodes, id) ==> (#[trigger] nodes[i]).id != id,
    decreases nodes.len(),
{
    if nodes.len() > 0 && nodes[0].id != id {
        lemma_node_place_is_first(nodes.skip(1), id);
        assert forall|i: int| 0 <= i < node_place(nodes, id) implies (#[trigger] nodes[i]).id
            != id by {
            if i > 0 {
                assert(nodes.skip(1)[i - 1] == nodes[i]);
            }
        }
    }
}

proof fn lemma_ledger_place_is_first(ledger: Seq<LedgerView>, source: Seq<char>)
    ensures
        0 <= ledger_place(ledger, source) <= ledger.len(),
        ledger_place(ledger, source) < ledger.len() ==> ledger[ledger_place(
            ledger,
            source,
        )].source == source,
        forall|i: int|
            0 <= i < ledger_place(ledger, source) ==> (#[trigger] ledger[i]).source != source,
    decreases ledger.len(),
{
    if ledger.len() > 0 && ledger[0].source != source {
        lemma_ledger_place_is_first(ledger.skip(1), source);
        assert forall|i: int| 0 <= i < ledger_place(ledger, source) implies (
        #[trigger] ledger[i]).source != source by {
            if i > 0 {
                assert(ledger.skip(1)[i - 1] == ledger[i]);
            }
        }
    }
}

/// Writing a channel a second time changes nothing.
pub proof fn lemma_upsert_channel_is_idempotent(m: GraphModel, c: ChannelView)
    ensures
        with_channel(with_channel(m, c), c) == with_channel(m, c),
{
    let once = with_channel(m, c);
    lemma_upsert_channel_is_read_back(m, c);
    let k = channel_place(once.channels, c.id);
    assert(once.channels[k] == c);
    assert(once.channels.update(k, c) =~= once.channels);
    lemma_node_place_is_first(m.nodes, c.peer);
    let place = node_place(m.nodes, c.peer);
    if place == m.nodes.len() {
        assert forall|i: int| 0 <= i < place implies (#[trigger] once.nodes[i]).id != c.peer by {
            assert(m.nodes[i].id != c.peer);
        }
        lemma_node_place(once.nodes, c.peer, place);
    }
}

/// A channel that was written is read back, and every other channel stays as it
/// was.
pub proof fn lemma_upsert_channel_is_read_back(m: GraphModel, c: ChannelView)
    ensures
        found(
            with_channel(m, c).channels,
            channel_place(with_channel(m, c).channels, c.id),
        ) == Some(c),
        forall|id: Seq<char>|
            id != c.id ==> found(
                with_channel(m, c).channels,
                #[trigger] channel_place(with_channel(m, c).channels, id),
            ) == found(m.channels, channel_place(m.channels, id)),
{
    let before = m.channels;
    let after = with_channel(m, c).channels;
    lemma_place_is_first(before, c.id);
    let k = channel_place(before, c.id);
    assert forall|i: int| 0 <= i < k implies (#[trigger] after[i]).id != c.id by {
        assert(before[i].id != c.id);
    }
    assert(after[k] == c);
    lemma_channel_place(after, c.id, k);
    assert forall|id: Seq<char>| id != c.id implies found(
        after,
        #[trigger] channel_place(after, id),
    ) == found(before, channel_place(before, id)) by {
        lemma_place_is_first(before, id);
        let p = channel_place(before, id);
        if p < before.len() {
            assert(p != k);
            assert(after[p] == before[p]);
            assert forall|i: int| 0 <= i < p implies (#[trigger] after[i]).id != id by {
                if i != k {
                    assert(after[i] == before[i]);
                }
            }
            lemma_channel_place(after, id, p);
        } else {
            assert forall|i: int| 0 <= i < after.len() implies (#[trigger] after[i]).id != id by {
                if i != k {
                    assert(after[i] == before[i]);
                }
            }
            lemma_channel_place(after, id, after.len() as int);
        }
    }
}

/// A graph in which every identity stands once stays so whatever is written.
pub proof fn lemma_identities_stay_distinct(
    m: GraphModel,
    node: NodeView,
    channel: ChannelView,
    source: Seq<char>,
    at: Timestamp,
)
    requires
        distinct(m),
    ensures
        distinct(with_node(m, node)),
        distinct(with_channel(m, channel)),
        distinct(with_seen(m, source, at)),
{
    lemma_node_place_is_first(m.nodes, node.id);
    lemma_node_place_is_first(m.nodes, channel.peer);
    lemma_place_is_first(m.channels, channel.id);
    lemma_ledger_place_is_first(m.ledger, source);
    let nodes = with_node(m, node).nodes;
    assert forall|i: int, j: int| 0 <= i < j < nodes.len() implies (#[trigger] nodes[i]).id != (
    #[trigger] nodes[j]).id by {
        let k = node_place(m.nodes, node.id);
        if i != k && j != k {
            assert(nodes[i] == m.nodes[i] && nodes[j] == m.nodes[j]);
        } else if i == k {
            assert(nodes[j] == m.nodes[j]);
            assert(k < m.nodes.len() && m.nodes[k].id != m.nodes[j].id);
        } else {
            assert(nodes[i] == m.nodes[i]);
        }
    }
    let channels = with_channel(m, channel).channels;
    assert forall|i: int, j: int| 0 <= i < j < channels.len() implies (#[trigger] channels[i]).id != (
    #[trigger] channels[j]).id by {
        let k = channel_place(m.channels, channel.id);
        if i != k && j != k {
            assert(channels[i] == m.channels[i] && channels[j] == m.channels[j]);
        } else if i == k {
            assert(channels[j] == m.channels[j]);
            assert(k < m.channels.len() && m.channels[k].id != m.channels[j].id);
        } else {
            assert(channels[i] == m.channels[i]);
        }
    }
    let peers = with_channel(m, channel).nodes;
    assert forall|i: int, j: int| 0 <= i < j < peers.len() implies (#[trigger] peers[i]).id != (
    #[trigger] peers[j]).id by {
        assert(peers[i] == m.nodes[i]);
        if j < m.nodes.len() {
            assert(peers[j] == m.nodes[j]);
        }
    }
    let ledger = with_seen(m, source, at).ledger;
    assert forall|i: int, j: int| 0 <= i < j < ledger.len() implies (#[trigger] ledger[i]).source != (
    #[trigger] ledger[j]).source by {
        let k = ledger_place(m.ledger, source);
        if i != k && j != k {
            assert(ledger[i] == m.ledger[i] && ledger[j] == m.ledger[j]);
        } else if i == k {
            assert(ledger[j] == m.ledger[j]);
            assert(k < m.ledger.len() && m.ledger[k].source != m.ledger[j].source);
        } else {
            assert(ledger[i] == m.ledger[i]);
        }
    }
}

/// The moment noted for a source is the one read back, and no other source's
/// moment changes.
pub proof fn lemma_seen_is_read_back(m: GraphModel, source: Seq<char>, at: Timestamp)
    ensures
        found(
            with_seen(m, source, at).ledger,
            ledger_place(with_seen(m, source, at).ledger, source),
        ) == Some(LedgerView { source, at }),
        forall|other: Seq<char>|
            other != source ==> found(
                with_seen(m, source, at).ledger,
                #[trigger] ledger_place(with_seen(m, source, at).ledger, other),
            ) == found(m.ledger, ledger_place(m.ledger, other)),
{
    let before = m.ledger;
    let after = with_seen(m, source, at).ledger;
    lemma_ledger_place_is_first(before, source);
    let k = ledger_place(before, source);
    assert forall|i: int| 0 <= i < k implies (#[trigger] after[i]).source != source by {
        assert(before[i].source != source);
    }
    assert(after[k].source == source);
    lemma_ledger_place(after, source, k);
    assert forall|other: Seq<char>| other != source implies found(
        after,
        #[trigger] ledger_place(after, other),
    ) == found(before, ledger_place(before, other)) by {
        lemma_ledger_place_is_first(before, other);
        let p = ledger_place(before, other);
        if p < before.len() {
            assert(p != k);
            assert(after[p] == before[p]);
            assert forall|i: int| 0 <= i < p implies (#[trigger] after[i]).source != other by {
                if i != k {
                    assert(after[i] == before[i]);
                }
            }
            lemma_ledger_place(after, other, p);
        } else {
            assert forall|i: int| 0 <= i < after.len() implies (#[trigger] after[i]).source
                != other by {
                if i != k {
                    assert(after[i] == before[i]);
                }
            }
            lemma_ledger_place(after, other, after.len() as int);
        }
    }
}

/// The channels at a node are those that have it at either end, in their order:
/// one more comes last exactly if it has.
pub proof fn lemma_channels_at_both_ends(
    channels: Seq<ChannelView>,
    c: ChannelView,
    node: Seq<char>,
)
    ensures
        channels_at(seq![], node).len() == 0,
        c.node == node || c.peer == node ==> channels_at(channels.push(c), node) == channels_at(
            channels,
            node,
        ).push(c),
        c.node != node && c.peer != node ==> channels_at(channels.push(c), node) == channels_at(
            channels,
            node,
        ),
{
    assert(channels.push(c).drop_last() =~= channels);
}

/// One more channel adds its capacity, and counts as open exactly if it is active.
pub proof fn lemma_channels_add_up(channels: Seq<ChannelView>, c: ChannelView)
    ensures
        capacity_sum(seq![]) == 0,
        open_count(seq![]) == 0,
        capacity_sum(channels.push(c)) == capacity_sum(channels) + c.capacity_msat,
        c.status is Active ==> open_count(channels.push(c)) == open_count(channels) + 1,
        !(c.status is Active) ==> open_count(channels.push(c)) == open_count(channels),
{
    assert(channels.push(c).drop_last() =~= channels);
}

/// The newest come first: one more comes before all others, and what no longer
/// has room is left out at the end.
pub proof fn lemma_newest_come_first<T>(all: Seq<T>, item: T, limit: nat)
    ensures
        newest_first(all, 0).len() == 0,
        newest_first(Seq::<T>::empty(), limit).len() == 0,
        newest_first(all.push(item), limit + 1) == seq![item] + newest_first(all, limit),
{
    assert(newest_first(all.push(item), limit + 1) =~= seq![item] + newest_first(all, limit));
}

/// A node that was written is read back, and every other node stays as it was.
pub proof fn lemma_upsert_node_is_read_back(m: GraphModel, node: NodeView, id: Seq<char>)
    ensures
        ({
            let after = with_node(m, node);
            &&& found(after.nodes, node_place(after.nodes, node.id)) == Some(node)
            &&& id != node.id ==> found(after.nodes, node_place(after.nodes, id)) == found(
                m.nodes,
                node_place(m.nodes, id),
            )
            &&& after.channels == m.channels && after.forwards == m.forwards && after.payments
                == m.payments && after.ledger == m.ledger
        }),
{
    let before = m.nodes;
    let after = with_node(m, node).nodes;
    lemma_node_place_is_first(before, node.id);
    let k = node_place(before, node.id);
    assert forall|i: int| 0 <= i < k implies (#[trigger] after[i]).id != node.id by {
        assert(after[i] == before[i]);
    }
    lemma_node_place(after, node.id, k);
    if id != node.id {
        lemma_node_place_is_first(before, id);
        let p = node_place(before, id);
        if p < before.len() {
            assert(after[p] == before[p]);
            assert forall|i: int| 0 <= i < p implies (#[trigger] after[i]).id != id by {
                if i != k {
                    assert(after[i] == before[i]);
                }
            }
            lemma_node_place(after, id, p);
        } else {
            assert forall|i: int| 0 <= i < after.len() implies (#[trigger] after[i]).id != id by {
                if i != k {
                    assert(after[i] == before[i]);
                }
            }
            lemma_node_place(after, id, after.len() as int);
        }
    }
}

/// Writing a channel makes its peer known. A peer that was known stays as it was;
/// one that was not has a name and a moment, and nothing else is said of it. No
/// other node is touched.
pub proof fn lemma_channels_make_their_peer_known(m: GraphModel, c: ChannelView)
    ensures
        ({
            let after = with_channel(m, c);
            let peer = found(after.nodes, node_place(after.nodes, c.peer));
            let known = found(m.nodes, node_place(m.nodes, c.peer));
            &&& known is Some ==> after.nodes == m.nodes
            &&& known is None ==> after.nodes.len() == m.nodes.len() + 1 && after.nodes.drop_last()
                == m.nodes
            &&& known is None ==> peer is Some && peer->0.id == c.peer && peer->0.last_seen
                == c.last_seen && peer->0.alias is None && peer->0.version is None
                && peer->0.status is Unknown
            &&& after.forwards == m.forwards && after.payments == m.payments && after.ledger
                == m.ledger
        }),
{
    lemma_node_place_is_first(m.nodes, c.peer);
    let after = with_channel(m, c);
    let place = node_place(m.nodes, c.peer);
    if place == m.nodes.len() {
        assert(after.nodes.drop_last() =~= m.nodes);
        assert forall|i: int| 0 <= i < place implies (#[trigger] after.nodes[i]).id
            != c.peer by {
            assert(after.nodes[i] == m.nodes[i]);
        }
        lemma_node_place(after.nodes, c.peer, place);
    }
}

/// Channels are written one after the other, and no channels change nothing.
pub proof fn lemma_channels_are_written_in_turn(
    m: GraphModel,
    channels: Seq<ChannelView>,
    c: ChannelView,
)
    ensures
        with_channels(m, seq![]) == m,
        with_channels(m, channels.push(c)) == with_channel(with_channels(m, channels), c),
{
    assert(channels.push(c).drop_last() =~= channels);
}

} // verus!
