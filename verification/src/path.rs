//! Cheapest routes through the channel graph, with fees as the cost.
use crate::domain::{Channel, ChannelId, ChannelView, NodeId};
use crate::text::same_text;
use vstd::prelude::*;

verus! {

/// One step of a route.
#[derive(Debug, PartialEq, Eq)]
pub struct PathHop {
    pub channel_id: ChannelId,
    /// What routing the amount through this hop costs.
    pub cost_msat: u64,
}

/// The mathematical value of a [`PathHop`].
pub struct PathHopView {
    pub channel_id: Seq<char>,
    pub cost_msat: u64,
}

impl DeepView for PathHop {
    type V = PathHopView;

    open spec fn deep_view(&self) -> PathHopView {
        PathHopView { channel_id: self.channel_id.deep_view(), cost_msat: self.cost_msat }
    }
}

impl Clone for PathHop {
    fn clone(&self) -> (r: Self)
        ensures
            r.deep_view() == self.deep_view(),
    {
        PathHop { channel_id: self.channel_id.clone(), cost_msat: self.cost_msat }
    }
}

/// A route from a source to a destination.
#[derive(Debug, PartialEq, Eq)]
pub struct Path {
    pub hops: Vec<PathHop>,
    /// What the whole route costs.
    pub total_cost_msat: u64,
}

/// The mathematical value of a [`Path`].
pub struct PathView {
    pub hops: Seq<PathHopView>,
    pub total_cost_msat: u64,
}

impl DeepView for Path {
    type V = PathView;

    open spec fn deep_view(&self) -> PathView {
        PathView { hops: self.hops.deep_view(), total_cost_msat: self.total_cost_msat }
    }
}

impl Clone for Path {
    fn clone(&self) -> (r: Self)
        ensures
            r.deep_view() == self.deep_view(),
    {
        let hops = self.hops.clone();
        assert(hops.deep_view() =~= self.hops.deep_view());
        Path { hops, total_cost_msat: self.total_cost_msat }
    }
}

impl Default for Path {
    fn default() -> (r: Self)
        ensures
            r.deep_view() == (PathView { hops: seq![], total_cost_msat: 0 }),
    {
        let r = Path { hops: Vec::new(), total_cost_msat: 0 };
        assert(r.hops.deep_view() =~= seq![]);
        r
    }
}

/// The fee for moving `amount` through a channel: the base fee and the rate's
/// share of the amount, each step held at the greatest amount there is.
pub open spec fn cost_of(c: ChannelView, amount: u64) -> u64 {
    let scaled = c.fee_policy.fee_rate_ppm * amount;
    let held = if scaled > u64::MAX {
        u64::MAX as int
    } else {
        scaled
    };
    let sum = c.fee_policy.base_fee_msat + held / 1_000_000;
    if sum > u64::MAX {
        u64::MAX
    } else {
        sum as u64
    }
}

/// The fee for moving `amount_msat` through a channel.
pub fn channel_cost(channel: &Channel, amount_msat: u64) -> (r: u64)
    ensures
        r == cost_of(channel.deep_view(), amount_msat),
{
    let scaled: u64 = match channel.fee_policy.fee_rate_ppm.checked_mul(amount_msat) {
        Some(product) => product,
        None => u64::MAX,
    };
    match channel.fee_policy.base_fee_msat.checked_add(scaled / 1_000_000) {
        Some(sum) => sum,
        None => u64::MAX,
    }
}

/// Whether a channel has `node` at one of its ends.
pub open spec fn touches(c: ChannelView, node: Seq<char>) -> bool {
    node == c.node || node == c.peer
}

/// The other end of a channel.
pub open spec fn other_end(c: ChannelView, node: Seq<char>) -> Seq<char> {
    if node == c.node {
        c.peer
    } else {
        c.node
    }
}

/// Where the channels at these places lead from `from`, taken one after the
/// other; nowhere, where one of them does not continue the way.
pub open spec fn walk_end(
    channels: Seq<ChannelView>,
    from: Seq<char>,
    walk: Seq<int>,
) -> Option<Seq<char>>
    decreases walk.len(),
{
    if walk.len() == 0 {
        Some(from)
    } else {
        match walk_end(channels, from, walk.drop_last()) {
            Some(node) => if 0 <= walk.last() < channels.len() && touches(
                channels[walk.last()],
                node,
            ) {
                Some(other_end(channels[walk.last()], node))
            } else {
                None
            },
            None => None,
        }
    }
}

/// What a walk costs in all.
pub open spec fn walk_cost(channels: Seq<ChannelView>, amount: u64, walk: Seq<int>) -> nat
    decreases walk.len(),
{
    if walk.len() == 0 {
        0
    } else {
        walk_cost(channels, amount, walk.drop_last()) + cost_of(
            channels[walk.last()],
            amount,
        ) as nat
    }
}

/// The hops of a walk.
pub open spec fn walk_hops(channels: Seq<ChannelView>, amount: u64, walk: Seq<int>) -> Seq<
    PathHopView,
> {
    walk.map_values(
        |i: int|
            PathHopView {
                channel_id: channels[i].id,
                cost_msat: cost_of(channels[i], amount),
            },
    )
}

/// Whether some walk leads from `source` to `target` at a cost below the
/// greatest amount there is.
pub open spec fn reachable(
    channels: Seq<ChannelView>,
    source: Seq<char>,
    target: Seq<char>,
    amount: u64,
) -> bool {
    exists|walk: Seq<int>|
        #[trigger] walk_end(channels, source, walk) == Some(target) && walk_cost(
            channels,
            amount,
            walk,
        ) < u64::MAX
}

/// Whether a path is a walk from `source` to `target` that no other undercuts.
pub open spec fn cheapest(
    path: PathView,
    channels: Seq<ChannelView>,
    source: Seq<char>,
    target: Seq<char>,
    amount: u64,
) -> bool {
    &&& exists|walk: Seq<int>|
        #[trigger] walk_end(channels, source, walk) == Some(target) && path.hops == walk_hops(
            channels,
            amount,
            walk,
        ) && path.total_cost_msat == walk_cost(channels, amount, walk)
    &&& forall|walk: Seq<int>|
        #[trigger] walk_end(channels, source, walk) == Some(target) ==> path.total_cost_msat
            <= walk_cost(channels, amount, walk)
}

/// A node that the search has come upon, with the cheapest way to it so far.
struct Reached {
    node: NodeId,
    cost: u64,
    route: Vec<usize>,
    settled: bool,
}

spec fn as_walk(route: Seq<usize>) -> Seq<int> {
    route.map_values(|i: usize| i as int)
}

/// The node names that occur in a graph.
spec fn names(channels: Seq<ChannelView>, source: Seq<char>) -> Seq<Seq<char>> {
    seq![source] + channels.map_values(|c: ChannelView| c.node) + channels.map_values(
        |c: ChannelView| c.peer,
    )
}

/// Whether the ways to the nodes reached are what they are said to be.
spec fn ways_hold(
    reached: Seq<Reached>,
    channels: Seq<ChannelView>,
    source: Seq<char>,
    amount: u64,
) -> bool {
    &&& reached.len() > 0 && reached[0].node.deep_view() == source && reached[0].cost == 0
    &&& forall|i: int|
        0 <= i < reached.len() ==> {
            &&& walk_end(channels, source, as_walk((#[trigger] reached[i]).route@)) == Some(
                reached[i].node.deep_view(),
            )
            &&& walk_cost(channels, amount, as_walk(reached[i].route@)) == reached[i].cost
            &&& reached[i].cost < u64::MAX
            &&& names(channels, source).contains(reached[i].node.deep_view())
        }
    &&& forall|i: int, j: int|
        0 <= i < j < reached.len() ==> (#[trigger] reached[i]).node.deep_view() != (
        #[trigger] reached[j]).node.deep_view()
}

/// Whether a node stands among those reached at no more than this cost.
spec fn reached_within(reached: Seq<Reached>, node: Seq<char>, cost: nat) -> bool {
    exists|j: int|
        0 <= j < reached.len() && (#[trigger] reached[j]).node.deep_view() == node
            && reached[j].cost <= cost
}

/// Whether the channel at place `k` has been followed from the node at place `i`.
spec fn followed(
    reached: Seq<Reached>,
    channels: Seq<ChannelView>,
    amount: u64,
    i: int,
    k: int,
) -> bool {
    let next = reached[i].cost + cost_of(channels[k], amount);
    touches(channels[k], reached[i].node.deep_view()) && next < u64::MAX ==> reached_within(
        reached,
        other_end(channels[k], reached[i].node.deep_view()),
        next as nat,
    )
}

/// Whether every settled node but the one at `except` has had all of its
/// channels followed.
spec fn settled_followed(
    reached: Seq<Reached>,
    channels: Seq<ChannelView>,
    amount: u64,
    except: int,
) -> bool {
    forall|i: int, k: int|
        0 <= i < reached.len() && reached[i].settled && i != except && 0 <= k < channels.len()
            ==> #[trigger] followed(reached, channels, amount, i, k)
}

/// Whether no settled node costs more than `bound`, and no other less.
spec fn split_at(reached: Seq<Reached>, bound: u64) -> bool {
    forall|i: int|
        0 <= i < reached.len() ==> if (#[trigger] reached[i]).settled {
            reached[i].cost <= bound
        } else {
            reached[i].cost >= bound
        }
}

/// A walk that costs less than every unsettled node ends at a settled one, which
/// costs no more than the walk.
proof fn lemma_cheap_walk_is_settled(
    reached: Seq<Reached>,
    channels: Seq<ChannelView>,
    source: Seq<char>,
    amount: u64,
    bound: u64,
    walk: Seq<int>,
)
    requires
        ways_hold(reached, channels, source, amount),
        settled_followed(reached, channels, amount, -1),
        forall|i: int|
            0 <= i < reached.len() && !(#[trigger] reached[i]).settled ==> reached[i].cost >= bound,
        walk_end(channels, source, walk) is Some,
        walk_cost(channels, amount, walk) < bound,
    ensures
        exists|i: int|
            0 <= i < reached.len() && (#[trigger] reached[i]).settled
                && reached[i].node.deep_view() == walk_end(channels, source, walk)->0
                && reached[i].cost <= walk_cost(channels, amount, walk),
    decreases walk.len(),
{
    if walk.len() == 0 {
        assert(reached[0].settled);
    } else {
        let before = walk.drop_last();
        lemma_cheap_walk_is_settled(reached, channels, source, amount, bound, before);
        let i = choose|i: int|
            0 <= i < reached.len() && (#[trigger] reached[i]).settled
                && reached[i].node.deep_view() == walk_end(channels, source, before)->0
                && reached[i].cost <= walk_cost(channels, amount, before);
        let k = walk.last();
        assert(followed(reached, channels, amount, i, k));
        let next = (reached[i].cost + cost_of(channels[k], amount)) as nat;
        let node = other_end(channels[k], reached[i].node.deep_view());
        assert(reached_within(reached, node, next));
        let j = choose|j: int|
            0 <= j < reached.len() && (#[trigger] reached[j]).node.deep_view() == node
                && reached[j].cost <= next;
        assert(reached[j].settled);
    }
}

proof fn lemma_reached_is_bounded(
    reached: Seq<Reached>,
    channels: Seq<ChannelView>,
    source: Seq<char>,
    amount: u64,
)
    requires
        ways_hold(reached, channels, source, amount),
    ensures
        reached.len() <= 2 * channels.len() + 1,
{
    let ids = reached.map_values(|r: Reached| r.node.deep_view());
    let all = names(channels, source);
    assert(ids.no_duplicates());
    ids.unique_seq_to_set();
    all.lemma_cardinality_of_set();
    assert(ids.to_set().subset_of(all.to_set())) by {
        assert forall|n: Seq<char>| ids.to_set().contains(n) implies all.to_set().contains(n) by {
            let i = choose|i: int| 0 <= i < ids.len() && ids[i] == n;
            assert(reached[i].node.deep_view() == n);
        }
    }
    vstd::set_lib::lemma_len_subset(ids.to_set(), all.to_set());
}

spec fn settled_count(reached: Seq<Reached>) -> nat
    decreases reached.len(),
{
    if reached.len() == 0 {
        0
    } else {
        settled_count(reached.drop_last()) + (if reached.last().settled {
            1nat
        } else {
            0
        })
    }
}

proof fn lemma_settled_count_bound(reached: Seq<Reached>)
    ensures
        settled_count(reached) <= reached.len(),
    decreases reached.len(),
{
    if reached.len() > 0 {
        lemma_settled_count_bound(reached.drop_last());
    }
}

proof fn lemma_settled_count_update(reached: Seq<Reached>, i: int, entry: Reached)
    requires
        0 <= i < reached.len(),
    ensures
        settled_count(reached.update(i, entry)) == settled_count(reached) + (if entry.settled {
            1int
        } else {
            0
        }) - (if reached[i].settled {
            1int
        } else {
            0
        }),
    decreases reached.len(),
{
    let after = reached.update(i, entry);
    if i == reached.len() - 1 {
        assert(after.drop_last() =~= reached.drop_last());
    } else {
        lemma_settled_count_update(reached.drop_last(), i, entry);
        assert(after.drop_last() =~= reached.drop_last().update(i, entry));
    }
}

/// The place of the cheapest node that is not settled.
fn next_to_settle(reached: &Vec<Reached>) -> (r: Option<usize>)
    ensures
        match r {
            Some(t) => t < reached.len() && !reached@[t as int].settled && forall|i: int|
                0 <= i < reached.len() && !(#[trigger] reached@[i]).settled ==> reached@[i].cost
                    >= reached@[t as int].cost,
            None => forall|i: int| 0 <= i < reached.len() ==> (#[trigger] reached@[i]).settled,
        },
{
    let mut best: Option<usize> = None;
    let mut i: usize = 0;
    while i < reached.len()
        invariant
            i <= reached.len(),
            match best {
                Some(t) => t < i && !reached@[t as int].settled && forall|j: int|
                    0 <= j < i && !(#[trigger] reached@[j]).settled ==> reached@[j].cost
                        >= reached@[t as int].cost,
                None => forall|j: int| 0 <= j < i ==> (#[trigger] reached@[j]).settled,
            },
        decreases reached.len() - i,
    {
        if !reached[i].settled {
            match best {
                Some(t) => {
                    if reached[i].cost < reached[t].cost {
                        best = Some(i);
                    }
                },
                None => {
                    best = Some(i);
                },
            }
        }
        i += 1;
    }
    best
}

fn place_of(reached: &Vec<Reached>, node: &NodeId) -> (r: Option<usize>)
    ensures
        match r {
            Some(j) => j < reached.len() && reached@[j as int].node.deep_view() == node.deep_view(),
            None => forall|j: int|
                0 <= j < reached.len() ==> (#[trigger] reached@[j]).node.deep_view()
                    != node.deep_view(),
        },
{
    let mut j: usize = 0;
    while j < reached.len()
        invariant
            j <= reached.len(),
            forall|k: int|
                0 <= k < j ==> (#[trigger] reached@[k]).node.deep_view() != node.deep_view(),
        decreases reached.len() - j,
    {
        if same_text(reached[j].node.as_str(), node.as_str()) {
            return Some(j);
        }
        j += 1;
    }
    None
}

fn extended(route: &Vec<usize>, k: usize) -> (r: Vec<usize>)
    ensures
        r@ == route@.push(k),
{
    let mut out: Vec<usize> = Vec::new();
    let mut i: usize = 0;
    while i < route.len()
        invariant
            i <= route.len(),
            out@ == route@.take(i as int),
        decreases route.len() - i,
    {
        out.push(route[i]);
        assert(out@ =~= route@.take(i + 1));
        i += 1;
    }
    assert(route@.take(i as int) =~= route@);
    out.push(k);
    out
}

/// What the search keeps true between two steps of following channels from the
/// node at place `t`.
spec fn searching(
    reached: Seq<Reached>,
    channels: Seq<ChannelView>,
    source: Seq<char>,
    target: Seq<char>,
    amount: u64,
    t: int,
) -> bool {
    &&& ways_hold(reached, channels, source, amount)
    &&& 0 <= t < reached.len()
    &&& reached[t].settled
    &&& split_at(reached, reached[t].cost)
    &&& settled_followed(reached, channels, amount, t)
    &&& forall|i: int|
        0 <= i < reached.len() && (#[trigger] reached[i]).settled ==> reached[i].node.deep_view()
            != target
}

/// Follows the channel at place `k` from the node at place `t`.
fn follow(
    reached: &mut Vec<Reached>,
    channels: &Vec<Channel>,
    amount_msat: u64,
    t: usize,
    k: usize,
    Ghost(source): Ghost<Seq<char>>,
    Ghost(target): Ghost<Seq<char>>,
)
    requires
        k < channels.len(),
        searching(old(reached)@, channels.deep_view(), source, target, amount_msat, t as int),
    ensures
        searching(final(reached)@, channels.deep_view(), source, target, amount_msat, t as int),
        final(reached)@[t as int] == old(reached)@[t as int],
        settled_count(final(reached)@) == settled_count(old(reached)@),
        followed(final(reached)@, channels.deep_view(), amount_msat, t as int, k as int),
        forall|h: int|
            0 <= h < channels.len() && #[trigger] followed(
                old(reached)@,
                channels.deep_view(),
                amount_msat,
                t as int,
                h,
            ) ==> followed(
                final(reached)@,
                channels.deep_view(),
                amount_msat,
                t as int,
                h,
            ),
{
    let ghost before = reached@;
    let ghost all = channels.deep_view();
    let channel = &channels[k];
    assert(all[k as int] == channel.deep_view());
    let at_node = same_text(reached[t].node.as_str(), channel.node.as_str());
    let at_peer = same_text(reached[t].node.as_str(), channel.peer.as_str());
    if !at_node && !at_peer {
        return;
    }
    let neighbor = if at_node {
        channel.peer.clone()
    } else {
        channel.node.clone()
    };
    let cost: u64 = reached[t].cost;
    let next: u64 = match cost.checked_add(channel_cost(channel, amount_msat)) {
        Some(sum) => sum,
        None => u64::MAX,
    };
    if next == u64::MAX {
        return;
    }
    let route = extended(&reached[t].route, k);
    let ghost entry = Reached { node: neighbor, cost: next, route, settled: false };
    proof {
        let from = as_walk(before[t as int].route@);
        let to = as_walk(route@);
        assert(to =~= from.push(k as int));
        assert(to.drop_last() =~= from);
        assert(to.last() == k as int);
        let listed = names(all, source);
        let n = all.len();
        if at_node {
            assert(listed[(1 + n + k) as int] == neighbor.deep_view());
        } else {
            assert(listed[(1 + k) as int] == neighbor.deep_view());
        }
        assert(listed.contains(neighbor.deep_view()));
    }
    match place_of(reached, &neighbor) {
        Some(j) => {
            if next < reached[j].cost {
                assert(!before[j as int].settled);
                assert(j != t);
                reached.set(j, Reached { node: neighbor, cost: next, route, settled: false });
                proof {
                    lemma_settled_count_update(before, j as int, reached@[j as int]);
                    lemma_lowered(
                        before,
                        reached@,
                        all,
                        source,
                        target,
                        amount_msat,
                        t as int,
                        j as int,
                        k as int,
                    );
                }
            } else {
                assert(before[j as int].cost <= next);
                assert(reached_within(before, neighbor.deep_view(), next as nat));
            }
        },
        None => {
            reached.push(Reached { node: neighbor, cost: next, route, settled: false });
            proof {
                assert(reached@.drop_last() =~= before);
                lemma_added(
                    before,
                    reached@,
                    all,
                    source,
                    target,
                    amount_msat,
                    t as int,
                    k as int,
                );
            }
        },
    }
}

/// Nothing that was reached within a cost is lost where entries are only added
/// or lowered.
proof fn lemma_stays_within(
    before: Seq<Reached>,
    after: Seq<Reached>,
    node: Seq<char>,
    cost: nat,
)
    requires
        before.len() <= after.len(),
        forall|i: int|
            0 <= i < before.len() ==> (#[trigger] after[i]).node.deep_view()
                == before[i].node.deep_view() && after[i].cost <= before[i].cost,
        reached_within(before, node, cost),
    ensures
        reached_within(after, node, cost),
{
    let j = choose|j: int|
        0 <= j < before.len() && (#[trigger] before[j]).node.deep_view() == node && before[j].cost
            <= cost;
    assert(after[j].node.deep_view() == node);
}

proof fn lemma_follows_stay(
    before: Seq<Reached>,
    after: Seq<Reached>,
    channels: Seq<ChannelView>,
    amount: u64,
    t: int,
)
    requires
        before.len() <= after.len(),
        forall|i: int|
            0 <= i < before.len() ==> (#[trigger] after[i]).node.deep_view()
                == before[i].node.deep_view() && after[i].cost <= before[i].cost,
        forall|i: int|
            0 <= i < before.len() && (#[trigger] before[i]).settled ==> after[i] == before[i],
        forall|i: int|
            0 <= i < after.len() && (#[trigger] after[i]).settled ==> i < before.len()
                && before[i].settled,
        0 <= t < before.len(),
        before[t].settled,
        settled_followed(before, channels, amount, t),
    ensures
        settled_followed(after, channels, amount, t),
        forall|h: int|
            0 <= h < channels.len() && #[trigger] followed(before, channels, amount, t, h)
                ==> followed(after, channels, amount, t, h),
{
    assert forall|i: int, k: int|
        0 <= i < after.len() && after[i].settled && i != t && 0 <= k
            < channels.len() implies #[trigger] followed(after, channels, amount, i, k) by {
        assert(before[i].settled);
        assert(after[i] == before[i]);
        assert(followed(before, channels, amount, i, k));
        let next = before[i].cost + cost_of(channels[k], amount);
        let node = other_end(channels[k], before[i].node.deep_view());
        if touches(channels[k], before[i].node.deep_view()) && next < u64::MAX {
            lemma_stays_within(before, after, node, next as nat);
        }
    }
    assert forall|h: int|
        0 <= h < channels.len() && #[trigger] followed(before, channels, amount, t, h)
            implies followed(after, channels, amount, t, h) by {
        assert(after[t] == before[t]);
        let next = before[t].cost + cost_of(channels[h], amount);
        let node = other_end(channels[h], before[t].node.deep_view());
        if touches(channels[h], before[t].node.deep_view()) && next < u64::MAX {
            lemma_stays_within(before, after, node, next as nat);
        }
    }
}

proof fn lemma_lowered(
    before: Seq<Reached>,
    after: Seq<Reached>,
    channels: Seq<ChannelView>,
    source: Seq<char>,
    target: Seq<char>,
    amount: u64,
    t: int,
    j: int,
    k: int,
)
    requires
        searching(before, channels, source, target, amount, t),
        0 <= j < before.len(),
        j != t,
        !before[j].settled,
        after == before.update(j, after[j]),
        !after[j].settled,
        after[j].node.deep_view() == before[j].node.deep_view(),
        after[j].cost < before[j].cost,
        after[j].cost >= before[t].cost,
        walk_end(channels, source, as_walk(after[j].route@)) == Some(after[j].node.deep_view()),
        walk_cost(channels, amount, as_walk(after[j].route@)) == after[j].cost,
        0 <= k < channels.len(),
        other_end(channels[k], before[t].node.deep_view()) == after[j].node.deep_view(),
        before[t].cost + cost_of(channels[k], amount) == after[j].cost,
    ensures
        searching(after, channels, source, target, amount, t),
        followed(after, channels, amount, t, k),
        forall|h: int|
            0 <= h < channels.len() && #[trigger] followed(before, channels, amount, t, h)
                ==> followed(after, channels, amount, t, h),
{
    assert(before[0].cost == 0);
    assert(j != 0);
    assert(names(channels, source).contains(before[j].node.deep_view()));
    assert forall|i: int, h: int| 0 <= i < h < after.len() implies (#[trigger] after[i]).node.deep_view()
        != (#[trigger] after[h]).node.deep_view() by {
        assert(before[i].node.deep_view() != before[h].node.deep_view());
    }
    assert(ways_hold(after, channels, source, amount));
    lemma_follows_stay(before, after, channels, amount, t);
    assert(after[j].node.deep_view() == other_end(channels[k], after[t].node.deep_view()));
    assert(reached_within(after, after[j].node.deep_view(), after[j].cost as nat));
}

proof fn lemma_added(
    before: Seq<Reached>,
    after: Seq<Reached>,
    channels: Seq<ChannelView>,
    source: Seq<char>,
    target: Seq<char>,
    amount: u64,
    t: int,
    k: int,
)
    requires
        searching(before, channels, source, target, amount, t),
        after.len() == before.len() + 1,
        after.drop_last() == before,
        !after.last().settled,
        after.last().cost < u64::MAX,
        after.last().cost >= before[t].cost,
        forall|i: int|
            0 <= i < before.len() ==> (#[trigger] before[i]).node.deep_view()
                != after.last().node.deep_view(),
        names(channels, source).contains(after.last().node.deep_view()),
        walk_end(channels, source, as_walk(after.last().route@)) == Some(
            after.last().node.deep_view(),
        ),
        walk_cost(channels, amount, as_walk(after.last().route@)) == after.last().cost,
        0 <= k < channels.len(),
        other_end(channels[k], before[t].node.deep_view()) == after.last().node.deep_view(),
        before[t].cost + cost_of(channels[k], amount) == after.last().cost,
    ensures
        searching(after, channels, source, target, amount, t),
        settled_count(after) == settled_count(before),
        followed(after, channels, amount, t, k),
        forall|h: int|
            0 <= h < channels.len() && #[trigger] followed(before, channels, amount, t, h)
                ==> followed(after, channels, amount, t, h),
{
    let last = before.len() as int;
    assert forall|i: int| 0 <= i < before.len() implies #[trigger] after[i] == before[i] by {
        assert(after.drop_last()[i] == after[i]);
    }
    assert forall|i: int, h: int| 0 <= i < h < after.len() implies (#[trigger] after[i]).node.deep_view()
        != (#[trigger] after[h]).node.deep_view() by {
        assert(after[i] == before[i]);
        if h < last {
            assert(after[h] == before[h]);
            assert(before[i].node.deep_view() != before[h].node.deep_view());
        }
    }
    assert(after[0] == before[0]);
    assert(ways_hold(after, channels, source, amount));
    lemma_follows_stay(before, after, channels, amount, t);
    assert(after[t] == before[t]);
    assert(after[last].node.deep_view() == other_end(channels[k], after[t].node.deep_view()));
    assert(reached_within(after, after[last].node.deep_view(), after[last].cost as nat));
}

fn path_along(
    channels: &Vec<Channel>,
    amount_msat: u64,
    route: &Vec<usize>,
    total: u64,
) -> (r: Path)
    requires
        forall|i: int| 0 <= i < route.len() ==> (#[trigger] route@[i]) < channels.len(),
    ensures
        r.deep_view() == (PathView {
            hops: walk_hops(channels.deep_view(), amount_msat, as_walk(route@)),
            total_cost_msat: total,
        }),
{
    let ghost all = channels.deep_view();
    let ghost wanted = walk_hops(all, amount_msat, as_walk(route@));
    let mut hops: Vec<PathHop> = Vec::new();
    let mut i: usize = 0;
    while i < route.len()
        invariant
            i <= route.len(),
            all == channels.deep_view(),
            wanted == walk_hops(all, amount_msat, as_walk(route@)),
            hops.deep_view() == wanted.take(i as int),
            forall|i: int| 0 <= i < route.len() ==> (#[trigger] route@[i]) < channels.len(),
        decreases route.len() - i,
    {
        let k: usize = route[i];
        assert(k < channels.len());
        assert(all[k as int] == channels[k as int].deep_view());
        let hop = PathHop {
            channel_id: channels[k].id.clone(),
            cost_msat: channel_cost(&channels[k], amount_msat),
        };
        let ghost before = hops.deep_view();
        hops.push(hop);
        assert(hops.deep_view() =~= before.push(hop.deep_view()));
        assert(as_walk(route@)[i as int] == k);
        assert(hops.deep_view() =~= wanted.take(i + 1));
        i += 1;
    }
    assert(wanted.take(i as int) =~= wanted);
    Path { hops, total_cost_msat: total }
}

proof fn lemma_walk_in_range(channels: Seq<ChannelView>, from: Seq<char>, walk: Seq<int>)
    requires
        walk_end(channels, from, walk) is Some,
    ensures
        forall|i: int| 0 <= i < walk.len() ==> 0 <= #[trigger] walk[i] < channels.len(),
    decreases walk.len(),
{
    if walk.len() > 0 {
        lemma_walk_in_range(channels, from, walk.drop_last());
        assert forall|i: int| 0 <= i < walk.len() implies 0 <= #[trigger] walk[i]
            < channels.len() by {
            if i < walk.len() - 1 {
                assert(walk.drop_last()[i] == walk[i]);
            }
        }
    }
}

/// The cheapest route from `source` to `target` for `amount_msat`. Channels can
/// be taken in both directions. Nothing where no route costs less than the
/// greatest amount there is; which of several cheapest routes comes back is left
/// open.
pub fn find_path(source: &NodeId, target: &NodeId, amount_msat: u64, channels: &Vec<Channel>) -> (r:
    Option<Path>)
    ensures
        r is Some == reachable(
            channels.deep_view(),
            source.deep_view(),
            target.deep_view(),
            amount_msat,
        ),
        match r {
            Some(path) => cheapest(
                path.deep_view(),
                channels.deep_view(),
                source.deep_view(),
                target.deep_view(),
                amount_msat,
            ),
            None => true,
        },
        source.deep_view() == target.deep_view() ==> (r matches Some(path) && path.hops@.len() == 0
            && path.total_cost_msat == 0),
{
    let ghost all = channels.deep_view();
    let ghost from = source.deep_view();
    let ghost to = target.deep_view();
    if same_text(source.as_str(), target.as_str()) {
        let path = Path { hops: Vec::new(), total_cost_msat: 0 };
        proof {
            let nothing = Seq::<int>::empty();
            assert(walk_end(all, from, nothing) == Some(to));
            assert(walk_cost(all, amount_msat, nothing) == 0);
            assert(path.deep_view().hops =~= walk_hops(all, amount_msat, nothing));
        }
        return Some(path);
    }
    let first = Reached { node: source.clone(), cost: 0, route: Vec::new(), settled: false };
    let mut reached: Vec<Reached> = Vec::new();
    reached.push(first);
    proof {
        assert(as_walk(reached@[0].route@) =~= Seq::<int>::empty());
        assert(names(all, from)[0] == from);
    }
    let mut bound: Ghost<u64> = Ghost(0);
    loop
        invariant
            all == channels.deep_view(),
            from == source.deep_view(),
            to == target.deep_view(),
            from != to,
            ways_hold(reached@, all, from, amount_msat),
            settled_followed(reached@, all, amount_msat, -1),
            split_at(reached@, bound@),
            forall|i: int|
                0 <= i < reached.len() && (#[trigger] reached@[i]).settled
                    ==> reached@[i].node.deep_view() != to,
        decreases 2 * all.len() + 1 - settled_count(reached@),
    {
        let t: usize = match next_to_settle(&reached) {
            Some(t) => t,
            None => {
                proof {
                    if reachable(all, from, to, amount_msat) {
                        let walk = choose|walk: Seq<int>|
                            #[trigger] walk_end(all, from, walk) == Some(to) && walk_cost(
                                all,
                                amount_msat,
                                walk,
                            ) < u64::MAX;
                        lemma_cheap_walk_is_settled(
                            reached@,
                            all,
                            from,
                            amount_msat,
                            u64::MAX,
                            walk,
                        );
                    }
                }
                return None;
            },
        };
        if same_text(reached[t].node.as_str(), target.as_str()) {
            let ghost best = as_walk(reached@[t as int].route@);
            proof {
                assert(walk_end(all, from, best) == Some(to));
                lemma_walk_in_range(all, from, best);
                assert forall|i: int| 0 <= i < reached@[t as int].route.len() implies (
                #[trigger] reached@[t as int].route@[i]) < channels.len() by {
                    assert(best[i] == reached@[t as int].route@[i]);
                }
                assert forall|walk: Seq<int>|
                    #[trigger] walk_end(all, from, walk) == Some(to) implies reached@[t as int].cost
                    <= walk_cost(all, amount_msat, walk) by {
                    if walk_cost(all, amount_msat, walk) < reached@[t as int].cost {
                        lemma_cheap_walk_is_settled(
                            reached@,
                            all,
                            from,
                            amount_msat,
                            reached@[t as int].cost,
                            walk,
                        );
                    }
                }
                assert(reachable(all, from, to, amount_msat));
            }
            let path = path_along(channels, amount_msat, &reached[t].route, reached[t].cost);
            assert(cheapest(path.deep_view(), all, from, to, amount_msat));
            return Some(path);
        }
        let ghost before = reached@;
        let entry = Reached {
            node: reached[t].node.clone(),
            cost: reached[t].cost,
            route: copied(&reached[t].route),
            settled: true,
        };
        reached.set(t, entry);
        proof {
            lemma_settled_count_update(before, t as int, entry);
            lemma_settle(before, reached@, all, from, to, amount_msat, t as int, bound@);
            lemma_reached_is_bounded(reached@, all, from, amount_msat);
            lemma_settled_count_bound(reached@);
        }
        let ghost settled_now = reached@;
        let mut k: usize = 0;
        while k < channels.len()
            invariant
                k <= channels.len(),
                all == channels.deep_view(),
                searching(reached@, all, from, to, amount_msat, t as int),
                reached@[t as int] == entry,
                settled_count(reached@) == settled_count(settled_now),
                forall|h: int|
                    0 <= h < k ==> #[trigger] followed(reached@, all, amount_msat, t as int, h),
            decreases channels.len() - k,
        {
            let ghost previous = reached@;
            follow(&mut reached, channels, amount_msat, t, k, Ghost(from), Ghost(to));
            assert forall|h: int| 0 <= h < k + 1 implies #[trigger] followed(
                reached@,
                all,
                amount_msat,
                t as int,
                h,
            ) by {
                if h < k {
                    assert(followed(previous, all, amount_msat, t as int, h));
                }
            }
            k += 1;
        }
        proof {
            bound@ = entry.cost;
            assert forall|i: int, h: int|
                0 <= i < reached.len() && reached@[i].settled && i != -1 && 0 <= h
                    < all.len() implies #[trigger] followed(reached@, all, amount_msat, i, h) by {
                if i == t {
                    assert(followed(reached@, all, amount_msat, t as int, h));
                }
            }
        }
    }
}

fn copied(route: &Vec<usize>) -> (r: Vec<usize>)
    ensures
        r@ == route@,
{
    let mut out: Vec<usize> = Vec::new();
    let mut i: usize = 0;
    while i < route.len()
        invariant
            i <= route.len(),
            out@ == route@.take(i as int),
        decreases route.len() - i,
    {
        out.push(route[i]);
        assert(out@ =~= route@.take(i + 1));
        i += 1;
    }
    assert(route@.take(i as int) =~= route@);
    out
}

proof fn lemma_settle(
    before: Seq<Reached>,
    after: Seq<Reached>,
    channels: Seq<ChannelView>,
    source: Seq<char>,
    target: Seq<char>,
    amount: u64,
    t: int,
    bound: u64,
)
    requires
        ways_hold(before, channels, source, amount),
        settled_followed(before, channels, amount, -1),
        split_at(before, bound),
        forall|i: int|
            0 <= i < before.len() && (#[trigger] before[i]).settled ==> before[i].node.deep_view()
                != target,
        0 <= t < before.len(),
        !before[t].settled,
        before[t].node.deep_view() != target,
        forall|i: int|
            0 <= i < before.len() && !(#[trigger] before[i]).settled ==> before[i].cost
                >= before[t].cost,
        after == before.update(t, after[t]),
        after[t].settled,
        after[t].node.deep_view() == before[t].node.deep_view(),
        after[t].cost == before[t].cost,
        after[t].route@ == before[t].route@,
    ensures
        searching(after, channels, source, target, amount, t),
{
    assert forall|i: int, h: int| 0 <= i < h < after.len() implies (#[trigger] after[i]).node.deep_view()
        != (#[trigger] after[h]).node.deep_view() by {
        assert(before[i].node.deep_view() != before[h].node.deep_view());
    }
    assert(ways_hold(after, channels, source, amount));
    assert forall|i: int, k: int|
        0 <= i < after.len() && after[i].settled && i != t && 0 <= k
            < channels.len() implies #[trigger] followed(after, channels, amount, i, k) by {
        assert(followed(before, channels, amount, i, k));
        let next = before[i].cost + cost_of(channels[k], amount);
        let node = other_end(channels[k], before[i].node.deep_view());
        if touches(channels[k], before[i].node.deep_view()) && next < u64::MAX {
            lemma_stays_within(before, after, node, next as nat);
        }
    }
}

/// A hop costs its base fee and the rate's share of the amount, in whole millisatoshis
/// rounded down, wherever the steps of that sum fit; it never costs less than the base
/// fee, and an amount whose share cannot be counted costs the greatest share that can.
/// Costs end at the greatest amount there is.
pub proof fn lemma_cost_is_base_and_share(c: ChannelView, amount: u64)
    ensures
        ({
            let base = c.fee_policy.base_fee_msat;
            let scaled = c.fee_policy.fee_rate_ppm * amount;
            let cost = cost_of(c, amount);
            &&& scaled <= u64::MAX && base + scaled / 1_000_000 <= u64::MAX ==> {
                &&& cost == base + scaled / 1_000_000
                &&& (cost - base) * 1_000_000 <= scaled
                &&& scaled < (cost - base + 1) * 1_000_000
            }
            &&& scaled <= u64::MAX && base + scaled / 1_000_000 > u64::MAX ==> cost == u64::MAX
            &&& scaled > u64::MAX && base + 18_446_744_073_709 <= u64::MAX ==> cost == base
                + 18_446_744_073_709
            &&& scaled > u64::MAX && base + 18_446_744_073_709 > u64::MAX ==> cost == u64::MAX
            &&& cost >= base
        }),
{
}

/// A dearer policy or a larger amount never makes a hop cheaper.
pub proof fn lemma_cost_rises(c: ChannelView, d: ChannelView, amount: u64, more: u64)
    requires
        c.fee_policy.base_fee_msat <= d.fee_policy.base_fee_msat,
        c.fee_policy.fee_rate_ppm <= d.fee_policy.fee_rate_ppm,
        amount <= more,
    ensures
        cost_of(c, amount) <= cost_of(d, more),
{
    assert(c.fee_policy.fee_rate_ppm * amount <= d.fee_policy.fee_rate_ppm * more)
        by (nonlinear_arith)
        requires
            c.fee_policy.fee_rate_ppm <= d.fee_policy.fee_rate_ppm,
            amount <= more,
    ;
}

/// Whether the channels at these places join these nodes, one after the other.
pub open spec fn joins(channels: Seq<ChannelView>, nodes: Seq<Seq<char>>, walk: Seq<int>) -> bool {
    &&& nodes.len() == walk.len() + 1
    &&& forall|i: int|
        0 <= i < walk.len() ==> 0 <= #[trigger] walk[i] < channels.len() && (
        channels[walk[i]].node == nodes[i] && channels[walk[i]].peer == nodes[i + 1]
            || channels[walk[i]].peer == nodes[i] && channels[walk[i]].node == nodes[i + 1])
}

/// The sum of the fees, base and share, of the channels at these places.
pub open spec fn fees(channels: Seq<ChannelView>, amount: u64, walk: Seq<int>) -> nat
    decreases walk.len(),
{
    if walk.len() == 0 {
        0
    } else {
        let policy = channels[walk[0]].fee_policy;
        policy.base_fee_msat as nat + (policy.fee_rate_ppm * amount / 1_000_000) as nat + fees(
            channels,
            amount,
            walk.skip(1),
        )
    }
}

/// Whether the fee of every channel for an amount can be counted.
pub open spec fn fees_fit(channels: Seq<ChannelView>, amount: u64) -> bool {
    forall|i: int|
        0 <= i < channels.len() ==> (#[trigger] channels[i]).fee_policy.fee_rate_ppm * amount
            <= u64::MAX && channels[i].fee_policy.base_fee_msat
            + channels[i].fee_policy.fee_rate_ppm * amount / 1_000_000 <= u64::MAX
}

proof fn lemma_fees_are_walk_cost(
    channels: Seq<ChannelView>,
    amount: u64,
    nodes: Seq<Seq<char>>,
    walk: Seq<int>,
)
    requires
        fees_fit(channels, amount),
        joins(channels, nodes, walk),
    ensures
        walk_end(channels, nodes[0], walk) == Some(nodes.last()),
        walk_cost(channels, amount, walk) == fees(channels, amount, walk),
    decreases walk.len(),
{
    if walk.len() > 0 {
        let front = walk.drop_last();
        let before = nodes.drop_last();
        assert forall|i: int| 0 <= i < front.len() implies 0 <= #[trigger] front[i]
            < channels.len() && (channels[front[i]].node == before[i] && channels[front[i]].peer
            == before[i + 1] || channels[front[i]].peer == before[i] && channels[front[i]].node
            == before[i + 1]) by {
            assert(front[i] == walk[i]);
        }
        lemma_fees_are_walk_cost(channels, amount, before, front);
        let last = walk[walk.len() - 1];
        assert(before.last() == nodes[walk.len() - 1]);
        lemma_fees_end(channels, amount, walk);
        let c = channels[last];
        assert(channels[last].fee_policy.fee_rate_ppm * amount <= u64::MAX);
        assert(cost_of(c, amount) == c.fee_policy.base_fee_msat + c.fee_policy.fee_rate_ppm * amount
            / 1_000_000);
    }
}

proof fn lemma_fees_end(channels: Seq<ChannelView>, amount: u64, walk: Seq<int>)
    requires
        walk.len() > 0,
    ensures
        fees(channels, amount, walk) == fees(channels, amount, walk.drop_last()) + channels[
        walk.last()].fee_policy.base_fee_msat as nat + (channels[walk.last()].fee_policy.fee_rate_ppm
            * amount / 1_000_000) as nat,
    decreases walk.len(),
{
    reveal_with_fuel(fees, 2);
    if walk.len() == 1 {
        assert(walk.skip(1) =~= seq![]);
        assert(walk.drop_last() =~= seq![]);
    } else {
        lemma_fees_end(channels, amount, walk.skip(1));
        assert(walk.skip(1).drop_last() =~= walk.drop_last().skip(1));
    }
}

proof fn lemma_walk_joins(channels: Seq<ChannelView>, from: Seq<char>, walk: Seq<int>) -> (nodes:
    Seq<Seq<char>>)
    requires
        walk_end(channels, from, walk) is Some,
    ensures
        joins(channels, nodes, walk),
        nodes[0] == from,
        nodes.last() == walk_end(channels, from, walk)->0,
    decreases walk.len(),
{
    if walk.len() == 0 {
        seq![from]
    } else {
        let before = lemma_walk_joins(channels, from, walk.drop_last());
        let nodes = before.push(walk_end(channels, from, walk)->0);
        assert forall|i: int| 0 <= i < walk.len() implies 0 <= #[trigger] walk[i]
            < channels.len() && (channels[walk[i]].node == nodes[i] && channels[walk[i]].peer
            == nodes[i + 1] || channels[walk[i]].peer == nodes[i] && channels[walk[i]].node
            == nodes[i + 1]) by {
            if i < walk.len() - 1 {
                assert(walk[i] == walk.drop_last()[i]);
                assert(nodes[i] == before[i] && nodes[i + 1] == before[i + 1]);
            }
        }
        nodes
    }
}

/// A cheapest path leads from node to node over channels that join them, names these
/// channels, and costs the sum of their fees.
pub proof fn lemma_cheapest_path_leads_to_target(
    path: PathView,
    channels: Seq<ChannelView>,
    source: Seq<char>,
    target: Seq<char>,
    amount: u64,
)
    requires
        cheapest(path, channels, source, target, amount),
        fees_fit(channels, amount),
    ensures
        exists|nodes: Seq<Seq<char>>, walk: Seq<int>|
            #[trigger] joins(channels, nodes, walk) && nodes[0] == source && nodes.last() == target
                && path.hops.len() == walk.len() && path.total_cost_msat == fees(
                channels,
                amount,
                walk,
            ) && forall|i: int|
                0 <= i < walk.len() ==> (#[trigger] path.hops[i]).channel_id == channels[walk[i]].id
                    && path.hops[i].cost_msat == channels[walk[i]].fee_policy.base_fee_msat
                    + channels[walk[i]].fee_policy.fee_rate_ppm * amount / 1_000_000,
{
    let walk = choose|walk: Seq<int>|
        #[trigger] walk_end(channels, source, walk) == Some(target) && path.hops == walk_hops(
            channels,
            amount,
            walk,
        ) && path.total_cost_msat == walk_cost(channels, amount, walk);
    let nodes = lemma_walk_joins(channels, source, walk);
    lemma_fees_are_walk_cost(channels, amount, nodes, walk);
    assert forall|i: int| 0 <= i < walk.len() implies (#[trigger] path.hops[i]).channel_id
        == channels[walk[i]].id && path.hops[i].cost_msat
        == channels[walk[i]].fee_policy.base_fee_msat + channels[walk[i]].fee_policy.fee_rate_ppm
        * amount / 1_000_000 by {
        assert(0 <= walk[i] < channels.len());
        assert(channels[walk[i]].fee_policy.fee_rate_ppm * amount <= u64::MAX);
    }
}

/// No way from the source to the target, whatever nodes and channels it takes, has a
/// smaller sum of fees than a cheapest path.
pub proof fn lemma_cheapest_path_is_not_undercut(
    path: PathView,
    channels: Seq<ChannelView>,
    amount: u64,
    nodes: Seq<Seq<char>>,
    walk: Seq<int>,
)
    requires
        joins(channels, nodes, walk),
        cheapest(path, channels, nodes[0], nodes.last(), amount),
        fees_fit(channels, amount),
    ensures
        path.total_cost_msat <= fees(channels, amount, walk),
{
    lemma_fees_are_walk_cost(channels, amount, nodes, walk);
}

/// A target can be reached exactly if some way leads there whose fees can be counted.
pub proof fn lemma_reachable_means_joined(
    channels: Seq<ChannelView>,
    source: Seq<char>,
    target: Seq<char>,
    amount: u64,
)
    requires
        fees_fit(channels, amount),
    ensures
        reachable(channels, source, target, amount) <==> exists|
            nodes: Seq<Seq<char>>,
            walk: Seq<int>,
        | #[trigger]
            joins(channels, nodes, walk) && nodes[0] == source && nodes.last() == target && fees(
                channels,
                amount,
                walk,
            ) < u64::MAX,
{
    if reachable(channels, source, target, amount) {
        let walk = choose|walk: Seq<int>|
            #[trigger] walk_end(channels, source, walk) == Some(target) && walk_cost(
                channels,
                amount,
                walk,
            ) < u64::MAX;
        let nodes = lemma_walk_joins(channels, source, walk);
        lemma_fees_are_walk_cost(channels, amount, nodes, walk);
        assert(joins(channels, nodes, walk));
    }
    if exists|nodes: Seq<Seq<char>>, walk: Seq<int>|
        #[trigger] joins(channels, nodes, walk) && nodes[0] == source && nodes.last() == target
            && fees(channels, amount, walk) < u64::MAX {
        let (nodes, walk) = choose|nodes: Seq<Seq<char>>, walk: Seq<int>|
            #[trigger] joins(channels, nodes, walk) && nodes[0] == source && nodes.last() == target
                && fees(channels, amount, walk) < u64::MAX;
        lemma_fees_are_walk_cost(channels, amount, nodes, walk);
        assert(walk_end(channels, source, walk) == Some(target));
    }
}

} // verus!
