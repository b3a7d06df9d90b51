//! Recent snapshots of each channel, held in memory.
use crate::domain::{Channel, ChannelId, ChannelSnapshot, ChannelSnapshotView, ChannelView};
use crate::domain;
use crate::graph;
use crate::text::same_text;
use crate::time::Timestamp;
use vstd::prelude::*;

verus! {

/// The snapshots of one channel, the oldest first.
pub struct BucketView {
    pub channel_id: Seq<char>,
    pub snapshots: Seq<ChannelSnapshotView>,
}

/// The place of the first bucket of a channel, or the number of buckets.
pub open spec fn bucket_place(buckets: Seq<BucketView>, id: Seq<char>) -> int
    decreases buckets.len(),
{
    if buckets.len() == 0 || buckets[0].channel_id == id {
        0
    } else {
        1 + bucket_place(buckets.skip(1), id)
    }
}

/// The snapshots kept of a channel, the oldest first.
pub open spec fn kept(buckets: Seq<BucketView>, id: Seq<char>) -> Seq<ChannelSnapshotView> {
    let place = bucket_place(buckets, id);
    if 0 <= place < buckets.len() {
        buckets[place].snapshots
    } else {
        seq![]
    }
}

/// The last `max` items.
pub open spec fn newest<T>(all: Seq<T>, max: nat) -> Seq<T> {
    if all.len() <= max {
        all
    } else {
        all.skip(all.len() - max)
    }
}

/// The history with one more snapshot, of which each channel keeps the last
/// `max`.
pub open spec fn pushed(
    buckets: Seq<BucketView>,
    snapshot: ChannelSnapshotView,
    max: nat,
) -> Seq<BucketView> {
    let id = snapshot.channel_id;
    graph::put(
        buckets,
        bucket_place(buckets, id),
        BucketView {
            channel_id: id,
            snapshots: newest(kept(buckets, id).push(snapshot), max),
        },
    )
}

/// The history with one more snapshot of each of these channels.
pub open spec fn pushed_channels(
    buckets: Seq<BucketView>,
    channels: Seq<ChannelView>,
    ts: Timestamp,
    max: nat,
) -> Seq<BucketView>
    decreases channels.len(),
{
    if channels.len() == 0 {
        buckets
    } else {
        pushed(
            pushed_channels(buckets, channels.drop_last(), ts, max),
            domain::snapshot_on(channels.last(), ts, None),
            max,
        )
    }
}

/// How many snapshots all buckets hold.
pub open spec fn total_kept(buckets: Seq<BucketView>) -> nat
    decreases buckets.len(),
{
    if buckets.len() == 0 {
        0
    } else {
        total_kept(buckets.drop_last()) + buckets.last().snapshots.len()
    }
}

/// What detectors read of the past.
pub trait HistoryView {
    /// The snapshots of each channel.
    spec fn buckets(&self) -> Seq<BucketView>;

    /// The newest snapshots of a channel, the newest first, at most `limit`.
    fn recent_channel_snapshots(&self, channel_id: &ChannelId, limit: usize) -> (r: Vec<
        ChannelSnapshot,
    >)
        ensures
            r.deep_view() == graph::newest_first(
                kept(self.buckets(), channel_id.deep_view()),
                limit as nat,
            ),
    ;
}

#[derive(Debug)]
struct Bucket {
    channel_id: String,
    snapshots: Vec<ChannelSnapshot>,
}

impl DeepView for Bucket {
    type V = BucketView;

    closed spec fn deep_view(&self) -> BucketView {
        BucketView { channel_id: self.channel_id@, snapshots: self.snapshots.deep_view() }
    }
}

impl Clone for Bucket {
    fn clone(&self) -> (r: Self)
        ensures
            r.deep_view() == self.deep_view(),
    {
        let snapshots = self.snapshots.clone();
        assert(snapshots.deep_view() =~= self.snapshots.deep_view());
        Bucket { channel_id: self.channel_id.clone(), snapshots }
    }
}

/// A history held in memory, of which each channel keeps so many snapshots.
#[derive(Debug)]
pub struct InMemoryHistory {
    buckets: Vec<Bucket>,
    max_per_channel: usize,
}

proof fn lemma_bucket_place(buckets: Seq<BucketView>, id: Seq<char>, k: int)
    requires
        0 <= k <= buckets.len(),
        forall|i: int| 0 <= i < k ==> (#[trigger] buckets[i]).channel_id != id,
        k < buckets.len() ==> buckets[k].channel_id == id,
    ensures
        bucket_place(buckets, id) == k,
    decreases k,
{
    if k > 0 {
        assert(buckets[0].channel_id != id);
        assert forall|i: int| 0 <= i < k - 1 implies (#[trigger] buckets.skip(1)[i]).channel_id
            != id by {
            assert(buckets[i + 1].channel_id != id);
        }
        lemma_bucket_place(buckets.skip(1), id, k - 1);
    }
}

impl Default for InMemoryHistory {
    fn default() -> (r: Self)
        ensures
            r.buckets() == Seq::<BucketView>::empty(),
            r.max() == 0,
    {
        InMemoryHistory::new(0)
    }
}

impl Clone for InMemoryHistory {
    fn clone(&self) -> (r: Self)
        ensures
            r.buckets() == self.buckets(),
            r.max() == self.max(),
    {
        let buckets = self.buckets.clone();
        assert(buckets.deep_view() =~= self.buckets.deep_view());
        InMemoryHistory { buckets, max_per_channel: self.max_per_channel }
    }
}

impl InMemoryHistory {
    /// How many snapshots each channel keeps.
    pub closed spec fn max(&self) -> nat {
        self.max_per_channel as nat
    }

    /// A history with nothing in it.
    pub fn new(max_per_channel: usize) -> (r: InMemoryHistory)
        ensures
            r.buckets() == Seq::<BucketView>::empty(),
            r.max() == max_per_channel,
    {
        let r = InMemoryHistory { buckets: Vec::new(), max_per_channel };
        assert(r.buckets.deep_view() =~= Seq::<BucketView>::empty());
        r
    }

    fn place_of(&self, id: &str) -> (r: usize)
        ensures
            r == bucket_place(self.buckets(), id@),
            r <= self.buckets.len(),
    {
        let ghost all = self.buckets.deep_view();
        let mut i: usize = 0;
        while i < self.buckets.len()
            invariant
                i <= self.buckets.len(),
                all == self.buckets.deep_view(),
                forall|k: int| 0 <= k < i ==> (#[trigger] all[k]).channel_id != id@,
            decreases self.buckets.len() - i,
        {
            assert(all[i as int] == self.buckets[i as int].deep_view());
            if same_text(self.buckets[i].channel_id.as_str(), id) {
                proof {
                    lemma_bucket_place(all, id@, i as int);
                }
                return i;
            }
            i += 1;
        }
        proof {
            lemma_bucket_place(all, id@, i as int);
        }
        i
    }

    /// Keeps a snapshot, in place of the oldest where there is no room.
    pub fn push(&mut self, snapshot: ChannelSnapshot)
        ensures
            final(self).buckets() == pushed(
                old(self).buckets(),
                snapshot.deep_view(),
                old(self).max(),
            ),
            final(self).max() == old(self).max(),
    {
        let ghost before = self.buckets.deep_view();
        let ghost view = snapshot.deep_view();
        let i = self.place_of(snapshot.channel_id.as_str());
        let id = snapshot.channel_id.clone();
        let mut all: Vec<ChannelSnapshot> = if i < self.buckets.len() {
            assert(before[i as int] == self.buckets[i as int].deep_view());
            self.buckets[i].snapshots.clone()
        } else {
            Vec::new()
        };
        assert(all.deep_view() =~= kept(before, id@));
        all.push(snapshot);
        assert(all.deep_view() =~= kept(before, id@).push(view));
        let snapshots = last_of(&all, self.max_per_channel);
        let bucket = Bucket { channel_id: id, snapshots };
        let ghost bucket_view = bucket.deep_view();
        if i < self.buckets.len() {
            self.buckets.set(i, bucket);
            assert(self.buckets.deep_view() =~= before.update(i as int, bucket_view));
        } else {
            self.buckets.push(bucket);
            assert(self.buckets.deep_view() =~= before.push(bucket_view));
        }
    }

    /// Keeps a snapshot of each channel, which names no network.
    pub fn push_channels(&mut self, channels: &Vec<Channel>, ts: Timestamp)
        ensures
            final(self).buckets() == pushed_channels(
                old(self).buckets(),
                channels.deep_view(),
                ts,
                old(self).max(),
            ),
            final(self).max() == old(self).max(),
    {
        let ghost all = channels.deep_view();
        let ghost start = self.buckets();
        let ghost max = self.max();
        let mut i: usize = 0;
        while i < channels.len()
            invariant
                i <= channels.len(),
                all == channels.deep_view(),
                self.buckets() == pushed_channels(start, all.take(i as int), ts, max),
                self.max() == max,
            decreases channels.len() - i,
        {
            assert(all.take(i + 1).drop_last() =~= all.take(i as int));
            assert(all.take(i + 1).last() == channels[i as int].deep_view());
            self.push(ChannelSnapshot::seen_on(&channels[i], ts, None));
            i += 1;
        }
        assert(all.take(i as int) =~= all);
    }

    /// How many snapshots are kept in all, where a machine word can count them.
    pub fn len(&self) -> (r: usize)
        requires
            total_kept(self.buckets()) <= usize::MAX,
        ensures
            r == total_kept(self.buckets()),
    {
        let ghost all = self.buckets.deep_view();
        let mut total: usize = 0;
        let mut i: usize = 0;
        while i < self.buckets.len()
            invariant
                i <= self.buckets.len(),
                all == self.buckets.deep_view(),
                total_kept(all) <= usize::MAX,
                total == total_kept(all.take(i as int)),
            decreases self.buckets.len() - i,
        {
            assert(all.take(i + 1).drop_last() =~= all.take(i as int));
            assert(all.take(i + 1).last() == self.buckets[i as int].deep_view());
            proof {
                lemma_total_grows(all, i + 1);
            }
            total = total + self.buckets[i].snapshots.len();
            i += 1;
        }
        assert(all.take(i as int) =~= all);
        total
    }

    /// Whether no channel has a history.
    pub fn is_empty(&self) -> (r: bool)
        ensures
            r == (self.buckets().len() == 0),
    {
        self.buckets.len() == 0
    }
}

proof fn lemma_total_grows(buckets: Seq<BucketView>, k: int)
    requires
        0 <= k <= buckets.len(),
    ensures
        total_kept(buckets.take(k)) <= total_kept(buckets),
    decreases buckets.len(),
{
    if k < buckets.len() {
        lemma_total_grows(buckets.drop_last(), k);
        assert(buckets.drop_last().take(k) =~= buckets.take(k));
    } else {
        assert(buckets.take(k) =~= buckets);
    }
}

fn last_of(all: &Vec<ChannelSnapshot>, max: usize) -> (r: Vec<ChannelSnapshot>)
    ensures
        r.deep_view() == newest(all.deep_view(), max as nat),
{
    let from: usize = if all.len() <= max {
        0
    } else {
        all.len() - max
    };
    let ghost wanted = newest(all.deep_view(), max as nat);
    assert(wanted =~= all.deep_view().skip(from as int));
    let mut out: Vec<ChannelSnapshot> = Vec::new();
    let mut i: usize = from;
    while i < all.len()
        invariant
            from <= i <= all.len(),
            wanted == all.deep_view().skip(from as int),
            out.deep_view() == wanted.take(i - from),
        decreases all.len() - i,
    {
        let ghost before = out.deep_view();
        let item = all[i].clone();
        out.push(item);
        assert(out.deep_view() =~= before.push(item.deep_view()));
        assert(wanted[i - from] == all[i as int].deep_view());
        assert(out.deep_view() =~= wanted.take(i + 1 - from));
        i += 1;
    }
    assert(wanted.take(i - from) =~= wanted);
    out
}

impl HistoryView for InMemoryHistory {
    closed spec fn buckets(&self) -> Seq<BucketView> {
        self.buckets.deep_view()
    }

    fn recent_channel_snapshots(&self, channel_id: &ChannelId, limit: usize) -> (r: Vec<
        ChannelSnapshot,
    >) {
        let i = self.place_of(channel_id.as_str());
        let mut out: Vec<ChannelSnapshot> = Vec::new();
        if i == self.buckets.len() {
            assert(out.deep_view() =~= graph::newest_first(
                kept(self.buckets(), channel_id.deep_view()),
                limit as nat,
            ));
            return out;
        }
        assert(self.buckets.deep_view()[i as int] == self.buckets[i as int].deep_view());
        let bucket = &self.buckets[i].snapshots;
        let ghost all = bucket.deep_view();
        while out.len() < limit && out.len() < bucket.len()
            invariant
                all == bucket.deep_view(),
                out.len() <= limit,
                out.len() <= bucket.len(),
                forall|k: int|
                    0 <= k < out.len() ==> #[trigger] out.deep_view()[k] == all[all.len() - 1 - k],
            decreases bucket.len() - out.len(),
        {
            let ghost before = out.deep_view();
            let item = bucket[bucket.len() - 1 - out.len()].clone();
            out.push(item);
            assert(out.deep_view() =~= before.push(item.deep_view()));
        }
        assert(out.deep_view() =~= graph::newest_first(all, limit as nat));
        out
    }
}

proof fn lemma_bucket_place_is_first(buckets: Seq<BucketView>, id: Seq<char>)
    ensures
        0 <= bucket_place(buckets, id) <= buckets.len(),
        bucket_place(buckets, id) < buckets.len() ==> buckets[bucket_place(
            buckets,
            id,
        )].channel_id == id,
        forall|i: int|
            0 <= i < bucket_place(buckets, id) ==> (#[trigger] buckets[i]).channel_id != id,
    decreases buckets.len(),
{
    if buckets.len() > 0 && buckets[0].channel_id != id {
        lemma_bucket_place_is_first(buckets.skip(1), id);
        assert forall|i: int| 0 <= i < bucket_place(buckets, id) implies (
        #[trigger] buckets[i]).channel_id != id by {
            if i > 0 {
                assert(buckets.skip(1)[i - 1] == buckets[i]);
            }
        }
    }
}

/// A snapshot that was kept is the newest of its channel, no channel keeps more
/// than its share, and no other channel's history changes.
pub proof fn lemma_push_is_bounded_and_local(
    buckets: Seq<BucketView>,
    snapshot: ChannelSnapshotView,
    max: nat,
    other: Seq<char>,
)
    ensures
        kept(pushed(buckets, snapshot, max), snapshot.channel_id) == newest(
            kept(buckets, snapshot.channel_id).push(snapshot),
            max,
        ),
        kept(pushed(buckets, snapshot, max), snapshot.channel_id).len() <= max,
        max > 0 ==> kept(pushed(buckets, snapshot, max), snapshot.channel_id).last() == snapshot,
        other != snapshot.channel_id ==> kept(pushed(buckets, snapshot, max), other) == kept(
            buckets,
            other,
        ),
{
    let id = snapshot.channel_id;
    let after = pushed(buckets, snapshot, max);
    lemma_bucket_place_is_first(buckets, id);
    let k = bucket_place(buckets, id);
    assert forall|i: int| 0 <= i < k implies (#[trigger] after[i]).channel_id != id by {
        assert(buckets[i].channel_id != id);
    }
    assert(after[k].channel_id == id);
    lemma_bucket_place(after, id, k);
    if other != id {
        lemma_bucket_place_is_first(buckets, other);
        let p = bucket_place(buckets, other);
        if p < buckets.len() {
            assert(after[p] == buckets[p]);
            assert forall|i: int| 0 <= i < p implies (#[trigger] after[i]).channel_id != other by {
                if i != k {
                    assert(after[i] == buckets[i]);
                }
            }
            lemma_bucket_place(after, other, p);
        } else {
            assert forall|i: int| 0 <= i < after.len() implies (#[trigger] after[i]).channel_id
                != other by {
                if i != k {
                    assert(after[i] == buckets[i]);
                }
            }
            lemma_bucket_place(after, other, after.len() as int);
        }
    }
}

/// A channel's history grows at its end. As long as there is room nothing is
/// lost; once there is none, the oldest snapshot goes, and no other.
pub proof fn lemma_the_oldest_snapshot_goes(
    buckets: Seq<BucketView>,
    snapshot: ChannelSnapshotView,
    max: nat,
)
    requires
        max > 0,
        kept(buckets, snapshot.channel_id).len() <= max,
    ensures
        ({
            let before = kept(buckets, snapshot.channel_id);
            let after = kept(pushed(buckets, snapshot, max), snapshot.channel_id);
            &&& before.len() < max ==> after == before.push(snapshot)
            &&& before.len() == max ==> after == before.skip(1).push(snapshot)
        }),
{
    lemma_push_is_bounded_and_local(buckets, snapshot, max, snapshot.channel_id);
    let before = kept(buckets, snapshot.channel_id);
    if before.len() == max {
        assert(before.push(snapshot).skip(1) =~= before.skip(1).push(snapshot));
    }
}

/// Channels are kept one after the other, each as a snapshot of the moment on no
/// network in particular; no channels change nothing.
pub proof fn lemma_channels_are_kept_in_turn(
    buckets: Seq<BucketView>,
    channels: Seq<ChannelView>,
    c: ChannelView,
    ts: Timestamp,
    max: nat,
)
    ensures
        pushed_channels(buckets, seq![], ts, max) == buckets,
        ({
            let before = pushed_channels(buckets, channels, ts, max);
            let after = pushed_channels(buckets, channels.push(c), ts, max);
            &&& kept(after, c.id).len() <= max
            &&& max > 0 ==> {
                let s = kept(after, c.id).last();
                &&& s.channel_id == c.id && s.ts == ts && s.network is None
                &&& s.node_id == Some(c.node)
                &&& s.capacity_msat == c.capacity_msat
                &&& s.local_balance_msat == c.liquidity.local_balance_msat
                &&& s.remote_balance_msat == c.liquidity.remote_balance_msat
                &&& s.status == c.status
            }
            &&& forall|other: Seq<char>|
                other != c.id ==> #[trigger] kept(after, other) == kept(before, other)
        }),
{
    assert(channels.push(c).drop_last() =~= channels);
    let before = pushed_channels(buckets, channels, ts, max);
    let s = domain::snapshot_on(c, ts, None);
    assert forall|other: Seq<char>| other != c.id implies #[trigger] kept(
        pushed(before, s, max),
        other,
    ) == kept(before, other) by {
        lemma_push_is_bounded_and_local(before, s, max, other);
    }
    lemma_push_is_bounded_and_local(before, s, max, c.id);
}

/// What is kept in all is the sum of what each channel keeps.
pub proof fn lemma_histories_add_up(buckets: Seq<BucketView>, bucket: BucketView)
    ensures
        total_kept(seq![]) == 0,
        total_kept(buckets.push(bucket)) == total_kept(buckets) + bucket.snapshots.len(),
{
    assert(buckets.push(bucket).drop_last() =~= buckets);
}

} // verus!
