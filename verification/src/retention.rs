//! How long snapshots are kept, and which of them go.
use crate::domain::{
    same_network, BitcoinNetwork, ChannelSnapshot, ChannelSnapshotView, ChannelStatus,
};
use crate::text;
use crate::text::{same_optional_text, same_text};
use crate::time::{Period, Timestamp, MIN_SECOND};
use vstd::prelude::*;

verus! {

/// What bounds the growth of the snapshots.
#[derive(Debug, Clone, Copy, PartialEq, Eq, Structural)]
pub struct RetentionPolicy {
    /// Older snapshots go.
    pub snapshot_max_age: Period,
    /// Older snapshots of channels that are closed or closing go.
    pub closed_channel_max_age: Period,
    /// How many snapshots each channel keeps, the newest ones.
    pub max_snapshots_per_channel: Option<usize>,
    /// How many snapshots are kept in all, the newest ones.
    pub max_total_snapshots: Option<usize>,
    /// How often the snapshots are gone through.
    pub cleanup_interval: Period,
}

impl Default for RetentionPolicy {
    fn default() -> (r: RetentionPolicy)
        ensures
            r.snapshot_max_age == (Period { secs: 2_592_000, nanos: 0 }),
            r.closed_channel_max_age == (Period { secs: 259_200, nanos: 0 }),
            r.max_snapshots_per_channel is None,
            r.max_total_snapshots is None,
            r.cleanup_interval == (Period { secs: 21_600, nanos: 0 }),
    {
        RetentionPolicy {
            snapshot_max_age: Period::from_secs(2_592_000),
            closed_channel_max_age: Period::from_secs(259_200),
            max_snapshots_per_channel: None,
            max_total_snapshots: None,
            cleanup_interval: Period::from_secs(21_600),
        }
    }
}

impl RetentionPolicy {
    /// How old a snapshot of a channel in this state may be.
    pub open spec fn age_limit(self, status: ChannelStatus) -> Period {
        if status.ending() {
            self.closed_channel_max_age
        } else {
            self.snapshot_max_age
        }
    }

    /// How old a snapshot of a channel in this state may be.
    pub fn max_age_for_status(&self, status: ChannelStatus) -> (r: Period)
        ensures
            r == self.age_limit(status),
    {
        if status.is_closed() {
            self.closed_channel_max_age
        } else {
            self.snapshot_max_age
        }
    }
}

/// What came of going through the snapshots.
#[derive(Debug, Clone, Copy, PartialEq, Eq, Structural)]
pub struct PruneSummary {
    pub deleted_snapshots: usize,
    /// Whether every bound was applied.
    pub complete: bool,
}

/// The longest age that can be reckoned with, in nanoseconds: as many
/// milliseconds as a signed 64-bit number counts.
pub const LONGEST_AGE_NANOS: i128 = 9_223_372_036_854_775_807_000_000;

/// An age in nanoseconds; none where it is too long to reckon with.
pub open spec fn reckoned(age: Period) -> int {
    if age.length() <= LONGEST_AGE_NANOS {
        age.length() as int
    } else {
        0
    }
}

/// The seconds and nanoseconds of the moment before which snapshots of this age
/// limit go. Less than a second before a point in a leap second is reckoned within
/// the second that the leap second belongs to.
pub open spec fn cutoff(age: Period, now: Timestamp) -> (int, int) {
    let back = reckoned(age);
    if now.leap() && back < 1_000_000_000 {
        (now.secs as int, now.nanos - back)
    } else {
        let at = now.instant() - back;
        (at / 1_000_000_000, at % 1_000_000_000)
    }
}

/// More whole seconds than lie between a cutoff and the Unix epoch.
const MANY_SECONDS: i128 = 10_000_000_000_000_000_000;

/// The seconds and nanoseconds of the moment before which snapshots of this age
/// limit go.
pub fn cutoff_of(age: Period, now: Timestamp) -> (r: (i128, i128))
    ensures
        r.0 == cutoff(age, now).0,
        r.1 == cutoff(age, now).1,
{
    let whole: i128 = age.to_nanos();
    let back: i128 = if whole <= LONGEST_AGE_NANOS {
        whole
    } else {
        0
    };
    if now.nanos >= 1_000_000_000 && back < 1_000_000_000 {
        return (now.secs as i128, now.nanos as i128 - back);
    }
    let at: i128 = now.to_nanos() - back;
    let since: i128 = at + MANY_SECONDS * 1_000_000_000;
    (since / 1_000_000_000 - MANY_SECONDS, since % 1_000_000_000)
}

/// The moment before which snapshots of this age limit go; where that is before the
/// calendar begins, the beginning of the calendar. No point in time has more than
/// two seconds' worth of nanoseconds.
pub fn cutoff_time(age: Period, now: Timestamp) -> (r: Timestamp)
    requires
        now.nanos < 2_000_000_000,
    ensures
        cutoff(age, now).0 < MIN_SECOND ==> r == (Timestamp { secs: MIN_SECOND, nanos: 0 }),
        cutoff(age, now).0 >= MIN_SECOND ==> (r.secs as int, r.nanos as int) == cutoff(age, now),
        now.proper() ==> r.proper(),
        now.secs >= MIN_SECOND ==> MIN_SECOND <= r.secs <= now.secs,
{
    let (secs, nanos): (i128, i128) = cutoff_of(age, now);
    if secs < MIN_SECOND as i128 {
        return Timestamp { secs: MIN_SECOND, nanos: 0 };
    }
    Timestamp { secs: secs as i64, nanos: nanos as u32 }
}

/// Whether a point in time comes before the point at these seconds and nanoseconds.
pub open spec fn comes_before(t: Timestamp, limit: (int, int)) -> bool {
    t.secs < limit.0 || (t.secs == limit.0 && t.nanos < limit.1)
}

/// Whether a snapshot is too old to be kept.
pub open spec fn expired(s: ChannelSnapshotView, policy: RetentionPolicy, now: Timestamp) -> bool {
    comes_before(s.ts, cutoff(policy.age_limit(s.status), now))
}

/// The snapshots that are not too old, in order.
pub open spec fn unexpired(
    all: Seq<ChannelSnapshotView>,
    policy: RetentionPolicy,
    now: Timestamp,
) -> Seq<ChannelSnapshotView>
    decreases all.len(),
{
    if all.len() == 0 {
        seq![]
    } else {
        let before = unexpired(all.drop_last(), policy, now);
        if expired(all.last(), policy, now) {
            before
        } else {
            before.push(all.last())
        }
    }
}

/// Whether two snapshots are of the same channel of the same node and network.
pub open spec fn same_channel(a: ChannelSnapshotView, b: ChannelSnapshotView) -> bool {
    a.network == b.network && a.node_id == b.node_id && a.channel_id == b.channel_id
}

/// The place of a network among the others; none comes first.
pub open spec fn network_place(network: Option<BitcoinNetwork>) -> int {
    match network {
        None => 0,
        Some(BitcoinNetwork::Mainnet) => 1,
        Some(BitcoinNetwork::Testnet) => 2,
        Some(BitcoinNetwork::Signet) => 3,
        Some(BitcoinNetwork::Regtest) => 4,
    }
}

/// Whether one optional text comes before another; none comes first.
pub open spec fn optional_precedes(a: Option<Seq<char>>, b: Option<Seq<char>>) -> bool {
    match (a, b) {
        (None, Some(_)) => true,
        (Some(x), Some(y)) => text::precedes(x, y),
        _ => false,
    }
}

/// Whether the channel of `a` comes before that of `b`: by network, then by node,
/// then by channel.
pub open spec fn channel_precedes(a: ChannelSnapshotView, b: ChannelSnapshotView) -> bool {
    if a.network != b.network {
        network_place(a.network) < network_place(b.network)
    } else if a.node_id != b.node_id {
        optional_precedes(a.node_id, b.node_id)
    } else {
        text::precedes(a.channel_id, b.channel_id)
    }
}

/// Whether the snapshot at place `j` is kept before the one at place `i`: it is
/// newer, or as new and of a channel that comes before, or of the same channel and
/// came first. Where `within` is set, only snapshots of one channel stand against
/// each other.
pub open spec fn outranks(all: Seq<ChannelSnapshotView>, j: int, i: int, within: bool) -> bool {
    (within ==> same_channel(all[j], all[i])) && (all[j].ts.order() > all[i].ts.order() || (
    all[j].ts.order() == all[i].ts.order() && (channel_precedes(all[j], all[i]) || (same_channel(
        all[j],
        all[i],
    ) && j < i))))
}

/// How many of the first `n` snapshots are kept before the one at place `i`.
pub open spec fn rank(all: Seq<ChannelSnapshotView>, n: int, i: int, within: bool) -> nat
    decreases n,
{
    if n <= 0 {
        0
    } else {
        rank(all, n - 1, i, within) + (if outranks(all, n - 1, i, within) {
            1nat
        } else {
            0
        })
    }
}

/// Those of the first `n` snapshots that are among the first `cap` to be kept.
pub open spec fn top(all: Seq<ChannelSnapshotView>, n: int, cap: nat, within: bool) -> Seq<
    ChannelSnapshotView,
>
    decreases n,
{
    if n <= 0 {
        seq![]
    } else {
        let before = top(all, n - 1, cap, within);
        if rank(all, all.len() as int, n - 1, within) < cap {
            before.push(all[n - 1])
        } else {
            before
        }
    }
}

/// The snapshots that are among the first `cap` to be kept, in order.
pub open spec fn capped(all: Seq<ChannelSnapshotView>, cap: Option<usize>, within: bool) -> Seq<
    ChannelSnapshotView,
> {
    match cap {
        Some(n) => top(all, all.len() as int, n as nat, within),
        None => all,
    }
}

/// The snapshots that a policy keeps: those that are not too old, of these the
/// newest of each channel, and of these the newest in all.
pub open spec fn retained(
    all: Seq<ChannelSnapshotView>,
    policy: RetentionPolicy,
    now: Timestamp,
) -> Seq<ChannelSnapshotView> {
    capped(
        capped(unexpired(all, policy, now), policy.max_snapshots_per_channel, true),
        policy.max_total_snapshots,
        false,
    )
}

fn keep_unexpired(all: &Vec<ChannelSnapshot>, policy: &RetentionPolicy, now: Timestamp) -> (r: Vec<
    ChannelSnapshot,
>)
    ensures
        r.deep_view() == unexpired(all.deep_view(), *policy, now),
{
    let ghost views = all.deep_view();
    let mut out: Vec<ChannelSnapshot> = Vec::new();
    let mut i: usize = 0;
    assert(out.deep_view() =~= unexpired(views.take(0), *policy, now));
    while i < all.len()
        invariant
            i <= all.len(),
            views == all.deep_view(),
            out.deep_view() == unexpired(views.take(i as int), *policy, now),
        decreases all.len() - i,
    {
        assert(views.take(i + 1).drop_last() =~= views.take(i as int));
        assert(views.take(i + 1).last() == all[i as int].deep_view());
        let limit = cutoff_of(policy.max_age_for_status(all[i].status), now);
        let secs: i128 = all[i].ts.secs as i128;
        let nanos: i128 = all[i].ts.nanos as i128;
        if !(secs < limit.0 || (secs == limit.0 && nanos < limit.1)) {
            let ghost before = out.deep_view();
            let item = all[i].clone();
            out.push(item);
            assert(out.deep_view() =~= before.push(item.deep_view()));
        }
        i += 1;
    }
    assert(views.take(i as int) =~= views);
    out
}

fn is_same_channel(a: &ChannelSnapshot, b: &ChannelSnapshot) -> (r: bool)
    ensures
        r == same_channel(a.deep_view(), b.deep_view()),
{
    same_network(a.network, b.network) && same_optional_text(&a.node_id, &b.node_id) && same_text(
        a.channel_id.as_str(),
        b.channel_id.as_str(),
    )
}

fn place_of(network: Option<BitcoinNetwork>) -> (r: u8)
    ensures
        r == network_place(network),
{
    match network {
        None => 0,
        Some(BitcoinNetwork::Mainnet) => 1,
        Some(BitcoinNetwork::Testnet) => 2,
        Some(BitcoinNetwork::Signet) => 3,
        Some(BitcoinNetwork::Regtest) => 4,
    }
}

fn is_channel_before(a: &ChannelSnapshot, b: &ChannelSnapshot) -> (r: bool)
    ensures
        r == channel_precedes(a.deep_view(), b.deep_view()),
{
    if !same_network(a.network, b.network) {
        place_of(a.network) < place_of(b.network)
    } else if !same_optional_text(&a.node_id, &b.node_id) {
        match (&a.node_id, &b.node_id) {
            (None, Some(_)) => true,
            (Some(x), Some(y)) => text::text_precedes(x.as_str(), y.as_str()),
            _ => false,
        }
    } else {
        text::text_precedes(a.channel_id.as_str(), b.channel_id.as_str())
    }
}

fn is_ahead(all: &Vec<ChannelSnapshot>, j: usize, i: usize, within: bool) -> (r: bool)
    requires
        i < all.len(),
        j < all.len(),
    ensures
        r == outranks(all.deep_view(), j as int, i as int, within),
{
    let theirs = &all[j];
    let ours = &all[i];
    assert(all.deep_view()[j as int] == theirs.deep_view());
    assert(all.deep_view()[i as int] == ours.deep_view());
    if within && !is_same_channel(theirs, ours) {
        return false;
    }
    if ours.ts.is_before(&theirs.ts) {
        return true;
    }
    if theirs.ts.is_before(&ours.ts) {
        return false;
    }
    is_channel_before(theirs, ours) || (j < i && is_same_channel(theirs, ours))
}

fn rank_of(all: &Vec<ChannelSnapshot>, i: usize, within: bool) -> (r: usize)
    requires
        i < all.len(),
    ensures
        r == rank(all.deep_view(), all.len() as int, i as int, within),
{
    let ghost views = all.deep_view();
    let mut count: usize = 0;
    let mut j: usize = 0;
    while j < all.len()
        invariant
            j <= all.len(),
            i < all.len(),
            views == all.deep_view(),
            count <= j,
            count == rank(views, j as int, i as int, within),
        decreases all.len() - j,
    {
        if is_ahead(all, j, i, within) {
            count = count + 1;
        }
        j += 1;
    }
    count
}

fn keep_top(
    all: Vec<ChannelSnapshot>,
    cap: Option<usize>,
    within: bool,
) -> (r: Vec<ChannelSnapshot>)
    ensures
        r.deep_view() == capped(all.deep_view(), cap, within),
{
    let cap: usize = match cap {
        Some(cap) => cap,
        None => {
            return all;
        },
    };
    let ghost views = all.deep_view();
    let mut out: Vec<ChannelSnapshot> = Vec::new();
    let mut i: usize = 0;
    assert(out.deep_view() =~= top(views, 0, cap as nat, within));
    while i < all.len()
        invariant
            i <= all.len(),
            views == all.deep_view(),
            out.deep_view() == top(views, i as int, cap as nat, within),
        decreases all.len() - i,
    {
        if rank_of(&all, i, within) < cap {
            let ghost before = out.deep_view();
            let item = all[i].clone();
            out.push(item);
            assert(out.deep_view() =~= before.push(item.deep_view()));
            assert(views[i as int] == all[i as int].deep_view());
        }
        i += 1;
    }
    out
}

/// The snapshots that a policy keeps, in the order that they came in.
pub fn retain(all: &Vec<ChannelSnapshot>, policy: &RetentionPolicy, now: Timestamp) -> (r: Vec<
    ChannelSnapshot,
>)
    ensures
        r.deep_view() == retained(all.deep_view(), *policy, now),
{
    let fresh = keep_unexpired(all, policy, now);
    let per_channel = keep_top(fresh, policy.max_snapshots_per_channel, true);
    keep_top(per_channel, policy.max_total_snapshots, false)
}

proof fn lemma_unexpired_members(
    all: Seq<ChannelSnapshotView>,
    policy: RetentionPolicy,
    now: Timestamp,
)
    ensures
        unexpired(all, policy, now).len() <= all.len(),
        forall|i: int|
            0 <= i < unexpired(all, policy, now).len() ==> !expired(
                #[trigger] unexpired(all, policy, now)[i],
                policy,
                now,
            ) && all.contains(unexpired(all, policy, now)[i]),
    decreases all.len(),
{
    if all.len() > 0 {
        let rest = all.drop_last();
        lemma_unexpired_members(rest, policy, now);
        let kept = unexpired(all, policy, now);
        assert forall|i: int| 0 <= i < kept.len() implies !expired(#[trigger] kept[i], policy, now)
            && all.contains(kept[i]) by {
            let before = unexpired(rest, policy, now);
            if i < before.len() {
                assert(kept[i] == before[i]);
                let k = choose|k: int| 0 <= k < rest.len() && rest[k] == before[i];
                assert(all[k] == kept[i]);
            } else {
                assert(all[all.len() - 1] == kept[i]);
            }
        }
    }
}

/// The places of the snapshots that `top` picks.
spec fn top_places(all: Seq<ChannelSnapshotView>, n: int, cap: nat, within: bool) -> Seq<int>
    decreases n,
{
    if n <= 0 {
        seq![]
    } else {
        let before = top_places(all, n - 1, cap, within);
        if rank(all, all.len() as int, n - 1, within) < cap {
            before.push(n - 1)
        } else {
            before
        }
    }
}

proof fn lemma_top_places(all: Seq<ChannelSnapshotView>, n: int, cap: nat, within: bool)
    requires
        0 <= n <= all.len(),
    ensures
        top_places(all, n, cap, within).len() == top(all, n, cap, within).len(),
        forall|k: int|
            0 <= k < top_places(all, n, cap, within).len() ==> {
                let place = #[trigger] top_places(all, n, cap, within)[k];
                0 <= place < n && top(all, n, cap, within)[k] == all[place] && rank(
                    all,
                    all.len() as int,
                    place,
                    within,
                ) < cap
            },
        forall|k: int, h: int|
            0 <= k < h < top_places(all, n, cap, within).len() ==> #[trigger] top_places(
                all,
                n,
                cap,
                within,
            )[k] < #[trigger] top_places(all, n, cap, within)[h],
    decreases n,
{
    if n > 0 {
        lemma_top_places(all, n - 1, cap, within);
    }
}

proof fn lemma_channel_order(a: ChannelSnapshotView, b: ChannelSnapshotView)
    ensures
        !channel_precedes(a, a),
        same_channel(a, b) || channel_precedes(a, b) || channel_precedes(b, a),
{
    text::lemma_precedes_irreflexive(a.channel_id);
    text::lemma_precedes_total(a.channel_id, b.channel_id);
    if a.node_id is Some && b.node_id is Some {
        text::lemma_precedes_total(a.node_id->0, b.node_id->0);
    }
}

proof fn lemma_channel_order_transitive(
    a: ChannelSnapshotView,
    b: ChannelSnapshotView,
    c: ChannelSnapshotView,
)
    requires
        channel_precedes(a, b),
        channel_precedes(b, c),
    ensures
        channel_precedes(a, c),
{
    if a.network == b.network && b.network == c.network {
        if a.node_id == b.node_id && b.node_id == c.node_id {
            text::lemma_precedes_transitive(a.channel_id, b.channel_id, c.channel_id);
        } else if a.node_id != b.node_id && b.node_id != c.node_id && a.node_id is Some {
            text::lemma_precedes_transitive(a.node_id->0, b.node_id->0, c.node_id->0);
            text::lemma_precedes_irreflexive(a.node_id->0);
        }
    }
}

proof fn lemma_outranks_transitive(
    all: Seq<ChannelSnapshotView>,
    k: int,
    i: int,
    j: int,
    within: bool,
)
    requires
        outranks(all, k, i, within),
        outranks(all, i, j, within),
    ensures
        outranks(all, k, j, within),
{
    if channel_precedes(all[k], all[i]) && channel_precedes(all[i], all[j]) {
        lemma_channel_order_transitive(all[k], all[i], all[j]);
    }
}

/// Of two snapshots one outranks the other, and then is ahead of it.
proof fn lemma_rank_rises(
    all: Seq<ChannelSnapshotView>,
    n: int,
    i: int,
    j: int,
    within: bool,
)
    requires
        0 <= i < all.len(),
        0 <= j < all.len(),
        i != j,
        within ==> same_channel(all[i], all[j]),
        outranks(all, i, j, within),
        0 <= n <= all.len(),
    ensures
        rank(all, n, i, within) <= rank(all, n, j, within),
        n > i ==> rank(all, n, i, within) < rank(all, n, j, within),
    decreases n,
{
    if n > 0 {
        lemma_rank_rises(all, n - 1, i, j, within);
        let k = n - 1;
        if outranks(all, k, i, within) {
            lemma_outranks_transitive(all, k, i, j, within);
        }
        if k == i {
            lemma_channel_order(all[i], all[i]);
            assert(!outranks(all, i, i, within));
        }
    }
}

/// Places in rising order with distinct ranks below `cap` are at most `cap`.
proof fn lemma_few_places(
    all: Seq<ChannelSnapshotView>,
    places: Seq<int>,
    cap: nat,
    within: bool,
)
    requires
        forall|k: int|
            0 <= k < places.len() ==> 0 <= #[trigger] places[k] < all.len() && rank(
                all,
                all.len() as int,
                places[k],
                within,
            ) < cap,
        forall|k: int, h: int|
            0 <= k < h < places.len() ==> #[trigger] places[k] != #[trigger] places[h],
        within ==> forall|k: int, h: int|
            0 <= k < places.len() && 0 <= h < places.len() ==> same_channel(
                all[#[trigger] places[k]],
                all[#[trigger] places[h]],
            ),
    ensures
        places.len() <= cap,
{
    let ranks = Seq::new(
        places.len(),
        |k: int| rank(all, all.len() as int, places[k], within) as int,
    );
    assert forall|k: int, h: int| 0 <= k < ranks.len() && 0 <= h < ranks.len() && k != h implies (
    #[trigger] ranks[k]) != (#[trigger] ranks[h]) by {
        let i = places[k];
        let j = places[h];
        assert(i != j);
        if within {
            assert(same_channel(all[i], all[j]));
        }
        if outranks(all, i, j, within) {
            lemma_rank_rises(all, all.len() as int, i, j, within);
        } else {
            lemma_channel_order(all[i], all[j]);
            assert(outranks(all, j, i, within));
            lemma_rank_rises(all, all.len() as int, j, i, within);
        }
    }
    assert(ranks.no_duplicates());
    ranks.unique_seq_to_set();
    let room = vstd::set_lib::set_int_range(0, cap as int);
    vstd::set_lib::lemma_int_range(0, cap as int);
    assert(ranks.to_set().subset_of(room)) by {
        assert forall|r: int| ranks.to_set().contains(r) implies room.contains(r) by {
            let k = choose|k: int| 0 <= k < ranks.len() && ranks[k] == r;
            assert(0 <= places[k] < all.len());
        }
    }
    vstd::set_lib::lemma_len_subset(ranks.to_set(), room);
}

/// No more snapshots are kept than the bound on their number allows.
pub proof fn lemma_total_bound_holds(
    all: Seq<ChannelSnapshotView>,
    policy: RetentionPolicy,
    now: Timestamp,
)
    ensures
        policy.max_total_snapshots matches Some(cap) ==> retained(all, policy, now).len() <= cap,
        retained(all, policy, now).len() <= all.len(),
{
    let fresh = unexpired(all, policy, now);
    lemma_unexpired_members(all, policy, now);
    let per_channel = capped(fresh, policy.max_snapshots_per_channel, true);
    if let Some(cap) = policy.max_snapshots_per_channel {
        lemma_top_is_no_longer(fresh, fresh.len() as int, cap as nat, true);
    }
    if let Some(cap) = policy.max_total_snapshots {
        let n = per_channel.len() as int;
        lemma_top_is_no_longer(per_channel, n, cap as nat, false);
        lemma_top_places(per_channel, n, cap as nat, false);
        let places = top_places(per_channel, n, cap as nat, false);
        lemma_few_places(per_channel, places, cap as nat, false);
    }
}

proof fn lemma_top_is_no_longer(all: Seq<ChannelSnapshotView>, n: int, cap: nat, within: bool)
    requires
        0 <= n <= all.len(),
    ensures
        top(all, n, cap, within).len() <= n,
    decreases n,
{
    if n > 0 {
        lemma_top_is_no_longer(all, n - 1, cap, within);
    }
}

/// The snapshots of one channel, in order.
pub open spec fn of_channel(all: Seq<ChannelSnapshotView>, one: ChannelSnapshotView) -> Seq<
    ChannelSnapshotView,
> {
    all.filter(|s: ChannelSnapshotView| same_channel(s, one))
}

/// Those places at which a snapshot of the channel of `one` stands.
spec fn places_of(all: Seq<ChannelSnapshotView>, places: Seq<int>, one: ChannelSnapshotView) -> Seq<
    int,
>
    decreases places.len(),
{
    if places.len() == 0 {
        seq![]
    } else {
        let before = places_of(all, places.drop_last(), one);
        if same_channel(all[places.last()], one) {
            before.push(places.last())
        } else {
            before
        }
    }
}

proof fn lemma_places_of(
    all: Seq<ChannelSnapshotView>,
    places: Seq<int>,
    kept: Seq<ChannelSnapshotView>,
    one: ChannelSnapshotView,
)
    requires
        places.len() == kept.len(),
        forall|k: int| 0 <= k < places.len() ==> #[trigger] kept[k] == all[places[k]],
        forall|k: int, h: int|
            0 <= k < h < places.len() ==> #[trigger] places[k] < #[trigger] places[h],
    ensures
        places_of(all, places, one).len() == of_channel(kept, one).len(),
        forall|k: int|
            0 <= k < places_of(all, places, one).len() ==> places.contains(
                #[trigger] places_of(all, places, one)[k],
            ) && same_channel(all[places_of(all, places, one)[k]], one),
        forall|k: int, h: int|
            0 <= k < h < places_of(all, places, one).len() ==> #[trigger] places_of(
                all,
                places,
                one,
            )[k] < #[trigger] places_of(all, places, one)[h],
    decreases places.len(),
{
    reveal(Seq::filter);
    if places.len() > 0 {
        let rest = places.drop_last();
        let rest_kept = kept.drop_last();
        assert forall|k: int| 0 <= k < rest.len() implies #[trigger] rest_kept[k]
            == all[rest[k]] by {
            assert(rest_kept[k] == kept[k]);
        }
        lemma_places_of(all, rest, rest_kept, one);
        assert(kept.last() == all[places.last()]);
        let picked = places_of(all, places, one);
        let before = places_of(all, rest, one);
        assert forall|k: int| 0 <= k < picked.len() implies places.contains(#[trigger] picked[k])
            && same_channel(all[picked[k]], one) by {
            if k < before.len() {
                assert(picked[k] == before[k]);
                let h = choose|h: int| 0 <= h < rest.len() && rest[h] == before[k];
                assert(places[h] == picked[k]);
            } else {
                assert(places[places.len() - 1] == picked[k]);
            }
        }
        assert forall|k: int, h: int| 0 <= k < h < picked.len() implies #[trigger] picked[k]
            < #[trigger] picked[h] by {
            if h < before.len() {
                assert(picked[k] == before[k] && picked[h] == before[h]);
            } else {
                assert(picked[k] == before[k]);
                let g = choose|g: int| 0 <= g < rest.len() && rest[g] == before[k];
                assert(places[g] < places[places.len() - 1]);
            }
        }
    }
}

/// No channel keeps more snapshots than the bound on each channel allows.
pub proof fn lemma_channel_bound_holds(
    all: Seq<ChannelSnapshotView>,
    cap: usize,
    one: ChannelSnapshotView,
)
    ensures
        of_channel(capped(all, Some(cap), true), one).len() <= cap,
{
    let n = all.len() as int;
    let kept = top(all, n, cap as nat, true);
    lemma_top_places(all, n, cap as nat, true);
    let places = top_places(all, n, cap as nat, true);
    lemma_places_of(all, places, kept, one);
    let picked = places_of(all, places, one);
    assert forall|k: int| 0 <= k < picked.len() implies 0 <= #[trigger] picked[k] < all.len()
        && rank(all, all.len() as int, picked[k], true) < cap by {
        assert(places.contains(picked[k]));
        let h = choose|h: int| 0 <= h < places.len() && places[h] == picked[k];
        assert(0 <= places[h] < n);
    }
    lemma_few_places(all, picked, cap as nat, true);
}

/// Nothing that is too old is kept, and nothing is kept that was not there.
pub proof fn lemma_retained_is_fresh(
    all: Seq<ChannelSnapshotView>,
    policy: RetentionPolicy,
    now: Timestamp,
    i: int,
)
    requires
        0 <= i < retained(all, policy, now).len(),
    ensures
        !expired(retained(all, policy, now)[i], policy, now),
        all.contains(retained(all, policy, now)[i]),
{
    let fresh = unexpired(all, policy, now);
    lemma_unexpired_members(all, policy, now);
    let per_channel = capped(fresh, policy.max_snapshots_per_channel, true);
    let kept = retained(all, policy, now);
    let j = match policy.max_total_snapshots {
        Some(cap) => {
            lemma_top_places(per_channel, per_channel.len() as int, cap as nat, false);
            top_places(per_channel, per_channel.len() as int, cap as nat, false)[i]
        },
        None => i,
    };
    assert(kept[i] == per_channel[j]);
    let k = match policy.max_snapshots_per_channel {
        Some(cap) => {
            lemma_top_places(fresh, fresh.len() as int, cap as nat, true);
            top_places(fresh, fresh.len() as int, cap as nat, true)[j]
        },
        None => j,
    };
    assert(per_channel[j] == fresh[k]);
}

/// One step of going through the snapshots of a database.
#[derive(Debug, Clone, Copy, PartialEq, Eq, Structural)]
pub enum PruneStep {
    /// Delete some of the snapshots that are too old.
    Expired,
    /// Delete some of the snapshots beyond the newest so many of each channel.
    PerChannel(usize),
    /// Delete some of the snapshots beyond the newest so many in all.
    Total(usize),
    /// All is done.
    Done,
}

/// How many rows one step may delete.
pub const PRUNE_CHUNK: usize = 2000;

/// The step that bounds the snapshots of each channel, or the next after it.
pub open spec fn channel_step(policy: RetentionPolicy) -> PruneStep {
    match policy.max_snapshots_per_channel {
        Some(cap) => if cap > 0 {
            PruneStep::PerChannel(cap)
        } else {
            total_step(policy)
        },
        None => total_step(policy),
    }
}

/// The step that bounds the snapshots in all, or the end.
pub open spec fn total_step(policy: RetentionPolicy) -> PruneStep {
    match policy.max_total_snapshots {
        Some(cap) => if cap > 0 {
            PruneStep::Total(cap)
        } else {
            PruneStep::Done
        },
        None => PruneStep::Done,
    }
}

/// The step that follows one that deleted so many rows: the same again, until it
/// finds none.
pub open spec fn step_after(policy: RetentionPolicy, step: PruneStep, deleted: usize) -> PruneStep {
    if deleted > 0 {
        step
    } else {
        match step {
            PruneStep::Expired => channel_step(policy),
            PruneStep::PerChannel(_) => total_step(policy),
            PruneStep::Total(_) => PruneStep::Done,
            PruneStep::Done => PruneStep::Done,
        }
    }
}

/// The step that follows one that deleted so many rows.
pub fn next_prune_step(policy: &RetentionPolicy, step: PruneStep, deleted: usize) -> (r: PruneStep)
    ensures
        r == step_after(*policy, step, deleted),
{
    if deleted > 0 {
        return step;
    }
    let total = match policy.max_total_snapshots {
        Some(cap) => if cap > 0 {
            PruneStep::Total(cap)
        } else {
            PruneStep::Done
        },
        None => PruneStep::Done,
    };
    match step {
        PruneStep::Expired => match policy.max_snapshots_per_channel {
            Some(cap) => if cap > 0 {
                PruneStep::PerChannel(cap)
            } else {
                total
            },
            None => total,
        },
        PruneStep::PerChannel(_) => total,
        PruneStep::Total(_) => PruneStep::Done,
        PruneStep::Done => PruneStep::Done,
    }
}

/// How far a step is from the end.
pub open spec fn steps_left(step: PruneStep) -> nat {
    match step {
        PruneStep::Expired => 3,
        PruneStep::PerChannel(_) => 2,
        PruneStep::Total(_) => 1,
        PruneStep::Done => 0,
    }
}

/// A step that finds nothing to delete brings the end nearer, so that going
/// through the snapshots ends once there is nothing left to delete.
pub proof fn lemma_pruning_ends(policy: RetentionPolicy, step: PruneStep)
    ensures
        step != PruneStep::Done ==> steps_left(step_after(policy, step, 0)) < steps_left(step),
        step_after(policy, PruneStep::Done, 0) == PruneStep::Done,
{
}

/// A snapshot's moment runs out exactly if it lies further back than its age
/// allows, whole seconds and nanoseconds alike. Closed channels and channels on
/// their way there have an age of their own. Moments are taken to lie in no leap
/// second, and the age to be one that can be reckoned with.
pub proof fn lemma_what_expires(s: ChannelSnapshotView, policy: RetentionPolicy, now: Timestamp)
    requires
        now.nanos < 1_000_000_000,
        s.ts.nanos < 1_000_000_000,
        policy.snapshot_max_age.length() <= LONGEST_AGE_NANOS,
        policy.closed_channel_max_age.length() <= LONGEST_AGE_NANOS,
    ensures
        ({
            let limit = if s.status is Closing || s.status is Closed || s.status is WaitingClose
                || s.status is ForceClosing {
                policy.closed_channel_max_age
            } else {
                policy.snapshot_max_age
            };
            let age = (now.secs - s.ts.secs) * 1_000_000_000 + (now.nanos - s.ts.nanos);
            expired(s, policy, now) <==> age > limit.secs * 1_000_000_000 + limit.nanos
        }),
{
    let back = reckoned(policy.age_limit(s.status));
    let at = now.instant() - back;
    assert(at == at / 1_000_000_000 * 1_000_000_000 + at % 1_000_000_000);
    assert(0 <= at % 1_000_000_000 < 1_000_000_000);
}

/// An age too long to be reckoned with counts as none: what lies before now is
/// gone.
pub proof fn lemma_ages_out_of_reach_count_as_none(
    s: ChannelSnapshotView,
    policy: RetentionPolicy,
    now: Timestamp,
)
    requires
        now.nanos < 1_000_000_000,
        policy.age_limit(s.status).length() > LONGEST_AGE_NANOS,
    ensures
        expired(s, policy, now) <==> s.ts.order() < now.order(),
{
    assert(reckoned(policy.age_limit(s.status)) == 0);
    let at = now.instant();
    assert(at / 1_000_000_000 == now.secs && at % 1_000_000_000 == now.nanos);
}

/// Where no bound is set but age, what is kept is what has not expired, in its
/// order: one more snapshot at the end is kept exactly if it has not.
pub proof fn lemma_age_alone_keeps_the_order(
    all: Seq<ChannelSnapshotView>,
    s: ChannelSnapshotView,
    policy: RetentionPolicy,
    now: Timestamp,
)
    requires
        policy.max_snapshots_per_channel is None,
        policy.max_total_snapshots is None,
    ensures
        retained(seq![], policy, now).len() == 0,
        expired(s, policy, now) ==> retained(all.push(s), policy, now) == retained(
            all,
            policy,
            now,
        ),
        !expired(s, policy, now) ==> retained(all.push(s), policy, now) == retained(
            all,
            policy,
            now,
        ).push(s),
{
    assert(all.push(s).drop_last() =~= all);
}

/// Pruning goes from what has expired to the bound of each channel and on to the
/// bound of all, leaving out a bound that is not set or is nought, and stays with
/// a step as long as there is something to delete.
pub proof fn lemma_pruning_goes_step_by_step(
    policy: RetentionPolicy,
    step: PruneStep,
    deleted: usize,
    cap: usize,
)
    ensures
        deleted > 0 ==> step_after(policy, step, deleted) == step,
        policy.max_snapshots_per_channel == Some(cap) && cap > 0 ==> step_after(
            policy,
            PruneStep::Expired,
            0,
        ) == PruneStep::PerChannel(cap),
        policy.max_snapshots_per_channel is None || policy.max_snapshots_per_channel == Some(0usize)
            ==> step_after(policy, PruneStep::Expired, 0) == step_after(
            policy,
            PruneStep::PerChannel(cap),
            0,
        ),
        policy.max_total_snapshots == Some(cap) && cap > 0 ==> step_after(
            policy,
            PruneStep::PerChannel(cap),
            0,
        ) == PruneStep::Total(cap),
        policy.max_total_snapshots is None || policy.max_total_snapshots == Some(0usize)
            ==> step_after(policy, PruneStep::PerChannel(cap), 0) is Done,
        step_after(policy, PruneStep::Total(cap), 0) is Done,
        step_after(policy, PruneStep::Done, deleted) is Done,
{
}

/// Within a leap second an age of less than a second stays in it, and a longer
/// one is counted back from its nanoseconds.
pub proof fn lemma_ages_from_a_leap_second(
    s: ChannelSnapshotView,
    policy: RetentionPolicy,
    now: Timestamp,
)
    requires
        1_000_000_000 <= now.nanos < 2_000_000_000,
        s.ts.nanos < 1_000_000_000,
        policy.age_limit(s.status).length() <= LONGEST_AGE_NANOS,
    ensures
        ({
            let back = policy.age_limit(s.status).length();
            let age = (now.secs - s.ts.secs) * 1_000_000_000 + (now.nanos - s.ts.nanos);
            &&& back < 1_000_000_000 ==> (expired(s, policy, now) <==> s.ts.secs < now.secs || (
            s.ts.secs == now.secs && s.ts.nanos + back < now.nanos))
            &&& back >= 1_000_000_000 ==> (expired(s, policy, now) <==> age > back)
        }),
{
    let back = reckoned(policy.age_limit(s.status));
    let at = now.instant() - back;
    assert(at == at / 1_000_000_000 * 1_000_000_000 + at % 1_000_000_000);
    assert(0 <= at % 1_000_000_000 < 1_000_000_000);
}

} // verus!
