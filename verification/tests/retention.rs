use rieko::domain::{BitcoinNetwork, ChannelSnapshot, ChannelStatus};
use rieko::ratio::Ratio;
use rieko::retention::{
    cutoff_of, cutoff_time, next_prune_step, retain, PruneStep, RetentionPolicy, PRUNE_CHUNK,
};
use rieko::time::{Period, Timestamp, MIN_SECOND};

fn at(secs: i64) -> Timestamp {
    Timestamp { secs, nanos: 0 }
}

fn snapshot(channel: &str, secs: i64, status: ChannelStatus) -> ChannelSnapshot {
    ChannelSnapshot {
        node_id: Some("node-1".into()),
        network: Some(BitcoinNetwork::Regtest),
        state_digest: None,
        channel_id: channel.into(),
        local_ratio: Ratio::of(1, 2),
        local_balance_msat: 1,
        remote_balance_msat: 1,
        capacity_msat: 2,
        status,
        ts: at(secs),
        spendable_outbound_msat: 0,
        spendable_inbound_msat: 0,
    }
}

fn open(channel: &str, secs: i64) -> ChannelSnapshot {
    snapshot(channel, secs, ChannelStatus::Active)
}

fn policy(per_channel: Option<usize>, total: Option<usize>) -> RetentionPolicy {
    RetentionPolicy {
        snapshot_max_age: Period::from_secs(1000),
        closed_channel_max_age: Period::from_secs(100),
        max_snapshots_per_channel: per_channel,
        max_total_snapshots: total,
        cleanup_interval: Period::from_secs(60),
    }
}

fn times(kept: &[ChannelSnapshot]) -> Vec<(String, i64)> {
    kept.iter().map(|s| (s.channel_id.clone(), s.ts.secs)).collect()
}

#[test]
fn closed_channels_expire_sooner() {
    let p = RetentionPolicy::default();
    assert!(p.max_age_for_status(ChannelStatus::Active) == p.snapshot_max_age);
    assert!(p.max_age_for_status(ChannelStatus::Closed) == p.closed_channel_max_age);
    assert!(p.closed_channel_max_age < p.snapshot_max_age);
}

#[test]
fn defaults_form_a_documented_upper_bound() {
    let p = RetentionPolicy::default();
    assert!(p.snapshot_max_age >= Period::from_secs(24 * 3600));
    assert!(p.closed_channel_max_age < p.snapshot_max_age);
    assert!(p.cleanup_interval > Period { secs: 0, nanos: 0 });
}

#[test]
fn snapshots_expire_by_age_and_status() {
    let all = vec![
        open("a", 8_999),
        open("a", 9_000),
        snapshot("b", 9_899, ChannelStatus::Closed),
        snapshot("b", 9_900, ChannelStatus::Closed),
    ];
    let kept = retain(&all, &policy(None, None), at(10_000));
    assert_eq!(times(&kept), vec![("a".to_string(), 9_000), ("b".to_string(), 9_900)]);
}

#[test]
fn the_newest_of_a_channel_stay() {
    let all = vec![open("a", 9_997), open("a", 9_999), open("b", 9_990), open("a", 9_998)];
    let kept = retain(&all, &policy(Some(2), None), at(10_000));
    assert_eq!(
        times(&kept),
        vec![("a".to_string(), 9_999), ("b".to_string(), 9_990), ("a".to_string(), 9_998)]
    );
}

#[test]
fn the_newest_of_all_stay() {
    let all = vec![open("a", 9_997), open("b", 9_999), open("c", 9_998)];
    let kept = retain(&all, &policy(None, Some(2)), at(10_000));
    assert_eq!(times(&kept), vec![("b".to_string(), 9_999), ("c".to_string(), 9_998)]);
    assert!(retain(&all, &policy(None, Some(0)), at(10_000)).is_empty());
}

#[test]
fn cutoffs_are_counted_back_from_now() {
    assert_eq!(cutoff_of(Period::from_secs(10), at(100)), (90, 0));
    assert_eq!(cutoff_of(Period { secs: 0, nanos: 1 }, at(1)), (0, 999_999_999));
    assert_eq!(cutoff_of(Period::from_secs(10), at(5)), (-5, 0));
    assert_eq!(cutoff_of(Period::from_secs(u64::MAX), at(100)), (100, 0));
}

#[test]
fn pruning_goes_on_while_whole_chunks_are_removed() {
    let p = policy(Some(5), Some(9));
    assert_eq!(next_prune_step(&p, PruneStep::Expired, PRUNE_CHUNK), PruneStep::Expired);
    assert_eq!(next_prune_step(&p, PruneStep::Expired, 0), PruneStep::PerChannel(5));
    assert_eq!(next_prune_step(&p, PruneStep::PerChannel(5), 0), PruneStep::Total(9));
    assert_eq!(next_prune_step(&p, PruneStep::Total(9), 0), PruneStep::Done);
    let none = policy(None, None);
    assert_eq!(next_prune_step(&none, PruneStep::Expired, 0), PruneStep::Done);
}

#[test]
fn cutoffs_stay_within_the_calendar() {
    let now = Timestamp { secs: 1_700_000_000, nanos: 250_000_000 };
    let age = Period { secs: 3, nanos: 500_000_000 };
    assert_eq!(cutoff_time(age, now), Timestamp { secs: 1_699_999_996, nanos: 750_000_000 });
    assert_eq!(cutoff_time(Period::from_secs(0), now), now);
    let ages = Period::from_secs(9_000_000_000_000);
    assert_eq!(cutoff_time(ages, now), Timestamp { secs: MIN_SECOND, nanos: 0 });
}

#[test]
fn equally_new_snapshots_are_kept_by_network_node_and_channel() {
    let mut regtest = open("a", 9_999);
    regtest.network = Some(BitcoinNetwork::Regtest);
    let mut mainnet = open("d", 9_999);
    mainnet.network = Some(BitcoinNetwork::Mainnet);
    let mut unknown = open("e", 9_999);
    unknown.network = None;
    let mut elsewhere = open("b", 9_999);
    elsewhere.node_id = Some("node-0".into());
    let mut nowhere = open("c", 9_999);
    nowhere.node_id = None;
    let all = vec![regtest, mainnet, unknown, elsewhere, nowhere, open("0", 9_998)];
    let names = |total: usize| -> Vec<String> {
        retain(&all, &policy(None, Some(total)), at(10_000))
            .into_iter()
            .map(|s| s.channel_id)
            .collect()
    };
    assert_eq!(names(1), ["e"]);
    assert_eq!(names(2), ["d", "e"]);
    assert_eq!(names(3), ["d", "e", "c"]);
    assert_eq!(names(4), ["d", "e", "b", "c"]);
    assert_eq!(names(5), ["a", "d", "e", "b", "c"]);
}

#[test]
fn cutoffs_from_leap_seconds_are_those_of_the_calendar() {
    let now = Timestamp { secs: 1_483_228_799, nanos: 1_250_000_000 };
    let there = chrono::DateTime::from_timestamp(now.secs, now.nanos).unwrap();
    for (secs, nanos) in [(0u64, 0u32), (0, 100_000_000), (0, 500_000_000), (1, 0), (90, 5)] {
        let back = there
            - chrono::Duration::from_std(std::time::Duration::new(secs, nanos)).unwrap();
        let found = cutoff_time(Period { secs, nanos }, now);
        assert_eq!(found.secs, back.timestamp());
        assert_eq!(found.nanos, back.timestamp_subsec_nanos());
    }
}
