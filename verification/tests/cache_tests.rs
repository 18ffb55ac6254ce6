use geth_indexer::cache::{
    add_block, chain_key_string, check_renderable, checked_successful_xfers, checked_total,
    get_all_chains_live_tps_in_range, get_all_chains_success_xfers_in_range,
    get_all_chains_success_xfers_queries, get_all_chains_tps_in_range, get_all_chains_tps_keys,
    get_latest_height, get_latest_timestamp, get_latest_tps, get_live_tps, get_live_tps_query,
    get_successful_xfers_in_range, get_successful_xfers_query, pair_up, saturating_sub, Command,
    Field, RangeQuery,
};
use geth_indexer::types::{Stride, Tx, Type};
use std::collections::{BTreeMap, BTreeSet};

/// A stand-in for the store: sets, ordered associations and scalars.
#[derive(Default)]
struct Store {
    sets: BTreeMap<String, BTreeSet<String>>,
    series: BTreeMap<String, BTreeMap<String, i64>>,
    scalars: BTreeMap<String, String>,
}

impl Store {
    fn run(&mut self, plan: &[Command]) {
        for command in plan {
            match command {
                Command::Register { set, element } => {
                    self.sets.entry(set.clone()).or_default().insert(element.clone());
                }
                Command::Append { key, score, member } => {
                    self.series.entry(key.clone()).or_default().insert(member.to_string(), *score);
                }
                Command::PutCount { key, count } => {
                    self.scalars.insert(key.clone(), count.to_string());
                }
                Command::PutStamp { key, stamp } => {
                    self.scalars.insert(key.clone(), stamp.to_string());
                }
            }
        }
    }

    /// The flat reply to a range read, in ascending order of the scores.
    fn range(&self, query: &RangeQuery) -> Vec<String> {
        let mut hits: Vec<(i64, String)> = self
            .series
            .get(&query.key)
            .map(|entries| {
                entries
                    .iter()
                    .filter(|(_, score)| query.min <= **score && **score <= query.max)
                    .map(|(member, score)| (*score, member.clone()))
                    .collect()
            })
            .unwrap_or_default();
        hits.sort();
        hits.into_iter().flat_map(|(score, member)| [member, score.to_string()]).collect()
    }

    fn chains(&self) -> Vec<u64> {
        self.sets
            .get("chains")
            .map(|members| members.iter().map(|m| m.parse().unwrap()).collect())
            .unwrap_or_default()
    }
}

fn scored(raw: &Vec<String>) -> Vec<(String, i64)> {
    pair_up(raw)
        .into_iter()
        .filter_map(|(member, score)| score.parse::<f64>().ok().map(|s| (member, s as i64)))
        .collect()
}

fn all() -> Type {
    Type { tx_type: Some(Tx::All) }
}

const NOW: i64 = 1_700_000_000;

fn seeded() -> Store {
    let mut store = Store::default();
    let first = [(NOW - 1800, 10), (NOW - 1200, 20), (NOW - 600, 30), (NOW, 40)];
    for (height, (stamp, count)) in first.iter().enumerate() {
        store.run(&add_block(&1001, *stamp, *count, *count, 0, 0, 1, height as u64));
    }
    let second = [(NOW - 1500, 5), (NOW - 900, 15), (NOW - 300, 25), (NOW, 50)];
    for (height, (stamp, count)) in second.iter().enumerate() {
        store.run(&add_block(&1002, *stamp, *count, *count, 0, 0, 1, height as u64));
    }
    store
}

#[test]
fn two_chain_success_xfers_over_20_minutes() {
    let store = seeded();
    let mut per_chain = Vec::new();
    for chain in [1001u64, 1002] {
        let query = get_successful_xfers_query(&chain, 1200, NOW, all()).expect("query");
        let sum = get_successful_xfers_in_range(&scored(&store.range(&query)));
        assert_eq!(sum, 90);
        per_chain.push(sum);
    }
    assert_eq!(store.chains(), vec![1001, 1002]);
    let queries = get_all_chains_success_xfers_queries(&store.chains(), 1200, NOW, all());
    let sums: Vec<u64> = queries
        .iter()
        .map(|q| get_successful_xfers_in_range(&scored(&store.range(q))))
        .collect();
    assert_eq!(sums, per_chain);
    assert_eq!(get_all_chains_success_xfers_in_range(&sums), 180);
}

#[test]
fn add_block_sends_eleven_commands_in_order() {
    let plan = add_block(&7, 1_700_000_000, 3, 5, 4, 1, 9, 42);
    let shown: Vec<String> = plan.iter().map(|c| format!("{c:?}")).collect();
    assert_eq!(
        shown,
        vec![
            r#"Register { set: "chains", element: "7" }"#,
            r#"Append { key: "chain:7:successful", score: 1700000000, member: 3 }"#,
            r#"Append { key: "chain:7:total", score: 1700000000, member: 5 }"#,
            r#"Append { key: "chain:7:live_tps", score: 1700000000, member: 9 }"#,
            r#"Append { key: "chain:7:total_native", score: 1700000000, member: 4 }"#,
            r#"Append { key: "chain:7:total_x_chain", score: 1700000000, member: 1 }"#,
            r#"PutCount { key: "chain:7:tps", count: 9 }"#,
            r#"PutCount { key: "chain:7:xtps", count: 1 }"#,
            r#"PutCount { key: "chain:7:ntps", count: 4 }"#,
            r#"PutCount { key: "chain:7:height", count: 42 }"#,
            r#"PutStamp { key: "chain:7:timestamp", stamp: 1700000000 }"#,
        ]
    );
}

#[test]
fn after_a_write_the_latest_height_and_timestamp_are_the_blocks() {
    let mut store = Store::default();
    store.run(&add_block(&7, 100, 1, 1, 1, 0, 1, 41));
    store.run(&add_block(&7, 112, 2, 2, 1, 1, 2, 42));
    assert_eq!(store.scalars[&get_latest_height(&7)], "42");
    assert_eq!(store.scalars[&get_latest_timestamp(&7)], "112");
    assert_eq!(store.scalars[&get_latest_tps(&7, all()).unwrap()], "2");
}

#[test]
fn every_entry_is_scored_with_its_blocks_timestamp() {
    let mut store = Store::default();
    store.run(&add_block(&7, 112, 2, 3, 4, 5, 6, 42));
    for (field, member) in [
        (Field::Successful, "2"),
        (Field::Total, "3"),
        (Field::TotalNative, "4"),
        (Field::TotalCrossChain, "5"),
        (Field::LiveTps, "6"),
    ] {
        assert_eq!(store.series[&chain_key_string(7, field)][member], 112);
    }
}

#[test]
fn writing_a_block_again_changes_nothing() {
    let mut once = Store::default();
    once.run(&add_block(&7, 112, 2, 3, 4, 5, 6, 42));
    let mut twice = Store::default();
    twice.run(&add_block(&7, 112, 2, 3, 4, 5, 6, 42));
    twice.run(&add_block(&7, 112, 2, 3, 4, 5, 6, 42));
    assert_eq!(once.series, twice.series);
    assert_eq!(once.scalars, twice.scalars);
    assert_eq!(once.sets, twice.sets);
}

#[test]
fn keys_are_chain_id_and_field() {
    assert_eq!(chain_key_string(1001, Field::Height), "chain:1001:height");
    assert_eq!(chain_key_string(0, Field::Timestamp), "chain:0:timestamp");
    assert_eq!(chain_key_string(u64::MAX, Field::Tps), "chain:18446744073709551615:tps");
    assert_eq!(Field::CrossChainTps.as_str(), "xtps");
    assert_eq!(Field::NativeTps.as_str(), "ntps");
}

#[test]
fn the_latest_count_is_read_by_class() {
    assert_eq!(get_latest_tps(&7, all()), Some("chain:7:tps".to_string()));
    assert_eq!(
        get_latest_tps(&7, Type { tx_type: Some(Tx::Native) }),
        Some("chain:7:ntps".to_string())
    );
    assert_eq!(
        get_latest_tps(&7, Type { tx_type: Some(Tx::CrossChain) }),
        Some("chain:7:xtps".to_string())
    );
    assert_eq!(get_latest_tps(&7, Type { tx_type: None }), None);
}

#[test]
fn the_live_window_is_an_hour_or_ten_minutes() {
    let hour = get_live_tps_query(&7, Stride { stride: Some(1) }, all(), NOW).unwrap();
    assert_eq!((hour.key.as_str(), hour.min, hour.max), ("chain:7:live_tps", NOW - 3600, NOW));
    let unset = get_live_tps_query(&7, Stride { stride: None }, all(), NOW).unwrap();
    assert_eq!((unset.min, unset.max), (NOW - 600, NOW));
    let other = get_live_tps_query(&7, Stride { stride: Some(2) }, all(), NOW).unwrap();
    assert_eq!((other.min, other.max), (NOW - 600, NOW));
    let zero = get_live_tps_query(&7, Stride { stride: Some(0) }, all(), NOW).unwrap();
    assert_eq!(zero.min, NOW - 600);
}

#[test]
fn the_live_series_is_read_by_class() {
    let native =
        get_live_tps_query(&7, Stride { stride: None }, Type { tx_type: Some(Tx::Native) }, NOW);
    assert_eq!(native.unwrap().key, "chain:7:total_native");
    let cross = get_live_tps_query(
        &7,
        Stride { stride: None },
        Type { tx_type: Some(Tx::CrossChain) },
        NOW,
    );
    assert_eq!(cross.unwrap().key, "chain:7:total_x_chain");
    assert!(get_live_tps_query(&7, Stride { stride: None }, Type { tx_type: None }, NOW).is_none());
}

#[test]
fn transfers_are_read_by_class() {
    let q = |class| get_successful_xfers_query(&7, 60, NOW, Type { tx_type: class }).map(|q| q.key);
    assert_eq!(q(Some(Tx::All)), Some("chain:7:successful".to_string()));
    assert_eq!(q(Some(Tx::Native)), Some("chain:7:total_native".to_string()));
    assert_eq!(q(Some(Tx::CrossChain)), Some("chain:7:total_x_chain".to_string()));
    assert_eq!(q(None), None);
}

#[test]
fn a_window_stops_at_the_start_of_the_range() {
    let q = get_successful_xfers_query(&7, 10, i64::MIN + 3, all()).unwrap();
    assert_eq!((q.min, q.max), (i64::MIN, i64::MIN + 3));
    assert_eq!(saturating_sub(i64::MAX, -1), i64::MAX);
    assert_eq!(saturating_sub(5, 7), -2);
}

#[test]
fn a_reply_is_split_into_pairs() {
    let raw: Vec<String> = ["10", "100", "20", "200", "stray"].iter().map(|s| s.to_string()).collect();
    assert_eq!(
        pair_up(&raw),
        vec![("10".to_string(), "100".to_string()), ("20".to_string(), "200".to_string())]
    );
    assert_eq!(pair_up(&vec![]), vec![]);
    assert_eq!(pair_up(&vec!["1".to_string()]), vec![]);
}

#[test]
fn the_live_series_is_in_order_of_its_rendered_times() {
    let scored = vec![
        ("30".to_string(), 1_700_000_600),
        ("10".to_string(), 1_700_000_000),
        ("x".to_string(), 1_700_000_100),
        ("20".to_string(), 1_700_000_300),
    ];
    assert!(check_renderable(&scored));
    assert_eq!(
        get_live_tps(&scored),
        vec![
            (10, 1_700_000_000, "2023-11-15 03:43:20.000 IST".to_string()),
            (20, 1_700_000_300, "2023-11-15 03:48:20.000 IST".to_string()),
            (30, 1_700_000_600, "2023-11-15 03:53:20.000 IST".to_string()),
        ]
    );
}

#[test]
fn samples_with_the_same_time_keep_their_order() {
    let scored = vec![("2".to_string(), 50), ("1".to_string(), 50), ("3".to_string(), 50)];
    let counts: Vec<u64> = get_live_tps(&scored).into_iter().map(|e| e.0).collect();
    assert_eq!(counts, vec![2, 1, 3]);
}

#[test]
fn the_live_series_is_ordered_by_text_not_by_time() {
    // Year 10000 is written with a sign, which sorts before every digit.
    let scored = vec![("1".to_string(), 1_700_000_000), ("2".to_string(), 253_402_300_800)];
    let series = get_live_tps(&scored);
    assert_eq!(series[0].0, 2);
    assert_eq!(series[0].2, "+10000-01-01 05:30:00.000 IST");
    assert_eq!(series[1].0, 1);
}

#[test]
fn an_empty_reply_gives_an_empty_series_and_a_zero_sum() {
    assert_eq!(get_live_tps(&vec![]), vec![]);
    assert_eq!(get_successful_xfers_in_range(&vec![]), 0);
}

#[test]
fn scores_outside_the_calendar_are_found() {
    assert!(!check_renderable(&vec![("1".to_string(), 0), ("2".to_string(), i64::MAX)]));
    assert!(check_renderable(&vec![]));
}

#[test]
fn members_that_are_no_counts_add_nothing() {
    let scored = vec![("5".to_string(), 1), ("five".to_string(), 2), ("-1".to_string(), 3), ("+7".to_string(), 4)];
    assert_eq!(get_successful_xfers_in_range(&scored), 12);
    assert_eq!(checked_successful_xfers(&scored), Some(12));
}

#[test]
fn a_sum_that_does_not_fit_is_reported() {
    let scored = vec![(u64::MAX.to_string(), 1), ("1".to_string(), 2)];
    assert_eq!(checked_successful_xfers(&scored), None);
    assert_eq!(checked_total(&vec![u64::MAX, 1]), None);
    assert_eq!(checked_total(&vec![u64::MAX, 0]), Some(u64::MAX));
}

#[test]
fn without_chains_every_aggregate_is_empty() {
    assert_eq!(get_all_chains_success_xfers_in_range(&vec![]), 0);
    assert_eq!(get_all_chains_tps_in_range(&vec![]), 0);
    assert_eq!(get_all_chains_live_tps_in_range(vec![]), vec![]);
    assert!(get_all_chains_success_xfers_queries(&vec![], 60, NOW, all()).is_empty());
    assert!(get_all_chains_tps_keys(&vec![], all()).is_empty());
}

#[test]
fn the_aggregates_sum_over_the_chains() {
    assert_eq!(get_all_chains_tps_in_range(&vec![3, 4, 5]), 12);
    assert_eq!(
        get_all_chains_tps_keys(&vec![1, 2], Type { tx_type: Some(Tx::Native) }),
        vec!["chain:1:ntps".to_string(), "chain:2:ntps".to_string()]
    );
    assert!(get_all_chains_tps_keys(&vec![1, 2], Type { tx_type: None }).is_empty());
    let merged = get_all_chains_live_tps_in_range(vec![
        vec![(1, 100, "a".to_string()), (2, 200, "b".to_string())],
        vec![(10, 100, "a".to_string())],
    ]);
    assert_eq!(merged, vec![(11, 100, "a".to_string()), (2, 200, "b".to_string())]);
}
