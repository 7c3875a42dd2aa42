use historical_backfill::backfill::{
    backfill_delta, block_key, heights_from_lists, published_heights, filter_matching_blocks_from_index_files, lake_bucket_for_chain,
    needs_dedupe, newest_indexed_block, normalize_block_height, parse_blocks_from_index_files,
    plan_publication, shard_key, sort_and_dedupe, BackfillError, ChainId, DateProbe, ProbeStep,
    TailScan, MAX_UNINDEXED_BLOCKS_TO_PROCESS,
};
use historical_backfill::dates::CalendarDate;
use historical_backfill::registry::{MatchingRule, Status};

fn action_any(pattern: &str) -> MatchingRule {
    MatchingRule::ActionAny { affected_account_id: pattern.to_string(), status: Status::Any }
}

#[test]
fn nothing_to_do_when_start_is_not_below_tip() {
    assert_eq!(backfill_delta(100, 105), Err(BackfillError::NothingToDo));
    assert_eq!(backfill_delta(100, 100), Err(BackfillError::NothingToDo));
    assert_eq!(backfill_delta(105, 100), Ok(5));
}

#[test]
fn unsupported_rules_fail_fast() {
    let rule = MatchingRule::Event {
        contract_account_id: "a.near".to_string(),
        standard: "nep".to_string(),
        version: "1".to_string(),
        event: "e".to_string(),
    };
    assert_eq!(filter_matching_blocks_from_index_files(0, &rule, &vec![]), Err(BackfillError::UnsupportedRule));
    let call = MatchingRule::ActionFunctionCall {
        affected_account_id: "a.near".to_string(),
        status: Status::Success,
        function: "f".to_string(),
    };
    assert_eq!(filter_matching_blocks_from_index_files(0, &call, &vec![]), Err(BackfillError::UnsupportedRule));
}

#[test]
fn index_files_are_parsed_and_filtered_by_start() {
    let files = vec![
        "{\"heights\":[90,100,110]}".to_string(),
        "".to_string(),
        "{\"other\":[1]}".to_string(),
        "{\"heights\":[120]}".to_string(),
        "{\"account\":\"a.near\",\"count\":2,\"heights\":[130,140]}".to_string(),
        "{\"heights\":[150,\"x\"]}".to_string(),
    ];
    assert_eq!(parse_blocks_from_index_files(&files, 100), vec![100, 110, 120, 130, 140]);
}

#[test]
fn exact_pattern_keeps_file_order() {
    let files = vec!["{\"heights\":[1100,1200]}".to_string()];
    let r = filter_matching_blocks_from_index_files(1000, &action_any("a.near"), &files);
    assert_eq!(r, Ok(vec![1100, 1200]));
}

#[test]
fn wildcard_and_comma_heights_are_sorted_and_unique() {
    let files = vec!["{\"heights\":[5,9,12]}".to_string(), "{\"heights\":[3,9,20]}".to_string()];
    let r = filter_matching_blocks_from_index_files(4, &action_any("*.near"), &files).unwrap();
    assert_eq!(r, vec![5, 9, 12, 20]);
    let r = filter_matching_blocks_from_index_files(0, &action_any("a.x, b.y"), &files).unwrap();
    assert_eq!(r, vec![3, 5, 9, 12, 20]);
    for w in r.windows(2) {
        assert!(w[0] < w[1]);
    }
    assert!(needs_dedupe("a,b"));
    assert!(needs_dedupe("*.b"));
    assert!(!needs_dedupe("a.b"));
}

#[test]
fn sort_and_dedupe_handles_repeats_and_empty() {
    assert_eq!(sort_and_dedupe(vec![]), Vec::<u64>::new());
    assert_eq!(sort_and_dedupe(vec![7, 7, 7]), vec![7]);
    assert_eq!(sort_and_dedupe(vec![3, 1, 2, 1, u64::MAX]), vec![1, 2, 3, u64::MAX]);
}

#[test]
fn newest_indexed_takes_the_later_source() {
    assert_eq!(newest_indexed_block(&vec![1100, 1200], 900, 1000), 1200);
    assert_eq!(newest_indexed_block(&vec![1100], 900, 1500), 1500);
    assert_eq!(newest_indexed_block(&vec![], 900, 800), 900);
}

#[test]
fn tail_too_long_fails_before_any_fetch() {
    assert_eq!(TailScan::new(1000, 1000 + 7201).err(), Some(BackfillError::TailTooLong));
    assert!(TailScan::new(1000, 1000 + MAX_UNINDEXED_BLOCKS_TO_PROCESS).is_ok());
}

#[test]
fn tail_scan_walks_strictly_between_newest_and_tip() {
    let mut scan = TailScan::new(1200, 1205).unwrap();
    let mut seen = vec![];
    while let Some(h) = scan.next_height() {
        seen.push(h);
        scan.record(h % 2 == 0);
    }
    assert_eq!(seen, vec![1201, 1202, 1203, 1204]);
    assert_eq!(scan.matched, vec![1202, 1204]);
    let empty = TailScan::new(1300, 1201).unwrap();
    assert_eq!(empty.next_height(), None);
}

#[test]
fn index_heights_then_empty_tail_are_published() {
    // metadata says 1000; one index file lists 1100 and 1200; live tip 1201.
    let start = 1000;
    let files = vec!["{\"heights\":[1100,1200]}".to_string()];
    assert_eq!(backfill_delta(1201, start), Ok(201));
    let index = filter_matching_blocks_from_index_files(start, &action_any("a.near"), &files).unwrap();
    let newest = newest_indexed_block(&index, start, 1000);
    assert_eq!(newest, 1200);
    let mut scan = TailScan::new(newest, 1201).unwrap();
    assert_eq!(scan.next_height(), None);
    let mut all = index.clone();
    all.append(&mut scan.matched);
    let plan = plan_publication(&all, start, false);
    assert!(plan.register_stream);
    assert_eq!(plan.first_block_in_batch, 1100);
    assert_eq!(plan.messages.len(), 2);
    assert_eq!(plan.messages[0].block_height, 1100);
    assert!(!plan.messages[0].provisioned);
    assert_eq!(plan.messages[1].block_height, 1200);
    assert!(plan.messages[1].provisioned);
    assert!(plan.messages.iter().all(|m| m.is_historical));
}

#[test]
fn empty_batch_publishes_nothing() {
    let plan = plan_publication(&vec![], 77, false);
    assert!(!plan.register_stream);
    assert_eq!(plan.first_block_in_batch, 77);
    assert!(plan.messages.is_empty());
    let again = plan_publication(&vec![5, 6], 1, true);
    assert!(again.messages[0].provisioned);
}

#[test]
fn lake_keys_are_zero_padded() {
    assert_eq!(normalize_block_height(106309326), "000106309326");
    assert_eq!(normalize_block_height(0), "000000000000");
    assert_eq!(normalize_block_height(1234567890123), "1234567890123");
    assert_eq!(block_key(42), "000000000042/block.json");
    assert_eq!(shard_key(42, 3), "000000000042/shard_3.json");
    assert_eq!(shard_key(42, 12), "000000000042/shard_12.json");
    assert_eq!(lake_bucket_for_chain(ChainId::Mainnet), "near-lake-data-mainnet");
    assert_eq!(lake_bucket_for_chain(ChainId::Testnet), "near-lake-data-testnet");
}

#[test]
fn start_date_probe_resolves_and_gives_up() {
    let (mut probe, first) = DateProbe::new(500);
    assert_eq!(first, ProbeStep::Lookup(500));
    assert_eq!(probe.after_lookup(None), ProbeStep::Lookup(501));
    // 2015-05-15 00:00:00 UTC
    assert_eq!(
        probe.after_lookup(Some(1_431_648_000_123_456_789)),
        ProbeStep::Resolved(CalendarDate { year: 2015, month: 5, day: 15 })
    );
    let (mut probe, _) = DateProbe::new(10);
    let mut last = ProbeStep::Lookup(10);
    for _ in 0..21 {
        last = probe.after_lookup(None);
    }
    assert_eq!(last, ProbeStep::Failed(BackfillError::StartDateUnresolvable));
    assert_eq!(probe.height, 30);
}

#[test]
fn decoded_lists_give_heights_at_or_above_start() {
    let lists = vec![
        ("extra".to_string(), Some(vec![1, 2])),
        ("heights".to_string(), Some(vec![5, 10, 15])),
    ];
    assert_eq!(heights_from_lists(&lists, 10), vec![10, 15]);
    assert_eq!(heights_from_lists(&vec![("other".to_string(), Some(vec![20]))], 0), Vec::<u64>::new());
    assert_eq!(heights_from_lists(&vec![("heights".to_string(), None)], 0), Vec::<u64>::new());
}

#[test]
fn published_heights_stay_between_start_and_tip() {
    let index = vec![1100, 1200, 1300];
    let tail = vec![1250];
    assert_eq!(published_heights(&index, &tail, 1100, 1301), vec![1100, 1200, 1300, 1250]);
    assert_eq!(published_heights(&index, &vec![], 1150, 1300), vec![1200]);
    assert_eq!(published_heights(&vec![], &vec![1201, 1202], 1000, 1202), vec![1201]);
}
