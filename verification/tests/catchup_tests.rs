use geth_indexer::catchup::{
    start, step, Action, BlockCounts, BlockSummary, BlockWrite, Event, Fetched, Phase, Worker,
    SLEEP,
};

fn block(number: u64) -> BlockSummary {
    BlockSummary { number, timestamp: 1_700_000_000 + number as i64, tx_count: 3 }
}

fn counts() -> BlockCounts {
    BlockCounts { total: 5, failed: 1, native: 2, cross_chain: 3 }
}

#[test]
fn catch_up_resume() {
    let (worker, action) = start(None, Some(42));
    assert_eq!(action, Action::ReadHead);
    assert_eq!(worker.indexer_block_height, 42);
    let (worker, action) = step(worker, Event::Head(Some(50)));
    assert_eq!(action, Action::FetchBlock(43));
    let (worker, action) = step(worker, Event::Block(Fetched::Present(block(43))));
    assert_eq!(action, Action::ProcessBlock(block(43)));
    let (worker, action) = step(worker, Event::Processed(Some(counts())));
    match action {
        Action::AddBlock(write) => assert!(write.height >= 43),
        other => panic!("{other:?}"),
    }
    let (worker, action) = step(worker, Event::Written(true));
    assert_eq!(action, Action::Sleep(SLEEP));
    assert_eq!(worker.query_param, 44);
}

#[test]
fn a_configured_start_height_comes_first() {
    let (worker, _) = start(Some(10), Some(42));
    assert_eq!((worker.indexer_block_height, worker.query_param), (10, 11));
    assert_eq!(worker.phase, Phase::ReadingHead);
}

#[test]
fn a_worker_without_any_height_begins_at_block_zero() {
    let (worker, _) = start(None, None);
    assert_eq!((worker.indexer_block_height, worker.query_param), (0, 0));
    let (worker, _) = step(worker, Event::Head(Some(9)));
    let (worker, action) = step(worker, Event::Block(Fetched::Present(block(0))));
    assert_eq!(action, Action::ProcessBlock(block(0)));
    let (worker, _) = step(worker, Event::Processed(Some(counts())));
    let (worker, _) = step(worker, Event::Written(true));
    assert_eq!(worker.query_param, 1);
}

#[test]
fn the_write_carries_the_blocks_counts() {
    let (worker, _) = start(Some(6), None);
    let (worker, _) = step(worker, Event::Head(Some(7)));
    let (worker, _) = step(worker, Event::Block(Fetched::Present(block(7))));
    let (_, action) = step(worker, Event::Processed(Some(counts())));
    assert_eq!(
        action,
        Action::AddBlock(BlockWrite {
            timestamp: 1_700_000_007,
            successful_xfers: 4,
            total_xfers: 5,
            total_native_transfers: 2,
            total_x_chain_transfers: 3,
            tx_count: 3,
            height: 7,
        })
    );
}

#[test]
fn more_failed_than_total_gives_no_successful_transfers() {
    let (worker, _) = start(Some(6), None);
    let (worker, _) = step(worker, Event::Head(Some(7)));
    let (worker, _) = step(worker, Event::Block(Fetched::Present(block(7))));
    let odd = BlockCounts { total: 1, failed: 2, native: 0, cross_chain: 0 };
    match step(worker, Event::Processed(Some(odd))).1 {
        Action::AddBlock(write) => assert_eq!(write.successful_xfers, 0),
        other => panic!("{other:?}"),
    }
}

#[test]
fn a_failed_read_of_the_head_is_retried_after_a_pause() {
    let (worker, _) = start(Some(1), None);
    let (worker, action) = step(worker, Event::Head(None));
    assert_eq!(action, Action::Sleep(10));
    assert_eq!(worker.phase, Phase::RetryingHead);
    let (worker, action) = step(worker, Event::Woke);
    assert_eq!(action, Action::ReadHead);
    assert_eq!(worker.phase, Phase::ReadingHead);
}

#[test]
fn an_absent_block_is_asked_for_again() {
    let (worker, _) = start(Some(1), None);
    let (worker, _) = step(worker, Event::Head(Some(1)));
    let (after, action) = step(worker, Event::Block(Fetched::Absent));
    assert_eq!(action, Action::FetchBlock(2));
    assert_eq!(after, worker);
}

#[test]
fn every_failure_leads_back_to_the_head() {
    let (worker, _) = start(Some(1), None);
    let (fetching, _) = step(worker, Event::Head(Some(5)));
    let (after, action) = step(fetching, Event::Block(Fetched::Failed));
    assert_eq!((after.phase, action), (Phase::ReadingHead, Action::ReadHead));
    let (processing, _) = step(fetching, Event::Block(Fetched::Present(block(2))));
    let (after, action) = step(processing, Event::Processed(None));
    assert_eq!((after.phase, action), (Phase::ReadingHead, Action::ReadHead));
    assert_eq!(after.query_param, 2);
    let (writing, _) = step(processing, Event::Processed(Some(counts())));
    let (after, action) = step(writing, Event::Written(false));
    assert_eq!((after.phase, action), (Phase::ReadingHead, Action::ReadHead));
    assert_eq!(after.query_param, 2);
}

#[test]
fn a_block_at_the_workers_height_is_passed_over() {
    let worker = Worker {
        indexer_block_height: 5,
        query_param: 5,
        validator_max_height: 5,
        phase: Phase::Fetching,
    };
    let (after, action) = step(worker, Event::Block(Fetched::Present(block(5))));
    assert_eq!(action, Action::Sleep(SLEEP));
    assert_eq!(after.phase, Phase::Resting);
    assert_eq!(after.query_param, 6);
    let (after, action) = step(after, Event::Woke);
    assert_eq!(action, Action::FetchBlock(6));
    assert_eq!(after.phase, Phase::Fetching);
}

#[test]
fn the_highest_number_seen_never_falls_within_a_round() {
    let (worker, _) = start(Some(1), None);
    let (worker, _) = step(worker, Event::Head(Some(100)));
    let (worker, _) = step(worker, Event::Block(Fetched::Present(block(2))));
    assert_eq!(worker.validator_max_height, 100);
    let (worker, _) = step(worker, Event::Processed(None));
    let (worker, _) = step(worker, Event::Head(Some(1)));
    let (worker, _) = step(worker, Event::Block(Fetched::Present(block(2))));
    assert_eq!(worker.validator_max_height, 2);
}

#[test]
fn an_event_that_was_not_waited_for_changes_nothing() {
    let (worker, _) = start(Some(1), None);
    let (after, action) = step(worker, Event::Written(true));
    assert_eq!((after, action), (worker, Action::ReadHead));
    let (fetching, _) = step(worker, Event::Head(Some(5)));
    let (after, action) = step(fetching, Event::Woke);
    assert_eq!((after, action), (fetching, Action::FetchBlock(2)));
    let (processing, _) = step(fetching, Event::Block(Fetched::Present(block(2))));
    let (after, action) = step(processing, Event::Head(Some(9)));
    assert_eq!((after, action), (processing, Action::ProcessBlock(block(2))));
}

#[test]
fn written_heights_increase_over_a_run() {
    let (mut worker, _) = start(None, Some(42));
    let mut written = Vec::new();
    let mut next_block = 43;
    let mut action = step(worker, Event::Head(Some(10_000))).1;
    worker = step(worker, Event::Head(Some(10_000))).0;
    for round in 0..40 {
        let event = match action {
            Action::ReadHead => Event::Head(Some(10_000)),
            Action::FetchBlock(n) => {
                assert_eq!(n, next_block);
                if round % 7 == 3 {
                    Event::Block(Fetched::Absent)
                } else {
                    Event::Block(Fetched::Present(block(n)))
                }
            }
            Action::ProcessBlock(_) => Event::Processed(Some(counts())),
            Action::AddBlock(write) => {
                if round % 5 == 4 {
                    Event::Written(false)
                } else {
                    written.push(write.height);
                    next_block = write.height + 1;
                    Event::Written(true)
                }
            }
            Action::Sleep(_) => Event::Woke,
        };
        let (after, then) = step(worker, event);
        assert!(after.query_param >= worker.query_param);
        worker = after;
        action = then;
    }
    assert!(written.len() > 3);
    assert!(written.windows(2).all(|w| w[0] < w[1]));
    assert_eq!(written[0], 43);
}

#[test]
fn the_last_block_number_is_not_stepped_over() {
    let worker = Worker {
        indexer_block_height: u64::MAX,
        query_param: u64::MAX,
        validator_max_height: u64::MAX,
        phase: Phase::Fetching,
    };
    let (after, _) = step(worker, Event::Block(Fetched::Present(block(u64::MAX))));
    assert_eq!(after.query_param, u64::MAX);
}

#[test]
fn the_last_block_of_the_range_is_written_once() {
    let (worker, _) = start(Some(u64::MAX - 1), None);
    let (worker, action) = step(worker, Event::Head(Some(u64::MAX)));
    assert_eq!(action, Action::FetchBlock(u64::MAX));
    let (worker, action) = step(worker, Event::Block(Fetched::Present(block(u64::MAX))));
    assert_eq!(action, Action::ProcessBlock(block(u64::MAX)));
    let (worker, _) = step(worker, Event::Processed(Some(counts())));
    let (worker, _) = step(worker, Event::Written(true));
    assert_eq!(worker.query_param, u64::MAX);
    // The same block is handed out again and passed over, time after time.
    let mut worker = worker;
    for _ in 0..3 {
        let (after, action) = step(worker, Event::Woke);
        assert_eq!(action, Action::FetchBlock(u64::MAX));
        let (after, action) = step(after, Event::Block(Fetched::Present(block(u64::MAX))));
        assert_eq!(action, Action::Sleep(SLEEP));
        worker = after;
    }
}
