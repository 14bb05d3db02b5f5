use eth_node::block::{Block, Header};
use eth_node::cache::{BlockWithReceipts, FeeHistoryCache, FeeHistoryCacheConfig};
use eth_node::task::{NewBlocksTask, TaskAction, TaskEvent};
use std::sync::Arc;

fn block(number: u64) -> BlockWithReceipts<()> {
    BlockWithReceipts {
        block: Block {
            header: Header {
                number,
                timestamp: 0,
                gas_used: 0,
                gas_limit: 1,
                base_fee_per_gas: None,
                blob_gas_used: None,
                excess_blob_gas: None,
                full: Arc::new(()),
            },
            body_blob_gas_used: 0,
            transactions: vec![],
        },
        receipts: vec![],
        blob_params: None,
        reward_thresholds: vec![],
    }
}

fn cache() -> FeeHistoryCache<()> {
    FeeHistoryCache::new(FeeHistoryCacheConfig { max_blocks: 10, resolution: 0 })
}

fn numbers(cache: &FeeHistoryCache<()>) -> Vec<u64> {
    match cache.get_history(cache.lower_bound(), cache.upper_bound()) {
        Some(entries) => entries.iter().map(|entry| entry.header.number).collect(),
        None => vec![],
    }
}

#[test]
fn new_task_has_nothing_to_fetch() {
    assert_eq!(NewBlocksTask::new().next_missing_block(), None);
}

#[test]
fn committed_blocks_go_into_the_cache() {
    let (mut task, mut cache) = (NewBlocksTask::new(), cache());
    let event = TaskEvent::Committed(vec![block(5), block(6)]);
    assert_eq!(task.handle(&mut cache, event), TaskAction::Continue);
    assert_eq!(numbers(&cache), vec![5, 6]);
    assert_eq!(task.next_missing_block(), None);
}

#[test]
fn missing_blocks_are_fetched_one_at_a_time() {
    let (mut task, mut cache) = (NewBlocksTask::new(), cache());
    task.handle(&mut cache, TaskEvent::Committed(vec![block(5), block(9)]));
    assert_eq!(task.next_missing_block(), Some(8));
    assert!(task.hash_looked_up(true));
    assert_eq!(task.next_missing_block(), None);
    task.handle(&mut cache, TaskEvent::Fetched(Some(block(8))));
    assert_eq!(numbers(&cache), vec![5, 8, 9]);
    assert_eq!(task.next_missing_block(), Some(7));
    assert!(task.hash_looked_up(true));
    task.handle(&mut cache, TaskEvent::Fetched(None));
    assert_eq!(task.next_missing_block(), Some(6));
    assert!(task.hash_looked_up(true));
    task.handle(&mut cache, TaskEvent::Fetched(Some(block(6))));
    assert_eq!(task.next_missing_block(), None);
    assert_eq!(numbers(&cache), vec![5, 6, 8, 9]);
}

#[test]
fn one_lookup_per_turn() {
    let (mut task, mut cache) = (NewBlocksTask::new(), cache());
    task.handle(&mut cache, TaskEvent::Committed(vec![block(5), block(9)]));
    assert_eq!(task.next_missing_block(), Some(8));
    // Before the lookup is made, no other block is handed out.
    assert_eq!(task.next_missing_block(), None);
    // The hash is unknown, so the block is given up, and nothing else is looked up in this turn.
    assert!(!task.hash_looked_up(false));
    assert_eq!(task.next_missing_block(), None);
    // A second outcome of the same lookup does not count.
    assert!(!task.hash_looked_up(true));
    task.handle(&mut cache, TaskEvent::Committed(vec![block(10)]));
    assert_eq!(task.next_missing_block(), Some(8));
}

#[test]
fn no_lookup_without_a_block_to_look_up() {
    let mut task = NewBlocksTask::new();
    assert!(!task.hash_looked_up(true));
    let mut cache = cache();
    task.handle(&mut cache, TaskEvent::Committed(vec![block(1), block(3)]));
    assert_eq!(task.next_missing_block(), Some(2));
}

#[test]
fn failed_fetch_makes_room_for_the_next() {
    let (mut task, mut cache) = (NewBlocksTask::new(), cache());
    task.handle(&mut cache, TaskEvent::Committed(vec![block(1), block(4)]));
    assert_eq!(task.next_missing_block(), Some(3));
    assert!(task.hash_looked_up(true));
    assert_eq!(task.handle(&mut cache, TaskEvent::FetchFailed), TaskAction::Continue);
    assert_eq!(task.next_missing_block(), Some(2));
}

#[test]
fn committed_blocks_renew_the_missing_ones() {
    let (mut task, mut cache) = (NewBlocksTask::new(), cache());
    task.handle(&mut cache, TaskEvent::Committed(vec![block(1), block(4)]));
    assert_eq!(task.next_missing_block(), Some(3));
    assert!(task.hash_looked_up(true));
    task.handle(&mut cache, TaskEvent::Committed(vec![block(6)]));
    // The fetch goes on while new blocks come in.
    assert_eq!(task.next_missing_block(), None);
    task.handle(&mut cache, TaskEvent::Fetched(Some(block(3))));
    let mut handed_out = vec![];
    while let Some(number) = task.next_missing_block() {
        handed_out.push(number);
        assert!(task.hash_looked_up(true));
        task.handle(&mut cache, TaskEvent::FetchFailed);
    }
    assert_eq!(handed_out, vec![5, 3, 2]);
}

#[test]
fn consecutive_commits_are_one_insertion() {
    let batches: [&[u64]; 4] = [&[3, 4], &[5], &[], &[6, 7, 8]];
    for max_blocks in [1, 2, 4, 10] {
        let config = FeeHistoryCacheConfig { max_blocks, resolution: 0 };
        let (mut task, mut cache) = (NewBlocksTask::new(), FeeHistoryCache::new(config));
        let mut at_once = FeeHistoryCache::new(config);
        for batch in batches {
            assert_eq!(task.next_missing_block(), None);
            let blocks = batch.iter().map(|n| block(*n)).collect();
            let action = task.handle(&mut cache, TaskEvent::Committed(blocks));
            assert_eq!(action, TaskAction::Continue);
            assert!(cache.missing_consecutive_blocks().is_empty());
        }
        assert_eq!(task.next_missing_block(), None);
        assert_eq!(task.handle(&mut cache, TaskEvent::StreamEnded), TaskAction::Stop);
        at_once.insert_blocks(&(3..9).map(block).collect::<Vec<_>>());
        assert_eq!(numbers(&cache), numbers(&at_once));
        assert_eq!(
            (cache.lower_bound(), cache.upper_bound()),
            (at_once.lower_bound(), at_once.upper_bound())
        );
        assert_eq!(cache.upper_bound(), 8);
    }
}

#[test]
fn commit_without_blocks_into_an_empty_cache() {
    let (mut task, mut cache) = (NewBlocksTask::new(), cache());
    task.handle(&mut cache, TaskEvent::Committed(vec![]));
    assert_eq!(task.next_missing_block(), Some(0));
}

#[test]
fn run_with_fetches_is_one_insertion() {
    let (mut task, mut cache) = (NewBlocksTask::new(), cache());
    task.handle(&mut cache, TaskEvent::Committed(vec![block(2), block(5)]));
    assert_eq!(task.next_missing_block(), Some(4));
    assert!(task.hash_looked_up(true));
    task.handle(&mut cache, TaskEvent::Committed(vec![block(6)]));
    task.handle(&mut cache, TaskEvent::Fetched(Some(block(4))));
    let config = FeeHistoryCacheConfig { max_blocks: 10, resolution: 0 };
    let mut at_once = FeeHistoryCache::new(config);
    at_once.insert_blocks(&[block(2), block(5), block(6), block(4)]);
    assert_eq!(numbers(&cache), numbers(&at_once));
    assert_eq!(numbers(&cache), vec![2, 4, 5, 6]);
}

#[test]
fn end_of_the_stream_stops_the_task() {
    let (mut task, mut cache) = (NewBlocksTask::new(), cache());
    task.handle(&mut cache, TaskEvent::Committed(vec![block(1), block(3)]));
    assert_eq!(task.handle(&mut cache, TaskEvent::StreamEnded), TaskAction::Stop);
    assert_eq!(numbers(&cache), vec![1, 3]);
    assert_eq!(task.next_missing_block(), None);
}

#[test]
fn fetches_fill_the_gaps() {
    let (mut task, mut cache) = (NewBlocksTask::new(), cache());
    task.handle(&mut cache, TaskEvent::Committed(vec![block(3), block(5), block(8)]));
    let missing = cache.missing_consecutive_blocks();
    assert_eq!(missing, [7, 6, 4]);
    for number in missing {
        assert_eq!(task.next_missing_block(), Some(number));
        assert!(task.hash_looked_up(true));
        task.handle(&mut cache, TaskEvent::Fetched(Some(block(number))));
    }
    assert_eq!(task.next_missing_block(), None);
    assert!(cache.missing_consecutive_blocks().is_empty());
    assert_eq!(numbers(&cache), vec![3, 4, 5, 6, 7, 8]);
}
