use eth_node::block::{Block, Header, Receipt, TxFees};
use eth_node::cache::{
    BlockWithReceipts, FeeHistoryCache, FeeHistoryCacheConfig, MAX_HEADER_HISTORY,
};
use std::collections::VecDeque;
use std::sync::Arc;

const CONFIG: FeeHistoryCacheConfig = FeeHistoryCacheConfig { max_blocks: 4, resolution: 1 };

fn block(number: u64) -> BlockWithReceipts<&'static str> {
    marked(number, 0)
}

fn marked(number: u64, mark: u64) -> BlockWithReceipts<&'static str> {
    BlockWithReceipts {
        block: Block {
            header: Header {
                number,
                timestamp: mark,
                gas_used: 100,
                gas_limit: 200,
                base_fee_per_gas: Some(10),
                blob_gas_used: None,
                excess_blob_gas: None,
                full: Arc::new("full header"),
            },
            body_blob_gas_used: 0,
            transactions: vec![
                TxFees::Legacy { gas_price: 13 },
                TxFees::Dynamic { max_fee_per_gas: 20, max_priority_fee_per_gas: 1 },
            ],
        },
        receipts: vec![
            Receipt { cumulative_gas_used: 40 },
            Receipt { cumulative_gas_used: 100 },
        ],
        blob_params: None,
        reward_thresholds: (0..100).collect(),
    }
}

fn cache_of(max_blocks: u64, numbers: &[u64]) -> FeeHistoryCache<&'static str> {
    let mut cache =
        FeeHistoryCache::new(FeeHistoryCacheConfig { max_blocks, ..CONFIG });
    let blocks: Vec<_> = numbers.iter().map(|n| block(*n)).collect();
    assert!(blocks.iter().all(|b| b.check(&CONFIG)));
    cache.insert_blocks(&blocks);
    cache
}

fn history(cache: &FeeHistoryCache<&'static str>, start: u64, end: u64) -> Option<Vec<u64>> {
    Some(cache.get_history(start, end)?.iter().map(|entry| entry.header.number).collect())
}

fn all(cache: &FeeHistoryCache<&'static str>) -> Vec<u64> {
    history(cache, cache.lower_bound(), cache.upper_bound()).unwrap_or_default()
}

fn missing(cache: &FeeHistoryCache<&'static str>) -> Vec<u64> {
    cache.missing_consecutive_blocks().into_iter().collect()
}

#[test]
fn default_config() {
    let config = FeeHistoryCacheConfig::default();
    assert_eq!(config.max_blocks, MAX_HEADER_HISTORY + 100);
    assert_eq!(config.max_blocks, 1124);
    assert_eq!(config.resolution, 4);
}

#[test]
fn new_cache_is_empty() {
    let cache = FeeHistoryCache::new(CONFIG);
    assert_eq!(*cache.config(), CONFIG);
    assert_eq!(cache.resolution(), 1);
    assert_eq!((cache.lower_bound(), cache.upper_bound()), (0, 0));
    assert_eq!(history(&cache, 0, 0), None);
}

#[test]
fn new_cache_misses_the_first_block() {
    let config = FeeHistoryCacheConfig { max_blocks: 10, resolution: 1 };
    let mut cache = FeeHistoryCache::new(config);
    assert_eq!(cache.missing_consecutive_blocks(), VecDeque::from([0]));
    cache.insert_blocks(&[block(0)]);
    assert!(cache.missing_consecutive_blocks().is_empty());
    assert_eq!(all(&cache), vec![0]);
}

#[test]
fn percentiles_of_a_resolution() {
    let percentiles_of = |resolution: u64| {
        let config = FeeHistoryCacheConfig { max_blocks: 1, resolution };
        FeeHistoryCache::<()>::new(config).predefined_percentiles()
    };
    let percentiles = percentiles_of(4);
    assert_eq!(percentiles.len(), 400);
    assert_eq!(percentiles[0], 0);
    assert_eq!(percentiles[1] as f64 / 4., 0.25);
    assert_eq!(percentiles[399] as f64 / 4., 99.75);
    assert_eq!(percentiles_of(1), (0..100).collect::<Vec<u64>>());
    assert_eq!(percentiles_of(0), Vec::<u64>::new());
}

#[test]
fn history_within_bounds() {
    let cache = cache_of(4, &[11, 10, 13, 12]);
    assert_eq!((cache.lower_bound(), cache.upper_bound()), (10, 13));
    assert_eq!(history(&cache, 10, 13), Some(vec![10, 11, 12, 13]));
    assert_eq!(history(&cache, 11, 12), Some(vec![11, 12]));
    assert_eq!(history(&cache, 12, 12), Some(vec![12]));
    assert_eq!(history(&cache, 9, 12), None);
    assert_eq!(history(&cache, 11, 14), None);
    assert_eq!(history(&cache, 12, 11), None);
}

#[test]
fn history_holds_the_inserted_entries() {
    let cache = cache_of(4, &[10]);
    let entries = cache.get_history(10, 10).unwrap();
    assert_eq!(entries.len(), 1);
    let entry = &entries[0];
    assert_eq!(entry.header, block(10).block.header);
    assert_eq!(*entry.header.full, "full header");
    assert_eq!(entry.base_fee_per_blob_gas, Some(0));
    assert_eq!(entry.rewards.len(), 100);
    // By reward: 60 gas at 1, 40 gas at 3.
    assert_eq!(entry.rewards[0], 1);
    assert_eq!(entry.rewards[60], 1);
    assert_eq!(entry.rewards[61], 3);
    assert_eq!(entry.rewards[99], 3);
}

#[test]
fn missing_base_fee_counts_as_zero() {
    let mut cache = FeeHistoryCache::new(CONFIG);
    let mut b = block(1);
    b.block.header.base_fee_per_gas = None;
    cache.insert_blocks(&[b]);
    let entries = cache.get_history(1, 1).unwrap();
    assert_eq!(entries[0].rewards[0], 1);
    assert_eq!(entries[0].rewards[99], 13);
}

#[test]
fn oldest_blocks_leave() {
    let cache = cache_of(4, &[10, 11, 12, 13, 14, 15]);
    assert_eq!((cache.lower_bound(), cache.upper_bound()), (12, 15));
    assert_eq!(all(&cache), vec![12, 13, 14, 15]);
}

#[test]
fn blocks_far_below_the_newest_leave() {
    let cache = cache_of(4, &[10, 11, 20]);
    assert_eq!((cache.lower_bound(), cache.upper_bound()), (20, 20));
    // A block that is exactly the allowed distance below stays.
    let cache = cache_of(4, &[15, 16, 20]);
    assert_eq!(all(&cache), vec![16, 20]);
    // The window of a young chain reaches down to the first block.
    let cache = cache_of(4, &[0, 3]);
    assert_eq!(all(&cache), vec![0, 3]);
}

#[test]
fn cache_for_no_blocks() {
    let cache = cache_of(0, &[10, 11]);
    assert_eq!((cache.lower_bound(), cache.upper_bound()), (0, 0));
    assert_eq!(history(&cache, 0, 0), None);
    assert_eq!(history(&cache, 10, 11), None);
}

#[test]
fn block_replaces_the_one_before() {
    let mut cache = FeeHistoryCache::new(CONFIG);
    cache.insert_blocks(&[marked(5, 1), marked(6, 2), marked(5, 3)]);
    let stamps = |cache: &FeeHistoryCache<&'static str>| -> Vec<u64> {
        cache.get_history(5, 6).unwrap().iter().map(|e| e.header.timestamp).collect()
    };
    assert_eq!(stamps(&cache), vec![3, 2]);
    cache.insert_blocks(&[marked(6, 4)]);
    assert_eq!(stamps(&cache), vec![3, 4]);
}

#[test]
fn missing_blocks_highest_first() {
    let cache = cache_of(10, &[10, 13, 14, 17]);
    assert_eq!(missing(&cache), vec![16, 15, 12, 11]);
    assert_eq!(history(&cache, 11, 12), None);
    assert_eq!(history(&cache, 11, 13), Some(vec![13]));
}

#[test]
fn missing_block_fills_the_gap() {
    let mut cache = cache_of(10, &[10, 12, 14]);
    assert_eq!(missing(&cache), vec![13, 11]);
    cache.insert_blocks(&[block(13)]);
    assert_eq!(missing(&cache), vec![11]);
    assert_eq!((cache.lower_bound(), cache.upper_bound()), (10, 14));
    cache.insert_blocks(&[block(11)]);
    assert!(missing(&cache).is_empty());
    assert_eq!(all(&cache), vec![10, 11, 12, 13, 14]);
}

#[test]
fn all_missing_blocks_complete_the_cache() {
    for (max_blocks, kept) in [(5, vec![10, 11, 12, 13, 14]), (4, vec![11, 12, 13, 14])] {
        let mut cache = cache_of(max_blocks, &[10, 12, 14]);
        let blocks: Vec<_> = missing(&cache).into_iter().map(block).collect();
        cache.insert_blocks(&blocks);
        assert!(missing(&cache).is_empty());
        assert_eq!(cache.upper_bound(), 14);
        assert_eq!(all(&cache), kept);
    }
}

#[test]
fn missing_block_in_a_full_cache_evicts_the_oldest() {
    let mut cache = cache_of(4, &[16, 17, 19, 20]);
    cache.insert_blocks(&[block(18)]);
    assert_eq!(all(&cache), vec![17, 18, 19, 20]);
}

#[test]
fn inserting_nothing_changes_nothing() {
    let mut cache = cache_of(4, &[10, 12]);
    cache.insert_blocks(&[]);
    assert_eq!(all(&cache), vec![10, 12]);
    assert_eq!((cache.lower_bound(), cache.upper_bound()), (10, 12));
}

#[test]
fn newest_block_is_always_served() {
    let mut cache = cache_of(1, &[10]);
    for number in [11, 500, 501] {
        cache.insert_blocks(&[block(number)]);
        assert_eq!(cache.upper_bound(), number);
        assert_eq!(history(&cache, number, number), Some(vec![number]));
    }
    // An older block does not lower the upper bound.
    cache.insert_blocks(&[block(3)]);
    assert_eq!(all(&cache), vec![501]);
}

#[test]
fn batches_end_up_as_one() {
    let numbers: Vec<u64> = vec![3, 9, 1, 4, 30, 28, 26, 27, 31, 2, 25];
    for cut in 0..=numbers.len() {
        let mut cache = cache_of(4, &numbers[..cut]);
        let rest: Vec<_> = numbers[cut..].iter().map(|n| block(*n)).collect();
        cache.insert_blocks(&rest);
        assert_eq!(all(&cache), vec![27, 28, 30, 31]);
    }
}

#[test]
fn invalid_blocks_are_noticed() {
    assert!(block(1).check(&CONFIG));
    let mut b = block(1);
    b.reward_thresholds.pop();
    assert!(!b.check(&CONFIG));
    let mut b = block(1);
    b.receipts[1].cumulative_gas_used = 39;
    assert!(!b.check(&CONFIG));
    // A receipt without a transaction does not matter.
    let mut b = block(1);
    b.receipts.push(Receipt { cumulative_gas_used: 1 });
    assert!(b.check(&CONFIG));
    assert!(!block(1).check(&FeeHistoryCacheConfig { max_blocks: 4, resolution: u64::MAX }));
}

#[test]
fn entry_at_the_end_of_the_number_range() {
    let cache = cache_of(2, &[u64::MAX, u64::MAX - 1, u64::MAX - 2]);
    assert_eq!(all(&cache), vec![u64::MAX - 1, u64::MAX]);
}

#[test]
fn consecutive_blocks_leave_no_gap() {
    for max_blocks in [1, 3, 6] {
        let cache = cache_of(max_blocks, &[7, 8, 9, 10]);
        assert!(missing(&cache).is_empty());
        assert_eq!(cache.upper_bound(), 10);
    }
}
