use eth_node::blob::{BlobParams, DATA_GAS_PER_BLOB, MAX_DATA_GAS_PER_BLOCK_DENCUN};
use eth_node::block::{Block, Header};
use eth_node::entry::{
    can_compute_entry, checked_blob_gas_used_ratio, FeeHistoryEntry, Ratio,
};
use std::sync::Arc;

fn params(p: alloy_eips::eip7840::BlobParams) -> BlobParams {
    BlobParams {
        target_blob_count: p.target_blob_count,
        max_blob_count: p.max_blob_count,
        update_fraction: p.update_fraction,
        min_blob_fee: p.min_blob_fee,
        max_blobs_per_tx: p.max_blobs_per_tx,
    }
}

fn cancun() -> BlobParams {
    params(alloy_eips::eip7840::BlobParams::cancun())
}

fn block(excess_blob_gas: Option<u64>, blob_gas_used: Option<u64>) -> Block<&'static str> {
    Block {
        header: Header {
            number: 7,
            timestamp: 1_000,
            gas_used: 15,
            gas_limit: 30,
            base_fee_per_gas: Some(1),
            blob_gas_used,
            excess_blob_gas,
            full: Arc::new("full header"),
        },
        body_blob_gas_used: blob_gas_used.unwrap_or(0),
        transactions: vec![],
    }
}

fn with(update_fraction: u128, min_blob_fee: u128) -> BlobParams {
    BlobParams { update_fraction, min_blob_fee, ..cancun() }
}

#[test]
fn blob_fee_of_known_excess() {
    let vectors: [(u64, u128); 7] = [
        (0, 1),
        (2314057, 1),
        (2314058, 2),
        (10 * 1024 * 1024, 23),
        (148099578, 18446739238971471609),
        (148099579, 18446744762204311910),
        (161087488, 902580055246494526580),
    ];
    for (excess, fee) in vectors {
        assert!(cancun().can_compute_blob_fee(excess));
        let entry = FeeHistoryEntry::new(&block(Some(excess), Some(0)), Some(cancun()));
        assert_eq!(entry.base_fee_per_blob_gas, Some(fee));
    }
}

#[test]
fn blob_fee_of_small_fractions() {
    let vectors: [(u128, u64, u128, u128); 7] = [
        (1, 0, 1, 1),
        (38493, 0, 1000, 38493),
        (0, 1234, 2345, 0),
        (1, 2, 1, 6),
        (10, 8, 2, 542),
        (2, 5, 2, 23),
        (1, 50000000, 2225652, 5709098764),
    ];
    for (factor, numerator, denominator, fee) in vectors {
        let p = with(denominator, factor);
        assert!(p.can_compute_blob_fee(numerator));
        let entry = FeeHistoryEntry::new(&block(Some(numerator), None), Some(p));
        assert_eq!(entry.base_fee_per_blob_gas, Some(fee));
    }
}

#[test]
fn blob_fee_that_does_not_fit() {
    assert!(!with(0, 1).can_compute_blob_fee(0));
    assert!(!with(u128::MAX, 2).can_compute_blob_fee(0));
    assert!(!with(1, 1).can_compute_blob_fee(u64::MAX));
    assert!(!cancun().can_compute_blob_fee(u64::MAX));
    assert!(!with(2, u128::MAX / 2).can_compute_blob_fee(2));
    assert!(with(2, u128::MAX / 2).can_compute_blob_fee(0));
    assert!(with(1, u128::MAX).can_compute_blob_fee(0));
}

#[test]
fn computable_fees_agree_with_the_direct_call() {
    for excess in [0, 1, 393_216, 5_000_000, 100_000_000, 180_000_000] {
        let p = alloy_eips::eip7840::BlobParams::prague();
        assert!(params(p).can_compute_blob_fee(excess));
        let entry = FeeHistoryEntry::new(&block(Some(excess), None), Some(params(p)));
        assert_eq!(entry.base_fee_per_blob_gas, Some(p.calc_blob_fee(excess)));
    }
}

#[test]
fn blob_fee_grows_with_excess() {
    let mut last = 0;
    for excess in (0..50_000_000).step_by(1_000_000) {
        let entry = FeeHistoryEntry::new(&block(Some(excess), None), Some(cancun()));
        let fee = entry.base_fee_per_blob_gas.unwrap();
        assert!(fee >= last && fee >= 1);
        last = fee;
    }
}

#[test]
fn blob_fee_is_zero_before_blobs() {
    let entry = FeeHistoryEntry::new(&block(None, None), None);
    assert_eq!(entry.base_fee_per_blob_gas, Some(0));
    assert_eq!(entry.blob_gas_used_ratio, Ratio { numerator: 0, denominator: 1 });
    assert_eq!(entry.next_block_excess_blob_gas(), None);
    assert_eq!(entry.next_block_blob_fee(), None);
}

#[test]
fn blob_fee_is_unknown_where_one_part_is_missing() {
    let entry = FeeHistoryEntry::new(&block(None, None), Some(cancun()));
    assert_eq!(entry.base_fee_per_blob_gas, None);
    let entry = FeeHistoryEntry::new(&block(Some(0), Some(0)), None);
    assert_eq!(entry.base_fee_per_blob_gas, None);
}

#[test]
fn entry_without_rewards() {
    let b = block(Some(0), Some(2 * DATA_GAS_PER_BLOB));
    assert!(can_compute_entry(&b.header, &Some(cancun())));
    let entry = FeeHistoryEntry::new(&b, Some(cancun()));
    assert_eq!(entry.header, b.header);
    assert_eq!(*entry.header.full, "full header");
    assert_eq!(entry.gas_used_ratio, Ratio { numerator: 15, denominator: 30 });
    assert_eq!(entry.blob_gas_used_ratio, Ratio { numerator: 262_144, denominator: 786_432 });
    assert!(entry.rewards.is_empty());
    assert_eq!(entry.blob_params, Some(cancun()));
}

#[test]
fn blob_ratio_without_parameters() {
    let entry = FeeHistoryEntry::new(&block(None, Some(DATA_GAS_PER_BLOB)), None);
    assert_eq!(entry.blob_gas_used_ratio, Ratio { numerator: 131_072, denominator: 786_432 });
    assert_eq!(
        MAX_DATA_GAS_PER_BLOCK_DENCUN,
        alloy_eips::eip4844::MAX_DATA_GAS_PER_BLOCK_DENCUN
    );
    assert_eq!(DATA_GAS_PER_BLOB, alloy_eips::eip4844::DATA_GAS_PER_BLOB);
}

#[test]
fn blob_ratio_is_zero_without_blobs() {
    assert_eq!(checked_blob_gas_used_ratio(0, 0), Ratio { numerator: 0, denominator: 1 });
    assert_eq!(checked_blob_gas_used_ratio(3, 6), Ratio { numerator: 3, denominator: 6 });
}

#[test]
fn entry_that_overflows() {
    let b = block(Some(0), Some(0));
    let too_many = BlobParams { max_blob_count: u64::MAX, ..cancun() };
    assert!(!can_compute_entry(&b.header, &Some(too_many)));
    assert!(!can_compute_entry(&b.header, &Some(with(0, 1))));
    assert!(can_compute_entry(&block(None, None).header, &Some(with(0, 1))));
    assert!(can_compute_entry(&b.header, &None));
}

#[test]
fn next_excess_follows_the_target() {
    // The target is three blobs.
    let vectors: [(u64, u64, u64); 8] = [
        (0, 0, 0),
        (0, 3, 0),
        (0, 4, DATA_GAS_PER_BLOB),
        (1, 4, DATA_GAS_PER_BLOB + 1),
        (1, 5, 2 * DATA_GAS_PER_BLOB + 1),
        (393_216, 3, 393_216),
        (393_216, 1, 393_216 - 2 * DATA_GAS_PER_BLOB),
        (DATA_GAS_PER_BLOB - 1, 2, 0),
    ];
    for (excess, blobs, next) in vectors {
        let b = block(Some(excess), Some(blobs * DATA_GAS_PER_BLOB));
        let entry = FeeHistoryEntry::new(&b, Some(cancun()));
        assert!(entry.can_compute_next_block_excess_blob_gas());
        assert_eq!(entry.next_block_excess_blob_gas(), Some(next));
        assert!(entry.can_compute_next_block_blob_fee());
        let fee = alloy_eips::eip7840::BlobParams::cancun().calc_blob_fee(next);
        assert_eq!(entry.next_block_blob_fee(), Some(fee));
    }
}

#[test]
fn next_blob_fee_of_a_busy_chain() {
    let b = block(Some(10 * 1024 * 1024 - 3 * DATA_GAS_PER_BLOB), Some(6 * DATA_GAS_PER_BLOB));
    let entry = FeeHistoryEntry::new(&b, Some(cancun()));
    assert_eq!(entry.next_block_blob_fee(), Some(23));
}

#[test]
fn predicted_blob_fee_is_reported() {
    for (excess, blobs) in [(0, 6), (10 * 1024 * 1024, 6), (100_000_000, 0), (5, 3)] {
        let b = block(Some(excess), Some(blobs * DATA_GAS_PER_BLOB));
        let parent = FeeHistoryEntry::new(&b, Some(cancun()));
        let child = block(parent.next_block_excess_blob_gas(), Some(0));
        let entry = FeeHistoryEntry::new(&child, Some(cancun()));
        assert!(entry.base_fee_per_blob_gas.is_some());
        assert_eq!(parent.next_block_blob_fee(), entry.base_fee_per_blob_gas);
    }
}

#[test]
fn next_values_are_none_where_something_is_unknown() {
    for (b, p) in [
        (block(None, Some(1)), Some(cancun())),
        (block(Some(1), None), Some(cancun())),
        (block(Some(1), Some(1)), None),
    ] {
        let entry = FeeHistoryEntry::new(&b, p);
        assert_eq!(entry.next_block_excess_blob_gas(), None);
        assert_eq!(entry.next_block_blob_fee(), None);
    }
}

#[test]
fn next_values_that_overflow() {
    let mut entry = FeeHistoryEntry::new(&block(Some(0), Some(u64::MAX)), Some(cancun()));
    assert!(entry.can_compute_next_block_excess_blob_gas());
    assert!(!entry.can_compute_next_block_blob_fee());
    entry.header.excess_blob_gas = Some(1);
    assert!(!entry.can_compute_next_block_excess_blob_gas());
    assert!(!entry.can_compute_next_block_blob_fee());
    entry.blob_params = Some(BlobParams { target_blob_count: u64::MAX, ..cancun() });
    entry.header.blob_gas_used = Some(0);
    assert!(!entry.can_compute_next_block_excess_blob_gas());
}

#[test]
fn clone_keeps_everything() {
    let mut entry = FeeHistoryEntry::new(&block(Some(5), Some(6)), Some(cancun()));
    entry.rewards = vec![1, 2, 3];
    let copy = entry.clone();
    assert_eq!(copy.header, entry.header);
    assert!(Arc::ptr_eq(&copy.header.full, &entry.header.full));
    assert_eq!(copy.rewards, vec![1, 2, 3]);
    assert_eq!(copy.gas_used_ratio, entry.gas_used_ratio);
    assert_eq!(copy.blob_gas_used_ratio, entry.blob_gas_used_ratio);
    assert_eq!(copy.base_fee_per_blob_gas, entry.base_fee_per_blob_gas);
    assert_eq!(copy.blob_params, entry.blob_params);
}
