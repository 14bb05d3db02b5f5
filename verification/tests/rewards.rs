use eth_node::block::{Receipt, TxFees};
use eth_node::rewards::calculate_reward_percentiles_for_block;

fn receipts(cumulative: &[u64]) -> Vec<Receipt> {
    cumulative.iter().map(|gas| Receipt { cumulative_gas_used: *gas }).collect()
}

fn legacy(gas_price: u128) -> TxFees {
    TxFees::Legacy { gas_price }
}

fn dynamic(max_fee_per_gas: u128, max_priority_fee_per_gas: u128) -> TxFees {
    TxFees::Dynamic { max_fee_per_gas, max_priority_fee_per_gas }
}

fn rewards(thresholds: &[u64], base_fee: u64, txs: &[TxFees], cumulative: &[u64]) -> Vec<u128> {
    calculate_reward_percentiles_for_block(thresholds, base_fee, txs, &receipts(cumulative))
        .unwrap()
}

#[test]
fn tip_of_legacy_transactions() {
    assert_eq!(legacy(100).effective_tip_per_gas(30), Some(70));
    assert_eq!(legacy(30).effective_tip_per_gas(30), Some(0));
    assert_eq!(legacy(29).effective_tip_per_gas(30), None);
}

#[test]
fn tip_of_dynamic_fee_transactions() {
    assert_eq!(dynamic(100, 5).effective_tip_per_gas(30), Some(5));
    assert_eq!(dynamic(100, 80).effective_tip_per_gas(30), Some(70));
    assert_eq!(dynamic(30, 80).effective_tip_per_gas(30), Some(0));
    assert_eq!(dynamic(29, 80).effective_tip_per_gas(30), None);
    assert_eq!(dynamic(u128::MAX, u128::MAX).effective_tip_per_gas(0), Some(u128::MAX));
}

#[test]
fn tip_that_a_transaction_quotes() {
    let quoted = |tip: Option<u128>| TxFees::Quoted { tip };
    assert_eq!(quoted(Some(7)).effective_tip_per_gas(30), Some(7));
    assert_eq!(quoted(None).effective_tip_per_gas(30), None);
    assert_eq!(
        rewards(&[0, 10, 11, 31], 30, &[quoted(Some(7)), legacy(35), quoted(None)], &[5, 25, 35]),
        vec![0, 0, 5, 7]
    );
}

#[test]
fn rewards_at_gas_positions() {
    // Gas 20, 10, 30 at rewards 3, 1, 2: by reward 10 at 1, 30 at 2, 20 at 3.
    let txs = [legacy(13), legacy(11), dynamic(50, 2)];
    let thresholds = [0, 9, 10, 11, 40, 41, 60, 61, u64::MAX];
    assert_eq!(
        rewards(&thresholds, 10, &txs, &[20, 30, 60]),
        vec![1, 1, 1, 2, 2, 3, 3, 3, 3]
    );
}

#[test]
fn rewards_ignore_transaction_order() {
    let thresholds = [0, 10, 11, 40, 41];
    let a = rewards(&thresholds, 10, &[legacy(13), legacy(11), legacy(12)], &[20, 30, 60]);
    let b = rewards(&thresholds, 10, &[legacy(11), legacy(12), legacy(13)], &[10, 40, 60]);
    assert_eq!(a, b);
    assert_eq!(a, vec![1, 1, 2, 2, 3]);
}

#[test]
fn rewards_never_decrease() {
    let txs = [legacy(5), legacy(9), legacy(1), legacy(7), legacy(7)];
    let all = rewards(&(0..120).collect::<Vec<_>>(), 0, &txs, &[10, 25, 50, 60, 100]);
    assert_eq!(all.len(), 120);
    assert!(all.windows(2).all(|pair| pair[0] <= pair[1]));
    assert_eq!(all[0], 1);
    assert_eq!(all[25], 1);
    assert_eq!(all[26], 5);
    assert_eq!(all[119], 9);
}

#[test]
fn lower_position_after_a_higher_one() {
    let txs = [legacy(1), legacy(2), legacy(3)];
    assert_eq!(rewards(&[15, 0, 25, 5], 0, &txs, &[10, 20, 30]), vec![2, 2, 3, 3]);
}

#[test]
fn empty_block_has_zero_rewards() {
    assert_eq!(rewards(&[0, 5, 10], 7, &[], &[]), vec![0, 0, 0]);
    assert_eq!(rewards(&[], 7, &[legacy(9)], &[4]), Vec::<u128>::new());
}

#[test]
fn transactions_without_receipt_do_not_count() {
    assert_eq!(rewards(&[0, 100], 0, &[legacy(5), legacy(1)], &[10]), vec![5, 5]);
    assert_eq!(rewards(&[0, 100], 0, &[legacy(5)], &[10, 30]), vec![5, 5]);
}

#[test]
fn transaction_below_the_base_fee_pays_nothing() {
    assert_eq!(rewards(&[0, 10, 11], 10, &[legacy(15), legacy(3)], &[10, 20]), vec![0, 0, 5]);
}

#[test]
fn zero_gas_transactions() {
    let txs = [legacy(3), legacy(1), legacy(2)];
    assert_eq!(rewards(&[0, 1, 5, 6], 0, &txs, &[0, 0, 5]), vec![1, 2, 2, 3]);
}
