//! Reward percentiles of a block: the tips that its transactions pay, weighted by gas.

use crate::block::{Receipt, TxFees};
use vstd::prelude::*;

verus! {

/// Error of the fee history interface. No computation of this crate fails with it.
#[derive(Clone, Copy, Debug, PartialEq, Eq)]
pub struct EthApiError;

/// Gas used by a transaction and the reward per gas that it pays.
#[derive(Clone, Copy, Debug, PartialEq, Eq)]
pub struct TxGasAndReward {
    /// Gas used by the transaction.
    pub gas_used: u64,
    /// The effective gas tip of the transaction.
    pub reward: u128,
}

/// How many transactions have a receipt.
pub open spec fn paired(transactions: Seq<TxFees>, receipts: Seq<Receipt>) -> nat {
    if transactions.len() <= receipts.len() {
        transactions.len()
    } else {
        receipts.len()
    }
}

/// Cumulative gas never decreases over the receipts that belong to a transaction.
pub open spec fn cumulative(transactions: Seq<TxFees>, receipts: Seq<Receipt>) -> bool {
    forall|i: int, j: int|
        #![trigger receipts[i], receipts[j]]
        0 <= i <= j < paired(transactions, receipts) ==> receipts[i].cumulative_gas_used
            <= receipts[j].cumulative_gas_used
}

/// Cumulative gas before transaction `i`.
pub open spec fn gas_before(receipts: Seq<Receipt>, i: int) -> u64 {
    if i <= 0 {
        0
    } else {
        receipts[i - 1].cumulative_gas_used
    }
}

/// Gas and reward of each transaction, in block order: the gas that it adds to the cumulative
/// gas, and its tip at the base fee, zero where it cannot pay the base fee.
pub open spec fn gas_and_rewards(
    base_fee_per_gas: u64,
    transactions: Seq<TxFees>,
    receipts: Seq<Receipt>,
) -> Seq<TxGasAndReward> {
    Seq::new(
        paired(transactions, receipts),
        |i: int|
            TxGasAndReward {
                gas_used: (receipts[i].cumulative_gas_used - gas_before(receipts, i)) as u64,
                reward: match transactions[i].tip(base_fee_per_gas) {
                    Some(tip) => tip,
                    None => 0,
                },
            },
    )
}

/// Gas used by the transactions that pay a reward of at most `reward`.
pub open spec fn gas_up_to(txs: Seq<TxGasAndReward>, reward: u128) -> nat
    decreases txs.len(),
{
    if txs.len() == 0 {
        0
    } else {
        gas_up_to(txs.drop_last(), reward) + gas_if(txs.last(), reward)
    }
}

/// The gas of a transaction that pays at most `reward`, else zero.
pub open spec fn gas_if(tx: TxGasAndReward, reward: u128) -> nat {
    if tx.reward <= reward {
        tx.gas_used as nat
    } else {
        0
    }
}

/// Whether `reward` is the reward at gas position `threshold`, when the transactions are lined up
/// by the reward that they pay: the lowest of their rewards up to which at least `threshold` gas
/// was used, or the highest of all where so much gas was not used.
pub open spec fn is_reward_at(txs: Seq<TxGasAndReward>, threshold: nat, reward: u128) -> bool {
    &&& exists|tx: TxGasAndReward| txs.contains(tx) && tx.reward == reward
    &&& forall|tx: TxGasAndReward| #[trigger]
        txs.contains(tx) && tx.reward < reward ==> gas_up_to(txs, tx.reward) < threshold
    &&& {
        ||| gas_up_to(txs, reward) >= threshold
        ||| forall|tx: TxGasAndReward| #[trigger] txs.contains(tx) ==> tx.reward <= reward
    }
}

/// The reward at gas position `threshold`.
pub open spec fn reward_at(txs: Seq<TxGasAndReward>, threshold: nat) -> u128 {
    choose|reward: u128| is_reward_at(txs, threshold, reward)
}

/// The highest of the first `n` thresholds, zero for none.
pub open spec fn highest(thresholds: Seq<u64>, n: nat) -> nat
    decreases n,
{
    if n == 0 {
        0
    } else {
        let before = highest(thresholds, (n - 1) as nat);
        if thresholds[n - 1] <= before {
            before
        } else {
            thresholds[n - 1] as nat
        }
    }
}

/// The rewards at a list of gas positions. A position that is lower than one before it counts as
/// the highest before it; without transactions every reward is zero.
pub open spec fn rewards_at(txs: Seq<TxGasAndReward>, thresholds: Seq<u64>) -> Seq<u128> {
    Seq::new(
        thresholds.len(),
        |k: int|
            if txs.len() == 0 {
                0
            } else {
                reward_at(txs, highest(thresholds, (k + 1) as nat))
            },
    )
}

/// There is no more than one reward at a gas position.
pub proof fn law_reward_at_is_unique(
    txs: Seq<TxGasAndReward>,
    threshold: nat,
    reward1: u128,
    reward2: u128,
)
    requires
        is_reward_at(txs, threshold, reward1),
        is_reward_at(txs, threshold, reward2),
    ensures
        reward1 == reward2,
{
    let tx1 = choose|tx: TxGasAndReward| txs.contains(tx) && tx.reward == reward1;
    let tx2 = choose|tx: TxGasAndReward| txs.contains(tx) && tx.reward == reward2;
    assert(txs.contains(tx1) && txs.contains(tx2));
}

/// Of the first `n` transactions, one with the lowest reward up to which `threshold` gas was used,
/// if there is one.
proof fn lowest_reaching(txs: Seq<TxGasAndReward>, threshold: nat, n: nat) -> (lowest: Option<
    TxGasAndReward,
>)
    requires
        n <= txs.len(),
    ensures
        lowest matches Some(tx) ==> txs.contains(tx) && gas_up_to(txs, tx.reward) >= threshold,
        forall|i: int|
            0 <= i < n && gas_up_to(txs, (#[trigger] txs[i]).reward) >= threshold ==> (
            lowest matches Some(tx) && tx.reward <= txs[i].reward),
    decreases n,
{
    if n == 0 {
        None
    } else {
        let tx = txs[n - 1];
        assert(txs.contains(tx));
        let before = lowest_reaching(txs, threshold, (n - 1) as nat);
        if gas_up_to(txs, tx.reward) < threshold {
            before
        } else if before is Some && before->0.reward <= tx.reward {
            before
        } else {
            Some(tx)
        }
    }
}

/// Of the first `n` transactions, one with the highest reward.
proof fn highest_paying(txs: Seq<TxGasAndReward>, n: nat) -> (top: TxGasAndReward)
    requires
        0 < n <= txs.len(),
    ensures
        txs.contains(top),
        forall|i: int| 0 <= i < n ==> (#[trigger] txs[i]).reward <= top.reward,
    decreases n,
{
    let tx = txs[n - 1];
    assert(txs.contains(tx));
    if n == 1 {
        tx
    } else {
        let before = highest_paying(txs, (n - 1) as nat);
        if before.reward <= tx.reward {
            tx
        } else {
            before
        }
    }
}

/// A block with transactions has a reward at every gas position.
pub proof fn law_reward_at_exists(txs: Seq<TxGasAndReward>, threshold: nat)
    requires
        txs.len() > 0,
    ensures
        is_reward_at(txs, threshold, reward_at(txs, threshold)),
{
    let reached = lowest_reaching(txs, threshold, txs.len());
    let tx = if reached is Some {
        reached->0
    } else {
        highest_paying(txs, txs.len())
    };
    assert(txs.contains(tx));
    assert forall|other: TxGasAndReward| #[trigger]
        txs.contains(other) && other.reward < tx.reward implies gas_up_to(txs, other.reward)
        < threshold by {
        assert(txs[txs.index_of(other)] == other);
    }
    if reached is None {
        assert forall|other: TxGasAndReward| #[trigger]
            txs.contains(other) implies other.reward <= tx.reward by {
            assert(txs[txs.index_of(other)] == other);
        }
    }
    assert(is_reward_at(txs, threshold, tx.reward));
}

/// A higher gas position never has a lower reward.
pub proof fn law_reward_grows_with_position(
    txs: Seq<TxGasAndReward>,
    threshold1: nat,
    threshold2: nat,
)
    requires
        txs.len() > 0,
        threshold1 <= threshold2,
    ensures
        reward_at(txs, threshold1) <= reward_at(txs, threshold2),
{
    law_reward_at_exists(txs, threshold1);
    law_reward_at_exists(txs, threshold2);
    let reward1 = reward_at(txs, threshold1);
    let reward2 = reward_at(txs, threshold2);
    let tx1 = choose|tx: TxGasAndReward| txs.contains(tx) && tx.reward == reward1;
    let tx2 = choose|tx: TxGasAndReward| txs.contains(tx) && tx.reward == reward2;
    assert(txs.contains(tx1) && txs.contains(tx2));
}

proof fn lemma_highest_grows(thresholds: Seq<u64>, m: nat, n: nat)
    requires
        m <= n,
    ensures
        highest(thresholds, m) <= highest(thresholds, n),
    decreases n,
{
    if m < n {
        lemma_highest_grows(thresholds, m, (n - 1) as nat);
    }
}

/// The rewards of a block never decrease from one percentile to the next, and there is one for
/// each percentile.
pub proof fn law_rewards_ascend(txs: Seq<TxGasAndReward>, thresholds: Seq<u64>)
    ensures
        rewards_at(txs, thresholds).len() == thresholds.len(),
        forall|i: int, j: int|
            0 <= i <= j < thresholds.len() ==> rewards_at(txs, thresholds)[i] <= rewards_at(
                txs,
                thresholds,
            )[j],
{
    assert forall|i: int, j: int| 0 <= i <= j < thresholds.len() implies rewards_at(
        txs,
        thresholds,
    )[i] <= rewards_at(txs, thresholds)[j] by {
        if txs.len() > 0 {
            lemma_highest_grows(thresholds, (i + 1) as nat, (j + 1) as nat);
            law_reward_grows_with_position(
                txs,
                highest(thresholds, (i + 1) as nat),
                highest(thresholds, (j + 1) as nat),
            );
        }
    }
}

/// For percentiles that increase, each reward is the one at the percentile's own gas position.
pub proof fn law_rewards_of_increasing_percentiles(
    txs: Seq<TxGasAndReward>,
    thresholds: Seq<u64>,
    k: int,
)
    requires
        txs.len() > 0,
        forall|i: int, j: int| 0 <= i <= j < thresholds.len() ==> thresholds[i] <= thresholds[j],
        0 <= k < thresholds.len(),
    ensures
        rewards_at(txs, thresholds)[k] == reward_at(txs, thresholds[k] as nat),
{
    lemma_highest_of_increasing(thresholds, (k + 1) as nat);
}

proof fn lemma_highest_of_increasing(thresholds: Seq<u64>, n: nat)
    requires
        forall|i: int, j: int| 0 <= i <= j < thresholds.len() ==> thresholds[i] <= thresholds[j],
        0 < n <= thresholds.len(),
    ensures
        highest(thresholds, n) == thresholds[n - 1],
    decreases n,
{
    if n > 1 {
        lemma_highest_of_increasing(thresholds, (n - 1) as nat);
    } else {
        assert(highest(thresholds, 0) == 0);
    }
}

/// The reward at gas position zero is the lowest one, and the reward at a position past all the
/// gas used is the highest one.
pub proof fn law_lowest_and_highest_reward(
    txs: Seq<TxGasAndReward>,
    beyond: nat,
    tx: TxGasAndReward,
)
    requires
        txs.contains(tx),
        beyond > gas_up_to(txs, u128::MAX),
    ensures
        reward_at(txs, 0) <= tx.reward <= reward_at(txs, beyond),
{
    law_reward_at_exists(txs, 0);
    law_reward_at_exists(txs, beyond);
    lemma_gas_up_to_grows(txs, reward_at(txs, beyond), u128::MAX);
}

proof fn lemma_gas_up_to_grows(txs: Seq<TxGasAndReward>, reward1: u128, reward2: u128)
    requires
        reward1 <= reward2,
    ensures
        gas_up_to(txs, reward1) <= gas_up_to(txs, reward2),
    decreases txs.len(),
{
    if txs.len() > 0 {
        lemma_gas_up_to_grows(txs.drop_last(), reward1, reward2);
    }
}

/// The rewards of a block do not depend on the order of its transactions.
pub proof fn law_rewards_ignore_order(
    txs1: Seq<TxGasAndReward>,
    txs2: Seq<TxGasAndReward>,
    thresholds: Seq<u64>,
)
    requires
        txs1.to_multiset() == txs2.to_multiset(),
    ensures
        rewards_at(txs1, thresholds) == rewards_at(txs2, thresholds),
{
    lemma_order_is_irrelevant(txs1, txs2);
    assert forall|k: int| 0 <= k < thresholds.len() && txs1.len() > 0 implies #[trigger] rewards_at(
        txs1,
        thresholds,
    )[k] == rewards_at(txs2, thresholds)[k] by {
        let position = highest(thresholds, (k + 1) as nat);
        law_reward_at_exists(txs1, position);
        law_reward_at_exists(txs2, position);
        let reward1 = reward_at(txs1, position);
        let tx1 = choose|tx: TxGasAndReward| txs1.contains(tx) && tx.reward == reward1;
        assert(txs2.contains(tx1));
        assert(is_reward_at(txs2, position, reward1));
        law_reward_at_is_unique(txs2, position, reward1, reward_at(txs2, position));
    }
    assert(rewards_at(txs1, thresholds) =~= rewards_at(txs2, thresholds));
}

spec fn sum_if(reward: u128) -> spec_fn(nat, TxGasAndReward) -> nat {
    |sum: nat, tx: TxGasAndReward| sum + gas_if(tx, reward)
}

proof fn lemma_gas_up_to_is_fold(txs: Seq<TxGasAndReward>, reward: u128)
    ensures
        gas_up_to(txs, reward) == txs.fold_left(0nat, sum_if(reward)),
    decreases txs.len(),
{
    if txs.len() > 0 {
        lemma_gas_up_to_is_fold(txs.drop_last(), reward);
    }
}

/// Gas sums and the reward at a gas position do not depend on the order of the transactions.
proof fn lemma_order_is_irrelevant(txs: Seq<TxGasAndReward>, sorted: Seq<TxGasAndReward>)
    requires
        txs.to_multiset() == sorted.to_multiset(),
    ensures
        forall|reward: u128| gas_up_to(txs, reward) == gas_up_to(sorted, reward),
        forall|tx: TxGasAndReward| txs.contains(tx) <==> sorted.contains(tx),
        txs.len() == sorted.len(),
{
    txs.to_multiset_ensures();
    sorted.to_multiset_ensures();
    assert forall|reward: u128| gas_up_to(txs, reward) == gas_up_to(sorted, reward) by {
        lemma_gas_up_to_is_fold(txs, reward);
        lemma_gas_up_to_is_fold(sorted, reward);
        vstd::seq_lib::lemma_fold_left_permutation(txs, sorted, sum_if(reward), 0nat);
    }
    assert forall|tx: TxGasAndReward| txs.contains(tx) <==> sorted.contains(tx) by {
        assert(txs.contains(tx) <==> txs.to_multiset().count(tx) > 0);
        assert(sorted.contains(tx) <==> sorted.to_multiset().count(tx) > 0);
    }
}

/// Total gas of a list of transactions.
spec fn total_gas(txs: Seq<TxGasAndReward>) -> nat {
    gas_up_to(txs, u128::MAX)
}

proof fn lemma_gas_of_prefix(txs: Seq<TxGasAndReward>, n: int, reward: u128)
    requires
        0 <= n <= txs.len(),
    ensures
        (forall|i: int| n <= i < txs.len() ==> (#[trigger] txs[i]).reward > reward) ==> gas_up_to(
            txs,
            reward,
        ) <= total_gas(txs.take(n)),
        (forall|i: int| 0 <= i < n ==> (#[trigger] txs[i]).reward <= reward) ==> gas_up_to(
            txs,
            reward,
        ) >= total_gas(txs.take(n)),
        total_gas(txs.take(n)) <= total_gas(txs),
    decreases txs.len(),
{
    if txs.len() > 0 {
        let rest = txs.drop_last();
        if n < txs.len() {
            lemma_gas_of_prefix(rest, n, reward);
            assert(rest.take(n) =~= txs.take(n));
        } else {
            lemma_gas_of_prefix(rest, n - 1, reward);
            assert(rest.take(n - 1) =~= rest);
            assert(txs.take(n) =~= txs);
        }
        assert(forall|i: int| 0 <= i < rest.len() ==> rest[i] == txs[i]);
    } else {
        assert(txs.take(n) =~= txs);
    }
}

/// Sorts by reward, ascending.
///
/// Calls `slice::sort_by_key`. It is claimed to permute the elements so that their keys ascend.
#[verifier::external_body]
fn sort_by_reward(txs: &mut Vec<TxGasAndReward>)
    ensures
        final(txs)@.to_multiset() == old(txs)@.to_multiset(),
        forall|i: int, j: int|
            0 <= i <= j < final(txs)@.len() ==> final(txs)@[i].reward <= final(txs)@[j].reward,
{
    txs.sort_by_key(|tx| tx.reward);
}

/// In a list sorted by reward, the reward at a gas position is that of the first transaction at
/// which the gas used so far reaches the position, or of the last one.
proof fn lemma_first_to_reach(sorted: Seq<TxGasAndReward>, threshold: nat, index: int)
    requires
        forall|i: int, j: int| 0 <= i <= j < sorted.len() ==> sorted[i].reward <= sorted[j].reward,
        0 <= index < sorted.len(),
        forall|i: int|
            0 <= i < index ==> total_gas(#[trigger] sorted.take(i + 1)) < threshold,
        total_gas(sorted.take(index + 1)) >= threshold || index == sorted.len() - 1,
    ensures
        is_reward_at(sorted, threshold, sorted[index].reward),
{
    let reward = sorted[index].reward;
    assert(sorted.contains(sorted[index]));
    assert forall|tx: TxGasAndReward| #[trigger]
        sorted.contains(tx) && tx.reward < reward implies gas_up_to(sorted, tx.reward)
        < threshold by {
        let i = sorted.index_of(tx);
        assert(0 <= i < index);
        lemma_gas_of_prefix(sorted, index, tx.reward);
        assert(sorted.take((index - 1) + 1) == sorted.take(index));
    }
    lemma_gas_of_prefix(sorted, index + 1, reward);
}

/// Pairs the transactions of a block with their receipts, as [`gas_and_rewards`] says.
fn pair_with_receipts(
    base_fee_per_gas: u64,
    transactions: &[TxFees],
    receipts: &[Receipt],
) -> (txs: Vec<TxGasAndReward>)
    requires
        cumulative(transactions@, receipts@),
    ensures
        txs@ == gas_and_rewards(base_fee_per_gas, transactions@, receipts@),
        total_gas(txs@) <= u64::MAX,
{
    let mut txs: Vec<TxGasAndReward> = Vec::new();
    let mut previous_gas: u64 = 0;
    let mut i: usize = 0;
    let ghost all = gas_and_rewards(base_fee_per_gas, transactions@, receipts@);
    while i < transactions.len() && i < receipts.len()
        invariant
            0 <= i <= paired(transactions@, receipts@),
            cumulative(transactions@, receipts@),
            previous_gas == gas_before(receipts@, i as int),
            all == gas_and_rewards(base_fee_per_gas, transactions@, receipts@),
            txs@ == all.take(i as int),
            total_gas(txs@) == previous_gas,
        decreases transactions.len() - i,
    {
        let receipt = receipts[i];
        assert(i > 0 ==> receipts@[i - 1].cumulative_gas_used
            <= receipts@[i as int].cumulative_gas_used);
        let gas_used: u64 = receipt.cumulative_gas_used - previous_gas;
        previous_gas = receipt.cumulative_gas_used;
        let reward: u128 = match transactions[i].effective_tip_per_gas(base_fee_per_gas) {
            Some(tip) => tip,
            None => 0,
        };
        let ghost before = txs@;
        txs.push(TxGasAndReward { gas_used, reward });
        i = i + 1;
        proof {
            assert(txs@.drop_last() =~= before);
            assert(txs@ =~= all.take(i as int));
        }
    }
    assert(txs@ =~= all);
    txs
}

/// Calculates the reward percentiles of a block.
///
/// `thresholds` holds, for each percentile, the gas position that it stands for: that share of
/// the gas used in the block. The result holds the reward at each of these positions, when the
/// transactions are sorted by the reward that they pay.
pub fn calculate_reward_percentiles_for_block(
    thresholds: &[u64],
    base_fee_per_gas: u64,
    transactions: &[TxFees],
    receipts: &[Receipt],
) -> (rewards: Result<Vec<u128>, EthApiError>)
    requires
        cumulative(transactions@, receipts@),
    ensures
        rewards is Ok,
        rewards->Ok_0@ == rewards_at(
            gas_and_rewards(base_fee_per_gas, transactions@, receipts@),
            thresholds@,
        ),
{
    let mut txs = pair_with_receipts(base_fee_per_gas, transactions, receipts);
    let ghost paired_txs = txs@;
    sort_by_reward(&mut txs);
    proof {
        lemma_order_is_irrelevant(paired_txs, txs@);
    }

    // The index is shared by all thresholds: it never moves back.
    let mut tx_index: usize = 0;
    let mut cumulative_gas_used: u64 = if txs.len() == 0 {
        0
    } else {
        txs[0].gas_used
    };
    let mut rewards: Vec<u128> = Vec::with_capacity(thresholds.len());
    let mut k: usize = 0;
    proof {
        if txs@.len() > 0 {
            let first = txs@.take(tx_index + 1);
            assert(first.drop_last() =~= Seq::<TxGasAndReward>::empty());
            assert(gas_up_to(first.drop_last(), u128::MAX) == 0);
        }
    }
    while k < thresholds.len()
        invariant
            0 <= k <= thresholds.len(),
            paired_txs == gas_and_rewards(base_fee_per_gas, transactions@, receipts@),
            paired_txs.len() == txs@.len(),
            forall|reward: u128| gas_up_to(paired_txs, reward) == gas_up_to(txs@, reward),
            forall|tx: TxGasAndReward| paired_txs.contains(tx) <==> txs@.contains(tx),
            total_gas(txs@) <= u64::MAX,
            forall|i: int, j: int| 0 <= i <= j < txs@.len() ==> txs@[i].reward <= txs@[j].reward,
            rewards@ == rewards_at(paired_txs, thresholds@).take(k as int),
            txs@.len() > 0 ==> {
                &&& tx_index < txs@.len()
                &&& cumulative_gas_used == total_gas(txs@.take(tx_index + 1))
                &&& forall|i: int|
                    0 <= i < tx_index ==> total_gas(#[trigger] txs@.take(i + 1)) < highest(
                        thresholds@,
                        k as nat,
                    )
                &&& cumulative_gas_used >= highest(thresholds@, k as nat) || tx_index == txs@.len()
                    - 1
            },
        decreases thresholds.len() - k,
    {
        // Empty blocks return a zero row.
        if txs.len() == 0 {
            rewards.push(0);
        } else {
            let threshold: u64 = thresholds[k];
            let ghost position = highest(thresholds@, (k + 1) as nat);
            while cumulative_gas_used < threshold && tx_index < txs.len() - 1
                invariant
                    total_gas(txs@) <= u64::MAX,
                    threshold <= position,
                    tx_index < txs@.len(),
                    cumulative_gas_used == total_gas(txs@.take(tx_index + 1)),
                    forall|i: int|
                        0 <= i < tx_index ==> total_gas(#[trigger] txs@.take(i + 1)) < position,
                    cumulative_gas_used >= highest(thresholds@, k as nat) || tx_index
                        == txs@.len() - 1,
                decreases txs.len() - tx_index,
            {
                proof {
                    let next = txs@.take(tx_index + 2);
                    assert(next.drop_last() =~= txs@.take(tx_index + 1));
                    lemma_gas_of_prefix(txs@, tx_index + 2, u128::MAX);
                }
                tx_index = tx_index + 1;
                cumulative_gas_used = cumulative_gas_used + txs[tx_index].gas_used;
            }
            proof {
                lemma_first_to_reach(txs@, position, tx_index as int);
                let reward = txs@[tx_index as int].reward;
                assert(txs@.contains(txs@[tx_index as int]));
                assert(paired_txs.contains(txs@[tx_index as int]));
                assert(is_reward_at(paired_txs, position, reward));
                assert(is_reward_at(paired_txs, position, reward_at(paired_txs, position)));
                law_reward_at_is_unique(
                    paired_txs,
                    position,
                    reward,
                    reward_at(paired_txs, position),
                );
            }
            rewards.push(txs[tx_index].reward);
        }
        k = k + 1;
        assert(rewards@ =~= rewards_at(paired_txs, thresholds@).take(k as int));
    }
    assert(rewards@ =~= rewards_at(paired_txs, thresholds@));
    Ok(rewards)
}

} // verus!
