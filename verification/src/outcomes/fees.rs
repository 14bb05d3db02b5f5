//! The tips that transactions pay, and the rewards of a block.

use crate::block::{Receipt, TxFees};
use crate::rewards::{
    calculate_reward_percentiles_for_block, cumulative, gas_and_rewards, gas_up_to, highest,
    is_reward_at, law_reward_at_exists, paired, reward_at, rewards_at, EthApiError, TxGasAndReward,
};
use vstd::prelude::*;

verus! {

/// A legacy transaction pays what its gas price leaves above the base fee, and nothing can be said
/// exactly where the gas price is below the base fee.
pub proof fn law_tip_of_legacy_transaction(
    tx: &TxFees,
    gas_price: u128,
    base_fee: u64,
    tip: Option<u128>,
)
    requires
        *tx == (TxFees::Legacy { gas_price }),
        call_ensures(TxFees::effective_tip_per_gas, (tx, base_fee), tip),
    ensures
        tip is Some <==> base_fee <= gas_price,
        tip matches Some(tip) ==> tip + base_fee == gas_price,
{
}

/// A transaction with a priority fee pays no more than that, and together with the base fee no
/// more than its fee cap; one of the two it pays in full. It pays exactly if its fee cap covers
/// the base fee.
pub proof fn law_tip_of_dynamic_fee_transaction(
    tx: &TxFees,
    max_fee_per_gas: u128,
    max_priority_fee_per_gas: u128,
    base_fee: u64,
    tip: Option<u128>,
)
    requires
        *tx == (TxFees::Dynamic { max_fee_per_gas, max_priority_fee_per_gas }),
        call_ensures(TxFees::effective_tip_per_gas, (tx, base_fee), tip),
    ensures
        tip is Some <==> base_fee <= max_fee_per_gas,
        tip matches Some(tip) ==> {
            &&& tip <= max_priority_fee_per_gas
            &&& tip + base_fee <= max_fee_per_gas
            &&& tip == max_priority_fee_per_gas || tip + base_fee == max_fee_per_gas
        },
{
}

/// A quoted tip is paid as it is.
pub proof fn law_tip_that_is_quoted(
    tx: &TxFees,
    quoted: Option<u128>,
    base_fee: u64,
    tip: Option<u128>,
)
    requires
        *tx == (TxFees::Quoted { tip: quoted }),
        call_ensures(TxFees::effective_tip_per_gas, (tx, base_fee), tip),
    ensures
        tip == quoted,
{
}

/// Whether `tip` is what a transaction pays per gas on top of the base fee; one that cannot pay
/// the base fee pays no tip.
pub open spec fn pays(tx: TxFees, base_fee: u64, tip: u128) -> bool {
    match tx {
        TxFees::Legacy { gas_price } => {
            ||| gas_price < base_fee && tip == 0
            ||| tip + base_fee == gas_price
        },
        TxFees::Dynamic { max_fee_per_gas, max_priority_fee_per_gas } => {
            ||| max_fee_per_gas < base_fee && tip == 0
            ||| {
                &&& tip <= max_priority_fee_per_gas
                &&& tip + base_fee <= max_fee_per_gas
                &&& tip == max_priority_fee_per_gas || tip + base_fee == max_fee_per_gas
            }
        },
        TxFees::Quoted { tip: Some(quoted) } => tip == quoted,
        TxFees::Quoted { tip: None } => tip == 0,
    }
}

/// Whether `gas` and `tips` are what the transactions of a block used and paid: the gas of the
/// transactions up to one of them adds up to the cumulative gas of its receipt. Transactions and
/// receipts without a counterpart do not count.
pub open spec fn used_and_paid(
    gas: Seq<u64>,
    tips: Seq<u128>,
    base_fee: u64,
    transactions: Seq<TxFees>,
    receipts: Seq<Receipt>,
) -> bool {
    &&& gas.len() == tips.len()
    &&& gas.len() <= transactions.len()
    &&& gas.len() <= receipts.len()
    &&& gas.len() == transactions.len() || gas.len() == receipts.len()
    &&& forall|i: int|
        #![trigger tips[i]]
        0 <= i < tips.len() ==> pays(transactions[i], base_fee, tips[i])
    &&& forall|n: int|
        #![trigger gas.take(n)]
        0 < n <= gas.len() ==> sum(gas.take(n)) == receipts[n - 1].cumulative_gas_used
}

/// The sum of amounts of gas.
pub open spec fn sum(gas: Seq<u64>) -> nat
    decreases gas.len(),
{
    if gas.len() == 0 {
        0
    } else {
        sum(gas.drop_last()) + gas.last() as nat
    }
}

/// The gas of the transactions that pay a tip of at most `tip`.
pub open spec fn gas_at_most(gas: Seq<u64>, tips: Seq<u128>, tip: u128) -> nat
    decreases gas.len(),
{
    if gas.len() == 0 {
        0
    } else if tips[gas.len() - 1] <= tip {
        gas_at_most(gas.drop_last(), tips, tip) + gas.last() as nat
    } else {
        gas_at_most(gas.drop_last(), tips, tip)
    }
}

/// Whether `rewards` are the rewards at gas positions, in a block whose transactions used `gas`
/// and paid `tips`. Each is a tip that some transaction paid. The transactions that paid less did
/// not use the gas up to the position, or up to one before it; those that paid as much or less
/// did, unless nobody paid more. In a block without transactions all rewards are zero.
pub open spec fn are_rewards(
    rewards: Seq<u128>,
    thresholds: Seq<u64>,
    gas: Seq<u64>,
    tips: Seq<u128>,
) -> bool {
    &&& rewards.len() == thresholds.len()
    &&& forall|k: int|
        #![trigger rewards[k]]
        0 <= k < rewards.len() ==> if tips.len() == 0 {
            rewards[k] == 0
        } else {
            &&& tips.contains(rewards[k])
            &&& forall|i: int|
                #![trigger tips[i]]
                0 <= i < tips.len() && tips[i] < rewards[k] ==> exists|j: int|
                    0 <= j <= k && gas_at_most(gas, tips, tips[i]) < #[trigger] thresholds[j]
            &&& {
                ||| forall|j: int|
                    0 <= j <= k ==> #[trigger] thresholds[j] <= gas_at_most(gas, tips, rewards[k])
                ||| forall|i: int| 0 <= i < tips.len() ==> #[trigger] tips[i] <= rewards[k]
            }
        }
}

proof fn lemma_sum_of_next(gas: Seq<u64>, n: int)
    requires
        0 <= n < gas.len(),
    ensures
        sum(gas.take(n + 1)) == sum(gas.take(n)) + gas[n],
{
    assert(gas.take(n + 1).drop_last() =~= gas.take(n));
}

/// The gas and the tips of a block are those of its paired transactions.
proof fn lemma_gas_and_rewards(
    gas: Seq<u64>,
    tips: Seq<u128>,
    base_fee: u64,
    transactions: Seq<TxFees>,
    receipts: Seq<Receipt>,
)
    requires
        used_and_paid(gas, tips, base_fee, transactions, receipts),
    ensures
        gas_and_rewards(base_fee, transactions, receipts).len() == gas.len(),
        forall|i: int|
            0 <= i < gas.len() ==> #[trigger] gas_and_rewards(base_fee, transactions, receipts)[i]
                == (TxGasAndReward { gas_used: gas[i], reward: tips[i] }),
{
    let txs = gas_and_rewards(base_fee, transactions, receipts);
    assert forall|i: int| 0 <= i < gas.len() implies #[trigger] txs[i] == (TxGasAndReward {
        gas_used: gas[i],
        reward: tips[i],
    }) by {
        assert(pays(transactions[i], base_fee, tips[i]));
        lemma_sum_of_next(gas, i);
        assert(sum(gas.take(i + 1)) == receipts[i].cumulative_gas_used);
        if i == 0 {
            assert(gas.take(0).len() == 0);
        } else {
            assert(sum(gas.take(i)) == receipts[i - 1].cumulative_gas_used);
        }
    }
}

proof fn lemma_gas_at_most(txs: Seq<TxGasAndReward>, gas: Seq<u64>, tips: Seq<u128>, tip: u128)
    requires
        txs.len() == gas.len(),
        gas.len() <= tips.len(),
        forall|i: int|
            0 <= i < gas.len() ==> #[trigger] txs[i] == (TxGasAndReward {
                gas_used: gas[i],
                reward: tips[i],
            }),
    ensures
        gas_up_to(txs, tip) == gas_at_most(gas, tips, tip),
    decreases gas.len(),
{
    if gas.len() > 0 {
        assert(txs[txs.len() - 1] == txs.last());
        lemma_gas_at_most(txs.drop_last(), gas.drop_last(), tips, tip);
    }
}

proof fn lemma_highest(thresholds: Seq<u64>, n: nat)
    requires
        0 < n <= thresholds.len(),
    ensures
        forall|j: int| 0 <= j < n ==> #[trigger] thresholds[j] <= highest(thresholds, n),
        exists|j: int| 0 <= j < n && #[trigger] thresholds[j] == highest(thresholds, n),
    decreases n,
{
    if n > 1 {
        lemma_highest(thresholds, (n - 1) as nat);
        let before = highest(thresholds, (n - 1) as nat);
        let j = choose|j: int| 0 <= j < n - 1 && #[trigger] thresholds[j] == before;
        if thresholds[n - 1] > before {
            assert(thresholds[n - 1] == highest(thresholds, n));
        } else {
            assert(thresholds[j] == highest(thresholds, n));
        }
    } else {
        assert(highest(thresholds, 0) == 0);
        assert(thresholds[0] == highest(thresholds, n));
    }
}

pub(crate) proof fn lemma_are_rewards(
    thresholds: Seq<u64>,
    gas: Seq<u64>,
    tips: Seq<u128>,
    base_fee: u64,
    transactions: Seq<TxFees>,
    receipts: Seq<Receipt>,
)
    requires
        used_and_paid(gas, tips, base_fee, transactions, receipts),
    ensures
        are_rewards(
            rewards_at(gas_and_rewards(base_fee, transactions, receipts), thresholds),
            thresholds,
            gas,
            tips,
        ),
{
    let txs = gas_and_rewards(base_fee, transactions, receipts);
    let rewards = rewards_at(txs, thresholds);
    lemma_gas_and_rewards(gas, tips, base_fee, transactions, receipts);
    assert forall|k: int| #![trigger rewards[k]] 0 <= k < rewards.len() && tips.len() > 0 implies {
        &&& tips.contains(rewards[k])
        &&& forall|i: int|
            #![trigger tips[i]]
            0 <= i < tips.len() && tips[i] < rewards[k] ==> exists|j: int|
                0 <= j <= k && gas_at_most(gas, tips, tips[i]) < #[trigger] thresholds[j]
        &&& {
            ||| forall|j: int|
                0 <= j <= k ==> #[trigger] thresholds[j] <= gas_at_most(gas, tips, rewards[k])
            ||| forall|i: int| 0 <= i < tips.len() ==> #[trigger] tips[i] <= rewards[k]
        }
    } by {
        let position = highest(thresholds, (k + 1) as nat);
        lemma_highest(thresholds, (k + 1) as nat);
        law_reward_at_exists(txs, position);
        let tx = choose|tx: TxGasAndReward| txs.contains(tx) && tx.reward == rewards[k];
        let at = txs.index_of(tx);
        assert(txs[at] == tx && tips[at] == rewards[k]);
        lemma_gas_at_most(txs, gas, tips, rewards[k]);
        assert forall|i: int|
            #![trigger tips[i]]
            0 <= i < tips.len() && tips[i] < rewards[k] implies exists|j: int|
            0 <= j <= k && gas_at_most(gas, tips, tips[i]) < #[trigger] thresholds[j] by {
            assert(txs.contains(txs[i]));
            lemma_gas_at_most(txs, gas, tips, tips[i]);
            let j = choose|j: int| 0 <= j < k + 1 && #[trigger] thresholds[j] == position;
            assert(gas_at_most(gas, tips, tips[i]) < thresholds[j]);
        }
        if gas_up_to(txs, rewards[k]) < position {
            assert forall|i: int| 0 <= i < tips.len() implies #[trigger] tips[i] <= rewards[k] by {
                assert(txs.contains(txs[i]));
            }
        }
    }
}

/// The rewards of a block are the tips that its transactions paid, weighted by the gas that they
/// used, at the gas positions asked for.
pub proof fn law_rewards_are_tips_weighted_by_gas(
    thresholds: &[u64],
    base_fee: u64,
    transactions: &[TxFees],
    receipts: &[Receipt],
    gas: Seq<u64>,
    tips: Seq<u128>,
    rewards: Result<Vec<u128>, EthApiError>,
)
    requires
        used_and_paid(gas, tips, base_fee, transactions@, receipts@),
        call_ensures(
            calculate_reward_percentiles_for_block,
            (thresholds, base_fee, transactions, receipts),
            rewards,
        ),
    ensures
        rewards matches Ok(rewards) && are_rewards(rewards@, thresholds@, gas, tips),
{
    lemma_are_rewards(thresholds@, gas, tips, base_fee, transactions@, receipts@);
}

/// Where cumulative gas never decreases, the rewards of a block can be calculated, whatever the
/// positions asked for. There are then amounts of gas and tips that its transactions used and
/// paid, and no others.
pub proof fn law_rewards_can_be_calculated(
    thresholds: &[u64],
    base_fee: u64,
    transactions: &[TxFees],
    receipts: &[Receipt],
)
    requires
        forall|i: int, j: int|
            #![trigger receipts@[i], receipts@[j]]
            0 <= i <= j < transactions@.len() && j < receipts@.len()
                ==> receipts@[i].cumulative_gas_used <= receipts@[j].cumulative_gas_used,
    ensures
        call_requires(
            calculate_reward_percentiles_for_block,
            (thresholds, base_fee, transactions, receipts),
        ),
        exists|gas: Seq<u64>, tips: Seq<u128>|
            used_and_paid(gas, tips, base_fee, transactions@, receipts@),
        forall|gas1: Seq<u64>, tips1: Seq<u128>, gas2: Seq<u64>, tips2: Seq<u128>|
            #![trigger used_and_paid(gas1, tips1, base_fee, transactions@, receipts@),
                used_and_paid(gas2, tips2, base_fee, transactions@, receipts@)]
            used_and_paid(gas1, tips1, base_fee, transactions@, receipts@) && used_and_paid(
                gas2,
                tips2,
                base_fee,
                transactions@,
                receipts@,
            ) ==> gas1 == gas2 && tips1 == tips2,
{
    assert(cumulative(transactions@, receipts@));
    let txs = gas_and_rewards(base_fee, transactions@, receipts@);
    let gas = txs.map_values(|tx: TxGasAndReward| tx.gas_used);
    let tips = txs.map_values(|tx: TxGasAndReward| tx.reward);
    assert forall|n: int| #![trigger gas.take(n)] 0 < n <= gas.len() implies sum(gas.take(n))
        == receipts@[n - 1].cumulative_gas_used by {
        lemma_gas_adds_up(base_fee, transactions@, receipts@, n);
    }
    assert(used_and_paid(gas, tips, base_fee, transactions@, receipts@));
    assert forall|gas1: Seq<u64>, tips1: Seq<u128>, gas2: Seq<u64>, tips2: Seq<u128>|
        #![trigger used_and_paid(gas1, tips1, base_fee, transactions@, receipts@),
            used_and_paid(gas2, tips2, base_fee, transactions@, receipts@)]
        used_and_paid(gas1, tips1, base_fee, transactions@, receipts@) && used_and_paid(
            gas2,
            tips2,
            base_fee,
            transactions@,
            receipts@,
        ) implies gas1 == gas2 && tips1 == tips2 by {
        lemma_gas_and_rewards(gas1, tips1, base_fee, transactions@, receipts@);
        lemma_gas_and_rewards(gas2, tips2, base_fee, transactions@, receipts@);
        assert forall|i: int| 0 <= i < gas1.len() implies gas1[i] == gas2[i] && tips1[i]
            == tips2[i] by {
            assert(txs[i] == (TxGasAndReward { gas_used: gas1[i], reward: tips1[i] }));
        }
        assert(gas1 =~= gas2);
        assert(tips1 =~= tips2);
    }
}

proof fn lemma_gas_adds_up(
    base_fee: u64,
    transactions: Seq<TxFees>,
    receipts: Seq<Receipt>,
    n: int,
)
    requires
        cumulative(transactions, receipts),
        0 < n <= paired(transactions, receipts),
    ensures
        sum(
            gas_and_rewards(base_fee, transactions, receipts).map_values(
                |tx: TxGasAndReward| tx.gas_used,
            ).take(n),
        ) == receipts[n - 1].cumulative_gas_used,
    decreases n,
{
    let gas = gas_and_rewards(base_fee, transactions, receipts).map_values(
        |tx: TxGasAndReward| tx.gas_used,
    );
    lemma_sum_of_next(gas, n - 1);
    if n == 1 {
        assert(gas.take(0).len() == 0);
    } else {
        lemma_gas_adds_up(base_fee, transactions, receipts, n - 1);
        assert(receipts[n - 2].cumulative_gas_used <= receipts[n - 1].cumulative_gas_used);
    }
}

/// The gas of the paired transactions adds up: that of the first `n` of them to the cumulative
/// gas of the `n`-th receipt.
pub proof fn law_gas_adds_up_to_cumulative_gas(
    base_fee: u64,
    transactions: Seq<TxFees>,
    receipts: Seq<Receipt>,
    n: int,
)
    requires
        forall|i: int, j: int|
            #![trigger receipts[i], receipts[j]]
            0 <= i <= j < transactions.len() && j < receipts.len()
                ==> receipts[i].cumulative_gas_used <= receipts[j].cumulative_gas_used,
        0 < n <= transactions.len(),
        n <= receipts.len(),
    ensures
        n <= gas_and_rewards(base_fee, transactions, receipts).len(),
        sum(
            gas_and_rewards(base_fee, transactions, receipts).map_values(
                |tx: TxGasAndReward| tx.gas_used,
            ).take(n),
        ) == receipts[n - 1].cumulative_gas_used,
{
    assert(cumulative(transactions, receipts));
    lemma_gas_adds_up(base_fee, transactions, receipts, n);
}

} // verus!
