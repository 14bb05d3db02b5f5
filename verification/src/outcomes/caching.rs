//! The cache: what goes in, what stays, and what is served.

use crate::cache::{
    law_insert_keeps_invariant, trimmed, with_blocks, BlockWithReceipts, CacheView,
    FeeHistoryCache, FeeHistoryCacheConfig,
};
use crate::entry::{EntryView, FeeHistoryEntry};
use crate::laws::{
    last_with, law_history_is_exact, law_last_block_counts, law_missing_is_exact, lemma_finite,
    lemma_last_with,
};
use crate::outcomes::entries::{lemma_entry_tells, tells_of, within_limits};
use crate::outcomes::fees::{are_rewards, lemma_are_rewards, used_and_paid};
use crate::window::{
    kept, law_earliest_and_latest_exist, law_kept_is_bounded, law_only_surplus_is_dropped,
};
use std::collections::VecDeque;
use vstd::prelude::*;

verus! {

/// By default the cache holds a hundred blocks more than fee history requests reach back, and
/// percentiles come in steps of a quarter.
pub proof fn law_default_settings(config: FeeHistoryCacheConfig)
    requires
        call_ensures(FeeHistoryCacheConfig::default, (), config),
    ensures
        config.max_blocks == 1024 + 100,
        config.resolution == 4,
{
}

/// A new cache is empty, and its invariant holds.
pub proof fn law_new_cache<H>(config: FeeHistoryCacheConfig, cache: FeeHistoryCache<H>)
    requires
        call_ensures(FeeHistoryCache::<H>::new, (config,), cache),
    ensures
        cache@.config == config,
        cache@.entries == Map::<u64, EntryView<H>>::empty(),
        cache@.lower_bound == 0,
        cache@.upper_bound == 0,
        cache@.wf(),
{
}

/// The settings of a cache and its bounds are read as they are.
pub proof fn law_settings_and_bounds<H>(
    cache: &FeeHistoryCache<H>,
    config: &FeeHistoryCacheConfig,
    resolution: u64,
    lower_bound: u64,
    upper_bound: u64,
)
    requires
        call_ensures(FeeHistoryCache::<H>::config, (cache,), config),
        call_ensures(FeeHistoryCache::<H>::resolution, (cache,), resolution),
        call_ensures(FeeHistoryCache::<H>::lower_bound, (cache,), lower_bound),
        call_ensures(FeeHistoryCache::<H>::upper_bound, (cache,), upper_bound),
    ensures
        *config == cache@.config,
        resolution == config.resolution,
        lower_bound == cache@.lower_bound,
        upper_bound == cache@.upper_bound,
{
}

/// Whether the bounds of a cache are the lowest and the highest of its numbers, both zero where it
/// is empty.
pub open spec fn bounds_are_exact<H>(cache: CacheView<H>) -> bool {
    &&& forall|n: u64| #[trigger]
        cache.entries.contains_key(n) ==> cache.lower_bound <= n <= cache.upper_bound
    &&& {
        ||| cache.entries.contains_key(cache.lower_bound) && cache.entries.contains_key(
            cache.upper_bound,
        )
        ||| cache.lower_bound == 0 && cache.upper_bound == 0 && forall|n: u64|
            !#[trigger] cache.entries.contains_key(n)
    }
}

/// A cache keeps to its size: it holds no more blocks than allowed, and none further below the
/// highest. Its bounds are those of its numbers, and each entry is that of the block with its
/// number, with a reward for each of a hundred percentiles times the resolution.
pub proof fn law_cache_keeps_to_its_size<H>(cache: CacheView<H>)
    requires
        cache.wf(),
    ensures
        bounds_are_exact(cache),
        cache.entries.dom().finite(),
        cache.entries.len() <= cache.config.max_blocks,
        forall|n: u64, m: u64|
            #![trigger cache.entries.contains_key(n), cache.entries.contains_key(m)]
            cache.entries.contains_key(n) && cache.entries.contains_key(m) ==> m <= n
                + cache.config.max_blocks,
        forall|n: u64| #[trigger]
            cache.entries.contains_key(n) ==> {
                &&& cache.entries[n].header.number == n
                &&& cache.entries[n].rewards.len() == 100 * cache.config.resolution
            },
{
    lemma_bounds(cache);
}

proof fn lemma_bounds<H>(cache: CacheView<H>)
    requires
        cache.wf(),
    ensures
        bounds_are_exact(cache),
{
    if cache.entries.dom().len() > 0 {
        law_earliest_and_latest_exist(cache.entries.dom());
        assert(cache.entries.dom().contains(cache.lower_bound));
        assert(cache.entries.dom().contains(cache.upper_bound));
        assert forall|n: u64| #[trigger] cache.entries.contains_key(n) implies cache.lower_bound
            <= n <= cache.upper_bound by {
            assert(cache.entries.dom().contains(n));
        }
    } else {
        assert(cache.entries.dom() =~= Set::empty());
        assert forall|n: u64| !#[trigger] cache.entries.contains_key(n) by {
            assert(!cache.entries.dom().contains(n));
        }
    }
}

/// There are a hundred percentiles times the resolution, and each stands for its own index.
pub proof fn law_percentiles_are_their_indices<H>(
    cache: &FeeHistoryCache<H>,
    percentiles: Vec<u64>,
)
    requires
        call_ensures(FeeHistoryCache::<H>::predefined_percentiles, (cache,), percentiles),
        100 * cache@.config.resolution <= u64::MAX,
    ensures
        call_requires(FeeHistoryCache::<H>::predefined_percentiles, (cache,)),
        percentiles@.len() == 100 * cache@.config.resolution,
        forall|p: int| 0 <= p < percentiles@.len() ==> #[trigger] percentiles@[p] == p,
{
}

/// A history is served only for a range within the bounds. It holds exactly the entries of the
/// blocks in the range, by ascending number, and there is at least one. None is served exactly if
/// the range is empty, reaches out of the bounds, or no block of it is cached.
pub proof fn law_history_is_that_of_the_range<H>(
    cache: &FeeHistoryCache<H>,
    start_block: u64,
    end_block: u64,
    history: Option<Vec<FeeHistoryEntry<H>>>,
)
    requires
        cache@.wf(),
        call_ensures(FeeHistoryCache::<H>::get_history, (cache, start_block, end_block), history),
    ensures
        match history {
            Some(found) => {
                &&& cache@.lower_bound <= start_block <= end_block <= cache@.upper_bound
                &&& found@.len() > 0
                &&& forall|i: int, j: int|
                    0 <= i < j < found@.len() ==> found@[i].header.number < found@[j].header.number
                &&& forall|i: int|
                    0 <= i < found@.len() ==> {
                        let number = (#[trigger] found@[i]).header.number;
                        &&& start_block <= number <= end_block
                        &&& cache@.entries.contains_key(number)
                        &&& cache@.entries[number] == found@[i]@
                    }
                &&& forall|n: u64| #[trigger]
                    cache@.entries.contains_key(n) && start_block <= n <= end_block ==> exists|
                        i: int,
                    |
                        0 <= i < found@.len() && (#[trigger] found@[i]).header.number == n
            },
            None => {
                ||| end_block < start_block
                ||| start_block < cache@.lower_bound
                ||| cache@.upper_bound < end_block
                ||| forall|n: u64| #[trigger]
                    cache@.entries.contains_key(n) ==> !(start_block <= n <= end_block)
            },
        },
{
    law_history_is_exact(cache@, start_block, end_block);
    if let Some(found) = history {
        let views = found@.map_values(|entry: FeeHistoryEntry<H>| entry@);
        assert(forall|i: int| 0 <= i < found@.len() ==> views[i] == (#[trigger] found@[i])@);
        assert forall|i: int, j: int| 0 <= i < j < found@.len() implies found@[i].header.number
            < found@[j].header.number by {
            assert(views[i].header.number < views[j].header.number);
        }
        assert forall|i: int| 0 <= i < found@.len() implies {
            let number = (#[trigger] found@[i]).header.number;
            &&& start_block <= number <= end_block
            &&& cache@.entries.contains_key(number)
            &&& cache@.entries[number] == found@[i]@
        } by {
            assert(views[i] == found@[i]@);
        }
        assert forall|n: u64| #[trigger]
            cache@.entries.contains_key(n) && start_block <= n <= end_block implies exists|i: int|
            0 <= i < found@.len() && (#[trigger] found@[i]).header.number == n by {
            let i = views.index_of(cache@.entries[n]);
            assert(views.contains(cache@.entries[n]));
            assert(views[i] == found@[i]@);
        }
    }
}

/// The missing blocks are those within the bounds, both included, that are not cached, each once,
/// highest first.
pub proof fn law_missing_blocks_are_the_gaps<H>(cache: &FeeHistoryCache<H>, missing: VecDeque<u64>)
    requires
        cache@.wf(),
        call_ensures(FeeHistoryCache::<H>::missing_consecutive_blocks, (cache,), missing),
    ensures
        forall|n: u64| #[trigger]
            missing@.contains(n) <==> cache@.lower_bound <= n <= cache@.upper_bound
                && !cache@.entries.contains_key(n),
        forall|i: int, j: int| 0 <= i < j < missing@.len() ==> missing@[i] > missing@[j],
{
    law_missing_is_exact(cache@);
}

/// Whether a block can go into a cache: there is a threshold for each of a hundred percentiles
/// times the resolution, cumulative gas never decreases over the receipts of its transactions, and
/// its blob gas is within the limits.
pub open spec fn can_go_in<H>(new: BlockWithReceipts<H>, config: FeeHistoryCacheConfig) -> bool {
    &&& new.reward_thresholds@.len() == 100 * config.resolution
    &&& forall|i: int, j: int|
        #![trigger new.receipts@[i], new.receipts@[j]]
        0 <= i <= j < new.receipts@.len() && j < new.block.transactions@.len()
            ==> new.receipts@[i].cumulative_gas_used <= new.receipts@[j].cumulative_gas_used
    &&& within_limits(new.block.header, new.blob_params)
}

/// The test of a block succeeds exactly if it can go into the cache.
pub proof fn law_blocks_are_tested<H>(
    new: &BlockWithReceipts<H>,
    config: &FeeHistoryCacheConfig,
    valid: bool,
)
    requires
        call_ensures(BlockWithReceipts::<H>::check, (new, config), valid),
    ensures
        valid <==> can_go_in(*new, *config),
{
    lemma_can_go_in(*new, *config);
}

pub(crate) proof fn lemma_can_go_in<H>(new: BlockWithReceipts<H>, config: FeeHistoryCacheConfig)
    ensures
        new.is_valid(config) <==> can_go_in(new, config),
{
    let (transactions, receipts) = (new.block.transactions@, new.receipts@);
    if can_go_in(new, config) {
        assert(crate::rewards::cumulative(transactions, receipts));
    }
    if new.is_valid(config) {
        assert forall|i: int, j: int|
            #![trigger new.receipts@[i], new.receipts@[j]]
            0 <= i <= j < new.receipts@.len() && j
                < new.block.transactions@.len() implies new.receipts@[i].cumulative_gas_used
            <= new.receipts@[j].cumulative_gas_used by {
            assert(receipts[i].cumulative_gas_used <= receipts[j].cumulative_gas_used);
        }
    }
}

/// Whether an entry is that of a block: it says of the block what it is to say, and its rewards
/// are those at the block's thresholds. Without a base fee the base fee is zero.
pub open spec fn is_entry_of<H>(entry: EntryView<H>, new: BlockWithReceipts<H>) -> bool {
    &&& tells_of(entry, new.block.header, new.block.body_blob_gas_used, new.blob_params)
    &&& forall|gas: Seq<u64>, tips: Seq<u128>, base_fee: u64| #[trigger]
        used_and_paid(gas, tips, base_fee, new.block.transactions@, new.receipts@) && (
        new.block.header.base_fee_per_gas == Some(base_fee)
            || new.block.header.base_fee_per_gas is None && base_fee == 0) ==> are_rewards(
            entry.rewards,
            new.reward_thresholds@,
            gas,
            tips,
        )
}

proof fn lemma_is_entry_of<H>(new: BlockWithReceipts<H>, config: FeeHistoryCacheConfig)
    requires
        can_go_in(new, config),
    ensures
        is_entry_of(new.entry(), new),
{
    lemma_entry_tells(
        new.block.header,
        new.block.body_blob_gas_used,
        new.blob_params,
        new.entry().rewards,
    );
    assert forall|gas: Seq<u64>, tips: Seq<u128>, base_fee: u64| #[trigger]
        used_and_paid(gas, tips, base_fee, new.block.transactions@, new.receipts@) && (
        new.block.header.base_fee_per_gas == Some(base_fee)
            || new.block.header.base_fee_per_gas is None && base_fee == 0) implies are_rewards(
        new.entry().rewards,
        new.reward_thresholds@,
        gas,
        tips,
    ) by {
        lemma_are_rewards(
            new.reward_thresholds@,
            gas,
            tips,
            base_fee,
            new.block.transactions@,
            new.receipts@,
        );
    }
}

/// Whether a number is that of a cached block or of one that comes in.
pub open spec fn is_known<H>(
    before: CacheView<H>,
    blocks: Seq<BlockWithReceipts<H>>,
    number: u64,
) -> bool {
    ||| before.entries.contains_key(number)
    ||| exists|i: int|
        0 <= i < blocks.len() && (#[trigger] blocks[i]).block.header.number == number
}

/// Whether a cache came out of another by the insertion of blocks.
///
/// It holds entries of blocks that were cached or came in, each once: the one of the last block
/// that came in under its number, or else the one that was there. There are no more than allowed,
/// and none is further below any known block. A known block is left out only if it is older than
/// all that stay, and either as many stay as allowed, or it is too far below one that stays. The
/// bounds are those of the numbers, and the settings stay.
pub open spec fn is_insertion<H>(
    before: CacheView<H>,
    blocks: Seq<BlockWithReceipts<H>>,
    after: CacheView<H>,
) -> bool {
    let max_blocks = before.config.max_blocks;
    &&& after.config == before.config
    &&& bounds_are_exact(after)
    &&& after.entries.dom().finite()
    &&& after.entries.len() <= max_blocks
    &&& forall|n: u64| #[trigger] after.entries.contains_key(n) ==> is_known(before, blocks, n)
    &&& forall|n: u64, m: u64|
        #![trigger after.entries.contains_key(n), is_known(before, blocks, m)]
        after.entries.contains_key(n) && is_known(before, blocks, m) ==> m <= n + max_blocks
    &&& forall|dropped: u64, n: u64|
        #![trigger is_known(before, blocks, dropped), after.entries.contains_key(n)]
        is_known(before, blocks, dropped) && !after.entries.contains_key(dropped)
            && after.entries.contains_key(n) ==> dropped < n
    &&& forall|dropped: u64|
        #![trigger is_known(before, blocks, dropped)]
        is_known(before, blocks, dropped) && !after.entries.contains_key(dropped)
            ==> after.entries.len() == max_blocks || dropped + max_blocks < after.upper_bound
    &&& forall|n: u64| #[trigger]
        after.entries.contains_key(n) && (forall|i: int|
            0 <= i < blocks.len() ==> (#[trigger] blocks[i]).block.header.number != n)
            ==> before.entries.contains_key(n) && after.entries[n] == before.entries[n]
    &&& forall|last: int|
        #![trigger blocks[last]]
        0 <= last < blocks.len() && after.entries.contains_key(blocks[last].block.header.number)
            && (forall|i: int|
            last < i < blocks.len() ==> (#[trigger] blocks[i]).block.header.number
                != blocks[last].block.header.number) ==> is_entry_of(
            after.entries[blocks[last].block.header.number],
            blocks[last],
        )
}

pub(crate) proof fn lemma_is_insertion<H>(
    before: CacheView<H>,
    blocks: Seq<BlockWithReceipts<H>>,
)
    requires
        before.wf(),
        forall|i: int| 0 <= i < blocks.len() ==> can_go_in(#[trigger] blocks[i], before.config),
    ensures
        is_insertion(before, blocks, before.insert(blocks)),
        before.insert(blocks).wf(),
{
    let after = before.insert(blocks);
    let max_blocks = before.config.max_blocks;
    let all = with_blocks(before.entries, blocks);
    let numbers = all.dom();
    assert forall|i: int| 0 <= i < blocks.len() implies (#[trigger] blocks[i]).is_valid(
        before.config,
    ) by {
        lemma_can_go_in(blocks[i], before.config);
    }
    law_insert_keeps_invariant(before, blocks);
    lemma_bounds(after);
    lemma_finite(before.entries, blocks);
    law_kept_is_bounded(numbers, max_blocks);
    assert(after.entries.dom() =~= kept(numbers, max_blocks));
    assert forall|n: u64| #[trigger] is_known(before, blocks, n) <==> numbers.contains(n) by {
        lemma_last_with(blocks, n);
        law_last_block_counts(before.entries, blocks, n);
    }
    assert forall|n: u64| #[trigger] after.entries.contains_key(n) implies is_known(
        before,
        blocks,
        n,
    ) by {
        assert(kept(numbers, max_blocks).contains(n));
        assert(numbers.contains(n));
    }
    assert forall|n: u64, m: u64|
        #![trigger after.entries.contains_key(n), is_known(before, blocks, m)]
        after.entries.contains_key(n) && is_known(before, blocks, m) implies m <= n
        + max_blocks by {
        assert(kept(numbers, max_blocks).contains(n));
        assert(numbers.contains(m));
        law_earliest_and_latest_exist(numbers);
    }
    assert forall|dropped: u64, n: u64|
        #![trigger is_known(before, blocks, dropped), after.entries.contains_key(n)]
        is_known(before, blocks, dropped) && !after.entries.contains_key(dropped)
            && after.entries.contains_key(n) implies dropped < n by {
        law_only_surplus_is_dropped(numbers, max_blocks, dropped);
        assert(kept(numbers, max_blocks).contains(n));
    }
    assert forall|dropped: u64|
        #![trigger is_known(before, blocks, dropped)]
        is_known(before, blocks, dropped) && !after.entries.contains_key(
            dropped,
        ) implies after.entries.len() == max_blocks || dropped + max_blocks
        < after.upper_bound by {
        law_only_surplus_is_dropped(numbers, max_blocks, dropped);
    }
    assert forall|n: u64| #[trigger]
        after.entries.contains_key(n) && (forall|i: int|
            0 <= i < blocks.len() ==> (#[trigger] blocks[i]).block.header.number
                != n) implies before.entries.contains_key(n) && after.entries[n]
        == before.entries[n] by {
        assert(is_known(before, blocks, n));
        lemma_last_with(blocks, n);
        law_last_block_counts(before.entries, blocks, n);
    }
    assert forall|last: int|
        #![trigger blocks[last]]
        0 <= last < blocks.len() && after.entries.contains_key(blocks[last].block.header.number)
            && (forall|i: int|
            last < i < blocks.len() ==> (#[trigger] blocks[i]).block.header.number
                != blocks[last].block.header.number) implies is_entry_of(
        after.entries[blocks[last].block.header.number],
        blocks[last],
    ) by {
        let number = blocks[last].block.header.number;
        lemma_last_with(blocks, number);
        law_last_block_counts(before.entries, blocks, number);
        lemma_is_entry_of(blocks[last], before.config);
        let found = last_with(blocks, number)->0;
        assert(found == last);
    }
}

/// Blocks that can go in are inserted: the cache comes out as [`is_insertion`] says, and its
/// invariant is kept.
pub proof fn law_blocks_are_inserted<H>()
    ensures
        forall|cache: &mut FeeHistoryCache<H>, blocks: &[BlockWithReceipts<H>]|
            #![trigger call_requires(FeeHistoryCache::<H>::insert_blocks, (cache, blocks))]
            (*cache)@.wf() && (forall|i: int|
                0 <= i < blocks@.len() ==> can_go_in(#[trigger] blocks@[i], (*cache)@.config))
                ==> call_requires(FeeHistoryCache::<H>::insert_blocks, (cache, blocks)),
        forall|cache: &mut FeeHistoryCache<H>, blocks: &[BlockWithReceipts<H>]| #[trigger]
            call_ensures(FeeHistoryCache::<H>::insert_blocks, (cache, blocks), ())
                && (*cache)@.wf() && (forall|i: int|
                0 <= i < blocks@.len() ==> can_go_in(#[trigger] blocks@[i], (*cache)@.config))
                ==> {
                &&& is_insertion((*cache)@, blocks@, final(cache)@)
                &&& final(cache)@.wf()
            },
{
    assert forall|cache: &mut FeeHistoryCache<H>, blocks: &[BlockWithReceipts<H>]|
        #![trigger call_requires(FeeHistoryCache::<H>::insert_blocks, (cache, blocks))]
        (*cache)@.wf() && (forall|i: int|
            0 <= i < blocks@.len() ==> can_go_in(
                #[trigger] blocks@[i],
                (*cache)@.config,
            )) implies call_requires(FeeHistoryCache::<H>::insert_blocks, (cache, blocks)) by {
        assert forall|i: int| 0 <= i < blocks@.len() implies (#[trigger] blocks@[i]).is_valid(
            (*cache)@.config,
        ) by {
            lemma_can_go_in(blocks@[i], (*cache)@.config);
        }
    }
    assert forall|cache: &mut FeeHistoryCache<H>, blocks: &[BlockWithReceipts<H>]| #[trigger]
        call_ensures(FeeHistoryCache::<H>::insert_blocks, (cache, blocks), ()) && (*cache)@.wf()
            && (forall|i: int|
            0 <= i < blocks@.len() ==> can_go_in(
                #[trigger] blocks@[i],
                (*cache)@.config,
            )) implies {
        &&& is_insertion((*cache)@, blocks@, final(cache)@)
        &&& final(cache)@.wf()
    } by {
        lemma_is_insertion((*cache)@, blocks@);
    }
}

/// A read gives back what was written: where the last block that came in under its number is kept,
/// the history of that number is a single entry, and that is the block's.
pub proof fn law_what_went_in_is_read_back<H>(
    before: CacheView<H>,
    blocks: Seq<BlockWithReceipts<H>>,
    last: int,
    cache: &FeeHistoryCache<H>,
    history: Option<Vec<FeeHistoryEntry<H>>>,
)
    requires
        cache@.wf(),
        is_insertion(before, blocks, cache@),
        0 <= last < blocks.len(),
        forall|i: int|
            last < i < blocks.len() ==> (#[trigger] blocks[i]).block.header.number
                != blocks[last].block.header.number,
        cache@.entries.contains_key(blocks[last].block.header.number),
        call_ensures(
            FeeHistoryCache::<H>::get_history,
            (cache, blocks[last].block.header.number, blocks[last].block.header.number),
            history,
        ),
    ensures
        history matches Some(found) && found@.len() == 1 && is_entry_of(found@[0]@, blocks[last])
            && found@[0].gas_used_ratio.numerator == blocks[last].block.header.gas_used
            && found@[0].gas_used_ratio.denominator == blocks[last].block.header.gas_limit,
{
    let number = blocks[last].block.header.number;
    law_history_is_that_of_the_range(cache, number, number, history);
    lemma_bounds(cache@);
    let found = history->0;
    assert(found@[0].header.number == number);
    if found@.len() > 1 {
        assert(found@[0].header.number < found@[1].header.number);
        assert(found@[1].header.number <= number);
    }
    assert(is_entry_of(cache@.entries[number], blocks[last]));
}

} // verus!
