//! What holds of the fee history cache over several operations.

use crate::cache::{
    entries_between, law_insert_keeps_invariant, missing_between, trimmed, with_blocks,
    BlockWithReceipts, CacheView,
};
use crate::entry::EntryView;
use crate::window::{
    from_on, is_earliest, is_latest, keeps, kept, law_earliest_and_latest_exist,
    law_kept_in_batches, law_kept_is_bounded, law_kept_of_consecutive,
};
use vstd::prelude::*;

verus! {

/// The blocks can all go into the cache.
pub open spec fn all_valid<H>(cache: CacheView<H>, blocks: Seq<BlockWithReceipts<H>>) -> bool {
    forall|i: int| 0 <= i < blocks.len() ==> (#[trigger] blocks[i]).is_valid(cache.config)
}

pub(crate) proof fn lemma_finite<H>(
    entries: Map<u64, EntryView<H>>,
    blocks: Seq<BlockWithReceipts<H>>,
)
    requires
        entries.dom().finite(),
    ensures
        with_blocks(entries, blocks).dom().finite(),
    decreases blocks.len(),
{
    if blocks.len() > 0 {
        lemma_finite(entries, blocks.drop_last());
    }
}

/// The index of the last block with a number, if there is one.
pub open spec fn last_with<H>(blocks: Seq<BlockWithReceipts<H>>, number: u64) -> Option<int>
    decreases blocks.len(),
{
    if blocks.len() == 0 {
        None
    } else if blocks.last().block.header.number == number {
        Some(blocks.len() - 1)
    } else {
        last_with(blocks.drop_last(), number)
    }
}

pub(crate) proof fn lemma_last_with<H>(blocks: Seq<BlockWithReceipts<H>>, number: u64)
    ensures
        match last_with(blocks, number) {
            Some(last) => {
                &&& 0 <= last < blocks.len()
                &&& blocks[last].block.header.number == number
                &&& forall|i: int|
                    last < i < blocks.len() ==> (#[trigger] blocks[i]).block.header.number
                        != number
            },
            None => forall|i: int|
                0 <= i < blocks.len() ==> (#[trigger] blocks[i]).block.header.number != number,
        },
    decreases blocks.len(),
{
    if blocks.len() > 0 {
        let rest = blocks.drop_last();
        lemma_last_with(rest, number);
        assert(forall|i: int| 0 <= i < rest.len() ==> rest[i] == blocks[i]);
        assert(blocks.last() == blocks[blocks.len() - 1]);
    }
}

/// A number has an entry after blocks went in exactly if it had one before or one of the blocks
/// has it; of several blocks with a number the last one counts.
pub proof fn law_last_block_counts<H>(
    entries: Map<u64, EntryView<H>>,
    blocks: Seq<BlockWithReceipts<H>>,
    number: u64,
)
    ensures
        match last_with(blocks, number) {
            Some(last) => {
                &&& 0 <= last < blocks.len()
                &&& with_blocks(entries, blocks).contains_key(number)
                &&& with_blocks(entries, blocks)[number] == blocks[last].entry()
            },
            None => {
                &&& with_blocks(entries, blocks).contains_key(number) == entries.contains_key(
                    number,
                )
                &&& with_blocks(entries, blocks)[number] == entries[number]
            },
        },
    decreases blocks.len(),
{
    if blocks.len() > 0 {
        law_last_block_counts(entries, blocks.drop_last(), number);
    }
}

/// Inserting no blocks changes nothing.
pub proof fn law_inserting_nothing<H>(cache: CacheView<H>)
    requires
        cache.wf(),
    ensures
        cache.insert(Seq::empty()) == cache,
{
    let numbers = cache.entries.dom();
    assert forall|n: u64| numbers.contains(n) implies keeps(
        numbers,
        cache.config.max_blocks,
        n,
    ) by {
        assert(from_on(numbers, n).subset_of(numbers));
        vstd::set_lib::lemma_len_subset(from_on(numbers, n), numbers);
        law_earliest_and_latest_exist(numbers);
    }
    assert(trimmed(cache.entries, cache.config.max_blocks) =~= cache.entries);
}

proof fn lemma_single<H>(entries: Map<u64, EntryView<H>>, number: u64)
    ensures
        entries.contains_key(number) ==> entries_between(entries, number as int, number + 1)
            == seq![entries[number]],
        !entries.contains_key(number) ==> entries_between(entries, number as int, number + 1)
            == Seq::<EntryView<H>>::empty(),
{
    assert(entries_between(entries, number as int, number as int) == Seq::<EntryView<H>>::empty());
    assert(Seq::<EntryView<H>>::empty().push(entries[number]) =~= seq![entries[number]]);
}

/// What is cached is served: the history of a single block is its entry.
pub proof fn law_cached_block_is_served<H>(cache: CacheView<H>, number: u64)
    requires
        cache.wf(),
    ensures
        cache.entries.contains_key(number) ==> cache.history(number, number) == Some(
            seq![cache.entries[number]],
        ),
        !cache.entries.contains_key(number) ==> cache.history(number, number) is None,
{
    lemma_single(cache.entries, number);
    if cache.entries.contains_key(number) {
        assert(cache.entries.dom().contains(number));
        law_earliest_and_latest_exist(cache.entries.dom());
    }
}

/// A read gives back what was written: a block that went in last under its number, and that the
/// size of the cache allows to keep, is served with its entry.
pub proof fn law_inserted_block_is_served<H>(
    cache: CacheView<H>,
    blocks: Seq<BlockWithReceipts<H>>,
    last: int,
)
    requires
        cache.wf(),
        all_valid(cache, blocks),
        0 <= last < blocks.len(),
        forall|i: int|
            last < i < blocks.len() ==> (#[trigger] blocks[i]).block.header.number
                != blocks[last].block.header.number,
        keeps(
            with_blocks(cache.entries, blocks).dom(),
            cache.config.max_blocks,
            blocks[last].block.header.number,
        ),
    ensures
        cache.insert(blocks).history(
            blocks[last].block.header.number,
            blocks[last].block.header.number,
        ) == Some(seq![blocks[last].entry()]),
{
    let number = blocks[last].block.header.number;
    law_insert_keeps_invariant(cache, blocks);
    lemma_last_with(blocks, number);
    law_last_block_counts(cache.entries, blocks, number);
    law_cached_block_is_served(cache.insert(blocks), number);
}

/// A block that is higher than all others, cached before or inserted with it, is always served
/// after its insertion, unless the cache may hold no block at all.
pub proof fn law_newest_block_is_served<H>(
    cache: CacheView<H>,
    blocks: Seq<BlockWithReceipts<H>>,
    last: int,
)
    requires
        cache.wf(),
        all_valid(cache, blocks),
        cache.config.max_blocks > 0,
        0 <= last < blocks.len(),
        forall|i: int|
            0 <= i < blocks.len() && i != last ==> (#[trigger] blocks[i]).block.header.number
                < blocks[last].block.header.number,
        cache.upper_bound <= blocks[last].block.header.number,
    ensures
        cache.insert(blocks).upper_bound == blocks[last].block.header.number,
        cache.insert(blocks).history(
            blocks[last].block.header.number,
            blocks[last].block.header.number,
        ) == Some(seq![blocks[last].entry()]),
{
    let number = blocks[last].block.header.number;
    let all = with_blocks(cache.entries, blocks);
    lemma_finite(cache.entries, blocks);
    lemma_last_with(blocks, number);
    law_last_block_counts(cache.entries, blocks, number);
    assert forall|n: u64| #[trigger] all.dom().contains(n) implies n <= number by {
        lemma_last_with(blocks, n);
        law_last_block_counts(cache.entries, blocks, n);
        if n > number {
            assert(cache.entries.dom().contains(n));
            law_earliest_and_latest_exist(cache.entries.dom());
        }
    }
    assert(all.dom().contains(number));
    assert(is_latest(all.dom(), number));
    law_kept_is_bounded(all.dom(), cache.config.max_blocks);
    assert(all.dom().len() > 0);
    assert(kept(all.dom(), cache.config.max_blocks).contains(number));
    assert(trimmed(all, cache.config.max_blocks).dom() =~= kept(
        all.dom(),
        cache.config.max_blocks,
    ));
    law_inserted_block_is_served(cache, blocks, last);
}

proof fn lemma_entries_between<H>(entries: Map<u64, EntryView<H>>, start: int, end: int)
    requires
        0 <= start,
        end <= u64::MAX + 1,
        forall|n: u64| #[trigger]
            entries.contains_key(n) ==> entries[n].header.number == n,
    ensures
        forall|i: int|
            0 <= i < entries_between(entries, start, end).len() ==> {
                let found = #[trigger] entries_between(entries, start, end)[i];
                &&& start <= found.header.number < end
                &&& entries.contains_key(found.header.number)
                &&& entries[found.header.number] == found
            },
        forall|i: int, j: int|
            0 <= i < j < entries_between(entries, start, end).len() ==> entries_between(
                entries,
                start,
                end,
            )[i].header.number < entries_between(entries, start, end)[j].header.number,
        forall|n: u64| #[trigger]
            entries.contains_key(n) && start <= n < end ==> entries_between(
                entries,
                start,
                end,
            ).contains(entries[n]),
    decreases end - start,
{
    if start < end {
        lemma_entries_between(entries, start, end - 1);
        let before = entries_between(entries, start, end - 1);
        let found = entries_between(entries, start, end);
        let top = (end - 1) as u64;
        assert forall|n: u64| #[trigger]
            entries.contains_key(n) && start <= n < end implies found.contains(entries[n]) by {
            if n == top {
                assert(found[found.len() - 1] == entries[n]);
            } else {
                let i = before.index_of(entries[n]);
                assert(before.contains(entries[n]));
                assert(found[i] == entries[n]);
            }
        }
    }
}

/// A history holds exactly the cached entries of the range, by ascending number. There is none
/// exactly if the range is empty, reaches out of the bounds, or has no cached entry.
pub proof fn law_history_is_exact<H>(cache: CacheView<H>, start_block: u64, end_block: u64)
    requires
        cache.wf(),
    ensures
        match cache.history(start_block, end_block) {
            Some(found) => {
                &&& found.len() > 0
                &&& forall|i: int, j: int|
                    0 <= i < j < found.len() ==> found[i].header.number < found[j].header.number
                &&& forall|i: int|
                    0 <= i < found.len() ==> {
                        let number = (#[trigger] found[i]).header.number;
                        &&& start_block <= number <= end_block
                        &&& cache.entries.contains_key(number)
                        &&& cache.entries[number] == found[i]
                    }
                &&& forall|n: u64| #[trigger]
                    cache.entries.contains_key(n) && start_block <= n <= end_block
                        ==> found.contains(cache.entries[n])
            },
            None => {
                ||| end_block < start_block
                ||| start_block < cache.lower_bound
                ||| cache.upper_bound < end_block
                ||| forall|n: u64| #[trigger]
                    cache.entries.contains_key(n) ==> !(start_block <= n <= end_block)
            },
        },
{
    lemma_entries_between(cache.entries, start_block as int, end_block + 1);
}

proof fn lemma_entries_of_complete_range<H>(entries: Map<u64, EntryView<H>>, start: int, end: int)
    requires
        0 <= start <= end <= u64::MAX + 1,
        forall|n: u64| start <= n < end ==> #[trigger] entries.contains_key(n),
    ensures
        entries_between(entries, start, end) == Seq::new(
            (end - start) as nat,
            |i: int| entries[(start + i) as u64],
        ),
    decreases end - start,
{
    if start < end {
        lemma_entries_of_complete_range(entries, start, end - 1);
        assert(entries.contains_key((end - 1) as u64));
    }
    assert(entries_between(entries, start, end) =~= Seq::new(
        (end - start) as nat,
        |i: int| entries[(start + i) as u64],
    ));
}

/// The history of a range without gaps has one entry for each of its blocks.
pub proof fn law_history_without_gaps<H>(cache: CacheView<H>, start_block: u64, end_block: u64)
    requires
        cache.wf(),
        start_block <= end_block,
        forall|n: u64| start_block <= n <= end_block ==> #[trigger] cache.entries.contains_key(n),
    ensures
        cache.history(start_block, end_block) == Some(
            Seq::new(
                (end_block - start_block + 1) as nat,
                |i: int| cache.entries[(start_block + i) as u64],
            ),
        ),
{
    lemma_entries_of_complete_range(cache.entries, start_block as int, end_block + 1);
    assert(cache.entries.contains_key(start_block) && cache.entries.contains_key(end_block));
    assert(cache.entries.dom().contains(start_block) && cache.entries.dom().contains(end_block));
    law_earliest_and_latest_exist(cache.entries.dom());
}

proof fn lemma_missing_between<H>(entries: Map<u64, EntryView<H>>, start: int, end: int)
    requires
        0 <= start,
        end <= u64::MAX + 1,
    ensures
        forall|n: u64| #[trigger]
            missing_between(entries, start, end).contains(n) <==> start <= n < end
                && !entries.contains_key(n),
        forall|i: int, j: int|
            0 <= i < j < missing_between(entries, start, end).len() ==> missing_between(
                entries,
                start,
                end,
            )[i] > missing_between(entries, start, end)[j],
    decreases end - start,
{
    let missing = missing_between(entries, start, end);
    if start < end {
        lemma_missing_between(entries, start, end - 1);
        let below = missing_between(entries, start, end - 1);
        let top = (end - 1) as u64;
        if !entries.contains_key(top) {
            assert(missing[0] == top);
            assert(forall|i: int| 0 <= i < below.len() ==> missing[i + 1] == below[i]);
            assert forall|i: int| 1 <= i < missing.len() implies #[trigger] missing[i] < top by {
                assert(below.contains(below[i - 1]));
            }
            assert forall|n: u64| #[trigger] missing.contains(n) <==> n == top || below.contains(
                n,
            ) by {
                if missing.contains(n) {
                    let i = missing.index_of(n);
                    assert(i == 0 || below[i - 1] == n);
                } else if below.contains(n) {
                    let i = below.index_of(n);
                    assert(missing[i + 1] == n);
                }
            }
        }
    } else {
        assert(missing =~= Seq::empty());
    }
}

/// The missing blocks are exactly the numbers within the bounds, both included, that are not
/// cached, each once, highest first.
pub proof fn law_missing_is_exact<H>(cache: CacheView<H>)
    requires
        cache.wf(),
    ensures
        forall|n: u64| #[trigger]
            cache.missing().contains(n) <==> cache.lower_bound <= n <= cache.upper_bound
                && !cache.entries.contains_key(n),
        forall|i: int, j: int|
            0 <= i < j < cache.missing().len() ==> cache.missing()[i] > cache.missing()[j],
{
    lemma_missing_between(cache.entries, cache.lower_bound as int, cache.upper_bound + 1);
}

/// A cache that misses no block serves the whole range between its bounds.
pub proof fn law_nothing_missing_serves_all<H>(cache: CacheView<H>)
    requires
        cache.wf(),
        cache.missing().len() == 0,
    ensures
        cache.history(cache.lower_bound, cache.upper_bound) == Some(
            Seq::new(
                (cache.upper_bound - cache.lower_bound + 1) as nat,
                |i: int| cache.entries[(cache.lower_bound + i) as u64],
            ),
        ),
{
    law_missing_is_exact(cache);
    if cache.entries.len() > 0 {
        law_earliest_and_latest_exist(cache.entries.dom());
    } else {
        assert(cache.entries.dom() =~= Set::empty());
    }
    assert forall|n: u64| cache.lower_bound <= n <= cache.upper_bound implies #[trigger] cache
        .entries.contains_key(n) by {
        assert(!cache.missing().contains(n));
    }
    law_history_without_gaps(cache, cache.lower_bound, cache.upper_bound);
}

/// The upper bound never goes down.
pub proof fn law_upper_bound_never_falls<H>(cache: CacheView<H>, blocks: Seq<BlockWithReceipts<H>>)
    requires
        cache.wf(),
    ensures
        cache.upper_bound <= cache.insert(blocks).upper_bound,
{
    let max_blocks = cache.config.max_blocks;
    let all = with_blocks(cache.entries, blocks);
    lemma_finite(cache.entries, blocks);
    law_kept_is_bounded(all.dom(), max_blocks);
    assert(trimmed(all, max_blocks).dom() =~= kept(all.dom(), max_blocks));
    if cache.entries.len() > 0 {
        law_earliest_and_latest_exist(cache.entries.dom());
        law_last_block_counts(cache.entries, blocks, cache.upper_bound);
        assert(all.dom().contains(cache.upper_bound));
        law_earliest_and_latest_exist(all.dom());
    } else {
        assert(cache.entries.dom() =~= Set::empty());
    }
}

proof fn lemma_with_blocks_in_batches<H>(
    entries: Map<u64, EntryView<H>>,
    first: Seq<BlockWithReceipts<H>>,
    second: Seq<BlockWithReceipts<H>>,
)
    ensures
        with_blocks(with_blocks(entries, first), second) == with_blocks(entries, first + second),
    decreases second.len(),
{
    if second.len() > 0 {
        lemma_with_blocks_in_batches(entries, first, second.drop_last());
        assert((first + second).drop_last() =~= first + second.drop_last());
        assert((first + second).last() == second.last());
    } else {
        assert(first + second =~= first);
    }
}

/// Blocks may come in batches: the cache ends up as if they had come all at once.
pub proof fn law_insert_in_batches<H>(
    cache: CacheView<H>,
    first: Seq<BlockWithReceipts<H>>,
    second: Seq<BlockWithReceipts<H>>,
)
    requires
        cache.wf(),
    ensures
        cache.insert(first).insert(second) == cache.insert(first + second),
{
    let max_blocks = cache.config.max_blocks;
    let before = with_blocks(cache.entries, first);
    let part = trimmed(before, max_blocks);
    let all = with_blocks(cache.entries, first + second);
    let new = with_blocks::<H>(Map::empty(), second).dom();
    lemma_finite(cache.entries, first);
    lemma_finite(Map::empty(), second);
    lemma_with_blocks_in_batches(cache.entries, first, second);
    assert(part.dom() =~= kept(before.dom(), max_blocks));
    let joined = with_blocks(part, second);
    assert forall|n: u64| #[trigger] joined.contains_key(n) implies joined[n] == all[n] by {
        law_last_block_counts(part, second, n);
        law_last_block_counts(before, second, n);
    }
    assert forall|n: u64| #[trigger] joined.dom().contains(n) <==> part.dom().union(new).contains(
        n,
    ) by {
        law_last_block_counts(part, second, n);
        law_last_block_counts(Map::empty(), second, n);
    }
    assert forall|n: u64| #[trigger] all.dom().contains(n) <==> before.dom().union(new).contains(
        n,
    ) by {
        law_last_block_counts(before, second, n);
        law_last_block_counts(Map::empty(), second, n);
    }
    assert(joined.dom() =~= part.dom().union(new));
    assert(all.dom() =~= before.dom().union(new));
    law_kept_in_batches(before.dom(), new, max_blocks);
    assert(trimmed(joined, max_blocks) =~= trimmed(all, max_blocks));
}

/// Inserting a missing block into a cache with room fills the gap and changes nothing else: the
/// bounds stay, and the block is missing no more.
pub proof fn law_missing_block_fills_gap<H>(cache: CacheView<H>, block: BlockWithReceipts<H>)
    requires
        cache.wf(),
        block.is_valid(cache.config),
        cache.missing().contains(block.block.header.number),
        cache.entries.len() < cache.config.max_blocks,
    ensures
        cache.insert(seq![block]) == (CacheView {
            entries: cache.entries.insert(block.block.header.number, block.entry()),
            ..cache
        }),
        forall|n: u64| #[trigger]
            cache.insert(seq![block]).missing().contains(n) <==> cache.missing().contains(n) && n
                != block.block.header.number,
{
    let number = block.block.header.number;
    let max_blocks = cache.config.max_blocks;
    let blocks = seq![block];
    let filled = cache.entries.insert(number, block.entry());
    law_missing_is_exact(cache);
    if cache.entries.len() > 0 {
        law_earliest_and_latest_exist(cache.entries.dom());
    } else {
        assert(cache.entries.dom() =~= Set::empty());
    }
    assert(blocks.drop_last() =~= Seq::empty());
    assert(with_blocks(cache.entries, blocks.drop_last()) == cache.entries);
    assert(with_blocks(cache.entries, blocks) == filled);
    assert(filled.dom() =~= cache.entries.dom().insert(number));
    assert(is_earliest(filled.dom(), cache.lower_bound));
    assert(is_latest(filled.dom(), cache.upper_bound));
    assert forall|n: u64| filled.dom().contains(n) implies keeps(
        filled.dom(),
        max_blocks,
        n,
    ) by {
        vstd::set_lib::lemma_len_subset(from_on(filled.dom(), n), filled.dom());
    }
    assert(trimmed(filled, max_blocks) =~= filled);
    assert(all_valid(cache, blocks));
    law_insert_keeps_invariant(cache, blocks);
    law_missing_is_exact(cache.insert(blocks));
}

/// Where the entries after an insertion, before the oldest leave, are those of a range without
/// gaps, no block is missing, and the upper bound is the end of the range.
proof fn lemma_range_misses_nothing<H>(
    cache: CacheView<H>,
    blocks: Seq<BlockWithReceipts<H>>,
    low: u64,
    high: u64,
)
    requires
        cache.wf(),
        cache.config.max_blocks > 0,
        all_valid(cache, blocks),
        low <= high,
        forall|n: u64| #[trigger]
            with_blocks(cache.entries, blocks).dom().contains(n) <==> low <= n <= high,
    ensures
        cache.insert(blocks).missing().len() == 0,
        cache.insert(blocks).upper_bound == high,
{
    let all = with_blocks(cache.entries, blocks);
    let max_blocks = cache.config.max_blocks;
    law_kept_of_consecutive(all.dom(), max_blocks, low, high);
    let after = cache.insert(blocks);
    law_insert_keeps_invariant(cache, blocks);
    law_missing_is_exact(after);
    assert(after.entries.dom() =~= kept(all.dom(), max_blocks));
    assert(after.entries.dom().contains(high));
    law_earliest_and_latest_exist(after.entries.dom());
    assert(is_latest(after.entries.dom(), high));
    assert forall|n: u64| after.lower_bound <= n <= after.upper_bound implies #[trigger] after
        .entries.contains_key(n) by {
        assert(after.entries.dom().contains(after.lower_bound));
        assert(after.entries.dom().contains(n));
    }
    if after.missing().len() > 0 {
        assert(after.missing().contains(after.missing()[0]));
    }
}

/// Inserting all missing blocks leaves no block missing, and keeps the upper bound. A cache that
/// may hold no block at all is left out: it always misses block 0.
pub proof fn law_all_missing_blocks_complete_the_cache<H>(
    cache: CacheView<H>,
    blocks: Seq<BlockWithReceipts<H>>,
)
    requires
        cache.wf(),
        cache.config.max_blocks > 0,
        all_valid(cache, blocks),
        blocks.len() == cache.missing().len(),
        forall|i: int|
            0 <= i < blocks.len() ==> (#[trigger] blocks[i]).block.header.number
                == cache.missing()[i],
    ensures
        cache.insert(blocks).missing().len() == 0,
        cache.insert(blocks).upper_bound == cache.upper_bound,
{
    law_missing_is_exact(cache);
    let missing = cache.missing();
    let low = cache.lower_bound;
    let high = cache.upper_bound;
    let all = with_blocks(cache.entries, blocks);
    if cache.entries.len() > 0 {
        law_earliest_and_latest_exist(cache.entries.dom());
    } else {
        assert(cache.entries.dom() =~= Set::empty());
    }
    assert forall|n: u64| #[trigger] all.dom().contains(n) <==> low <= n <= high by {
        lemma_last_with(blocks, n);
        law_last_block_counts(cache.entries, blocks, n);
        if cache.entries.contains_key(n) {
            assert(cache.entries.dom().contains(n));
        } else if missing.contains(n) {
            let i = missing.index_of(n);
            assert(blocks[i].block.header.number == n);
        } else if last_with(blocks, n) is Some {
            let i = last_with(blocks, n)->0;
            assert(missing[i] == n);
        }
    }
    lemma_range_misses_nothing(cache, blocks, low, high);
}

/// Each block has the number that follows on that of the block before.
pub open spec fn consecutive<H>(blocks: Seq<BlockWithReceipts<H>>) -> bool {
    forall|i: int, j: int|
        0 <= i < j < blocks.len() ==> (#[trigger] blocks[j]).block.header.number == (
        #[trigger] blocks[i]).block.header.number + (j - i)
}

/// Blocks with consecutive numbers leave no gap in a cache that was empty, and the last one is
/// its upper bound. A cache that may hold no block at all is left out: it always misses block 0.
pub proof fn law_consecutive_blocks_leave_no_gap<H>(
    cache: CacheView<H>,
    blocks: Seq<BlockWithReceipts<H>>,
)
    requires
        cache.wf(),
        cache.entries.len() == 0,
        cache.config.max_blocks > 0,
        all_valid(cache, blocks),
        blocks.len() > 0,
        consecutive(blocks),
    ensures
        cache.insert(blocks).missing() == Seq::<u64>::empty(),
        cache.insert(blocks).upper_bound == blocks.last().block.header.number,
{
    let low = blocks[0].block.header.number;
    let high = blocks[blocks.len() - 1].block.header.number;
    let all = with_blocks(cache.entries, blocks);
    assert(cache.entries.dom() =~= Set::empty());
    assert forall|n: u64| #[trigger] all.dom().contains(n) <==> low <= n <= high by {
        lemma_last_with(blocks, n);
        law_last_block_counts(cache.entries, blocks, n);
        assert(!cache.entries.dom().contains(n));
        if low <= n <= high {
            let i = n - low;
            assert(0 <= i < blocks.len());
            assert(blocks[i].block.header.number == n);
        }
    }
    lemma_range_misses_nothing(cache, blocks, low, high);
}

} // verus!
