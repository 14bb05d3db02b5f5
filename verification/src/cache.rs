//! The fee history cache.

use crate::blob::BlobParams;
use crate::block::{Block, Receipt};
use crate::entry::{can_compute_entry, entry_computable, entry_of, EntryView, FeeHistoryEntry};
use crate::rewards::{
    calculate_reward_percentiles_for_block, cumulative, gas_and_rewards, rewards_at,
};
use crate::window::{earliest, first_number, kept, last_number, latest, law_kept_is_bounded, trim};
use std::collections::{BTreeMap, VecDeque};
use vstd::prelude::*;

verus! {

/// The longest header history that fee history requests reach back.
pub const MAX_HEADER_HISTORY: u64 = 1024;

/// Settings for the [`FeeHistoryCache`].
#[derive(Clone, Copy, Debug, PartialEq, Eq)]
pub struct FeeHistoryCacheConfig {
    /// Max number of blocks in cache.
    ///
    /// Default is [`MAX_HEADER_HISTORY`] plus some change to also serve slightly older blocks from
    /// cache, since fee history requests support the entire range.
    pub max_blocks: u64,
    /// Percentile approximation resolution.
    ///
    /// Default is 4 which means 0.25.
    pub resolution: u64,
}

impl Default for FeeHistoryCacheConfig {
    fn default() -> (config: Self)
        ensures
            config.max_blocks == MAX_HEADER_HISTORY + 100,
            config.resolution == 4,
    {
        FeeHistoryCacheConfig { max_blocks: MAX_HEADER_HISTORY + 100, resolution: 4 }
    }
}

impl FeeHistoryCacheConfig {
    /// How many percentiles there are at the configured resolution, from 0 up to, not including,
    /// 100.
    pub open spec fn percentiles(self) -> nat {
        (100 * self.resolution) as nat
    }
}

/// A block on its way into the cache.
#[derive(Debug)]
pub struct BlockWithReceipts<H> {
    /// The block.
    pub block: Block<H>,
    /// The receipts of its transactions.
    pub receipts: Vec<Receipt>,
    /// The blob parameters in force at its timestamp.
    pub blob_params: Option<BlobParams>,
    /// For each predefined percentile, that share of the gas used in the block.
    pub reward_thresholds: Vec<u64>,
}

impl<H> BlockWithReceipts<H> {
    /// Whether the block can go into a cache with the given settings: there is a threshold for
    /// each percentile, cumulative gas does not decrease, and no computation overflows.
    pub open spec fn is_valid(self, config: FeeHistoryCacheConfig) -> bool {
        &&& self.reward_thresholds@.len() == config.percentiles()
        &&& cumulative(self.block.transactions@, self.receipts@)
        &&& entry_computable(self.block.header, self.blob_params)
    }

    /// The fee history entry of the block, with its rewards.
    pub open spec fn entry(self) -> EntryView<H> {
        EntryView {
            rewards: rewards_at(
                gas_and_rewards(
                    self.block.header.base_fee(),
                    self.block.transactions@,
                    self.receipts@,
                ),
                self.reward_thresholds@,
            ),
            ..entry_of(self.block.header, self.block.body_blob_gas_used, self.blob_params)
        }
    }

    /// Tests whether the block can go into a cache with the given settings.
    pub fn check(&self, config: &FeeHistoryCacheConfig) -> (r: bool)
        ensures
            r == self.is_valid(*config),
    {
        let percentiles = 100 * config.resolution as u128;
        if self.reward_thresholds.len() as u128 != percentiles {
            return false;
        }
        let transactions = &self.block.transactions;
        let mut i: usize = 0;
        while i < transactions.len() && i < self.receipts.len()
            invariant
                transactions == self.block.transactions,
                i <= transactions.len(),
                i <= self.receipts.len(),
                forall|a: int, b: int|
                    #![trigger self.receipts@[a], self.receipts@[b]]
                    0 <= a <= b < i ==> self.receipts@[a].cumulative_gas_used
                        <= self.receipts@[b].cumulative_gas_used,
            decreases transactions.len() - i,
        {
            if i > 0 && self.receipts[i].cumulative_gas_used < self.receipts[i
                - 1].cumulative_gas_used {
                assert(!cumulative(transactions@, self.receipts@)) by {
                    assert(self.receipts@[i - 1].cumulative_gas_used
                        > self.receipts@[i as int].cumulative_gas_used);
                }
                return false;
            }
            i = i + 1;
        }
        can_compute_entry(&self.block.header, &self.blob_params)
    }
}

/// Contains cached fee history entries for blocks.
///
/// The purpose of this is to provide cached data for fee history requests.
#[derive(Debug)]
pub struct FeeHistoryCache<H> {
    /// The lowest cached block number.
    lower_bound: u64,
    /// The highest cached block number.
    upper_bound: u64,
    /// Resolution for percentile approximation and max number of blocks.
    config: FeeHistoryCacheConfig,
    /// The entries of the cache, by block number.
    entries: BTreeMap<u64, FeeHistoryEntry<H>>,
}

/// What a [`FeeHistoryCache`] holds.
#[verifier::ext_equal]
pub struct CacheView<H> {
    pub lower_bound: u64,
    pub upper_bound: u64,
    pub config: FeeHistoryCacheConfig,
    pub entries: Map<u64, EntryView<H>>,
}

impl<H> View for FeeHistoryCache<H> {
    type V = CacheView<H>;

    closed spec fn view(&self) -> CacheView<H> {
        CacheView {
            lower_bound: self.lower_bound,
            upper_bound: self.upper_bound,
            config: self.config,
            entries: entry_views(self.entries@),
        }
    }
}

/// Entries by what they hold.
pub open spec fn entry_views<H>(entries: Map<u64, FeeHistoryEntry<H>>) -> Map<u64, EntryView<H>> {
    entries.map_values(|entry: FeeHistoryEntry<H>| entry@)
}

/// The entries after a list of blocks went in, in order; a block replaces the entry under its
/// number.
pub open spec fn with_blocks<H>(
    entries: Map<u64, EntryView<H>>,
    blocks: Seq<BlockWithReceipts<H>>,
) -> Map<u64, EntryView<H>>
    decreases blocks.len(),
{
    if blocks.len() == 0 {
        entries
    } else {
        with_blocks(entries, blocks.drop_last()).insert(
            blocks.last().block.header.number,
            blocks.last().entry(),
        )
    }
}

/// The entries that a cache limited to `max_blocks` keeps.
pub open spec fn trimmed<H>(
    entries: Map<u64, EntryView<H>>,
    max_blocks: u64,
) -> Map<u64, EntryView<H>> {
    entries.restrict(kept(entries.dom(), max_blocks))
}

/// The entries with numbers from `start` up to, not including, `end`, in ascending order.
pub open spec fn entries_between<H>(
    entries: Map<u64, EntryView<H>>,
    start: int,
    end: int,
) -> Seq<EntryView<H>>
    decreases end - start,
{
    if end <= start {
        Seq::empty()
    } else {
        let before = entries_between(entries, start, end - 1);
        if entries.contains_key((end - 1) as u64) {
            before.push(entries[(end - 1) as u64])
        } else {
            before
        }
    }
}

/// The numbers from `start` up to, not including, `end` that have no entry, in descending order.
pub open spec fn missing_between<H>(
    entries: Map<u64, EntryView<H>>,
    start: int,
    end: int,
) -> Seq<u64>
    decreases end - start,
{
    if end <= start {
        Seq::empty()
    } else {
        let below = missing_between(entries, start, end - 1);
        if entries.contains_key((end - 1) as u64) {
            below
        } else {
            seq![(end - 1) as u64] + below
        }
    }
}

impl<H> CacheView<H> {
    /// The invariant of a cache: the bounds are the lowest and the highest cached number, zero
    /// for an empty cache; there are no more entries than allowed, and none is further below the
    /// highest than allowed; each entry stands under its own number and has a reward for each
    /// percentile.
    pub open spec fn wf(self) -> bool {
        &&& self.entries.dom().finite()
        &&& self.lower_bound == earliest(self.entries.dom())
        &&& self.upper_bound == latest(self.entries.dom())
        &&& self.entries.len() <= self.config.max_blocks
        &&& self.upper_bound - self.lower_bound <= self.config.max_blocks
        &&& forall|number: u64| #[trigger]
            self.entries.contains_key(number) ==> {
                &&& self.entries[number].header.number == number
                &&& self.entries[number].rewards.len() == self.config.percentiles()
            }
    }

    /// The cache after a list of blocks went in.
    pub open spec fn insert(self, blocks: Seq<BlockWithReceipts<H>>) -> CacheView<H> {
        let entries = trimmed(with_blocks(self.entries, blocks), self.config.max_blocks);
        CacheView {
            lower_bound: earliest(entries.dom()),
            upper_bound: latest(entries.dom()),
            config: self.config,
            entries,
        }
    }

    /// The entries for a range of block numbers, both ends included: `None` if the range is not
    /// within the bounds, or has no entries.
    pub open spec fn history(self, start_block: u64, end_block: u64) -> Option<Seq<EntryView<H>>> {
        let found = entries_between(self.entries, start_block as int, end_block + 1);
        if start_block <= end_block && self.lower_bound <= start_block && end_block
            <= self.upper_bound && found.len() > 0 {
            Some(found)
        } else {
            None
        }
    }

    /// The block numbers within the bounds, both included, that are not cached, in descending
    /// order.
    pub open spec fn missing(self) -> Seq<u64> {
        missing_between(self.entries, self.lower_bound as int, self.upper_bound + 1)
    }
}

proof fn lemma_with_blocks<H>(
    entries: Map<u64, EntryView<H>>,
    blocks: Seq<BlockWithReceipts<H>>,
    config: FeeHistoryCacheConfig,
)
    requires
        entries.dom().finite(),
        forall|number: u64| #[trigger]
            entries.contains_key(number) ==> entries[number].header.number == number
                && entries[number].rewards.len() == config.percentiles(),
        forall|i: int| 0 <= i < blocks.len() ==> (#[trigger] blocks[i]).is_valid(config),
    ensures
        with_blocks(entries, blocks).dom().finite(),
        forall|number: u64| #[trigger]
            with_blocks(entries, blocks).contains_key(number) ==> with_blocks(
                entries,
                blocks,
            )[number].header.number == number && with_blocks(entries, blocks)[number].rewards.len()
                == config.percentiles(),
    decreases blocks.len(),
{
    if blocks.len() > 0 {
        let rest = blocks.drop_last();
        assert(forall|i: int| 0 <= i < rest.len() ==> rest[i] == blocks[i]);
        assert(blocks[blocks.len() - 1].is_valid(config));
        lemma_with_blocks(entries, rest, config);
    }
}

/// Every insertion keeps the invariant of the cache.
pub proof fn law_insert_keeps_invariant<H>(cache: CacheView<H>, blocks: Seq<BlockWithReceipts<H>>)
    requires
        cache.wf(),
        forall|i: int| 0 <= i < blocks.len() ==> (#[trigger] blocks[i]).is_valid(cache.config),
    ensures
        cache.insert(blocks).wf(),
{
    let max_blocks = cache.config.max_blocks;
    let all = with_blocks(cache.entries, blocks);
    lemma_with_blocks(cache.entries, blocks, cache.config);
    law_kept_is_bounded(all.dom(), max_blocks);
    assert(trimmed(all, max_blocks).dom() =~= kept(all.dom(), max_blocks));
}

proof fn lemma_nothing_between<H>(entries: Map<u64, EntryView<H>>, start: int, mid: int, end: int)
    requires
        mid <= end,
        forall|n: u64| #[trigger] entries.contains_key(n) && start <= n ==> !(mid <= n < end),
        0 <= start,
        end <= u64::MAX + 1,
    ensures
        entries_between(entries, start, end) == entries_between(entries, start, mid),
    decreases end - mid,
{
    if start < end && mid < end {
        lemma_nothing_between(entries, start, mid, end - 1);
    }
}

/// Clones the entries with numbers from `start_block` to `end_block`, in ascending order.
fn entries_in_range<H>(
    entries: &BTreeMap<u64, FeeHistoryEntry<H>>,
    start_block: u64,
    end_block: u64,
) -> (found: Vec<FeeHistoryEntry<H>>)
    requires
        start_block <= end_block,
    ensures
        found@.map_values(|entry: FeeHistoryEntry<H>| entry@) == entries_between(
            entry_views(entries@),
            start_block as int,
            end_block + 1,
        ),
{
    let mut found: Vec<FeeHistoryEntry<H>> = Vec::new();
    let items = entries.iter();
    let ghost pairs = vstd::std_specs::iter::IteratorSpec::remaining(&items);
    let ghost views = entry_views(entries@);
    proof {
        let numbers = pairs.map_values(|kv: (&u64, &FeeHistoryEntry<H>)| *kv.0);
        lemma_ascending(numbers);
        assert forall|i: int, j: int| 0 <= i < j < pairs.len() implies *pairs[i].0
            < *pairs[j].0 by {
            assert(numbers[i] < numbers[j]);
        }
    }
    for item in it: items
        invariant
            it.seq() == pairs,
            views == entry_views(entries@),
            start_block <= end_block,
            are_pairs_of(pairs, entries@),
            found@.map_values(|entry: FeeHistoryEntry<H>| entry@) == entries_between(
                views,
                start_block as int,
                seen_up_to(pairs, it.index() as int, start_block, end_block),
            ),
    {
        let (number, entry) = item;
        let ghost i = it.index() as int;
        proof {
            assert(item == pairs[i]);
            lemma_next_pair(entries@, pairs, i, start_block, end_block);
        }
        let ghost before = found@;
        if start_block <= *number && *number <= end_block {
            let copy = entry.clone();
            found.push(copy);
            proof {
                assert(found@.map_values(|entry: FeeHistoryEntry<H>| entry@) =~= before.map_values(
                    |entry: FeeHistoryEntry<H>| entry@,
                ).push(copy@));
            }
        }
    }
    proof {
        lemma_last_pair(entries@, pairs, start_block, end_block);
    }
    found
}

proof fn lemma_ascending(numbers: Seq<u64>)
    requires
        vstd::std_specs::btree::increasing_seq(numbers),
    ensures
        forall|i: int, j: int| 0 <= i < j < numbers.len() ==> numbers[i] < numbers[j],
{
    assert(vstd::laws_cmp::obeys_cmp::<u64>());
    assert forall|i: int, j: int| 0 <= i < j < numbers.len() implies numbers[i] < numbers[j] by {
        assert(vstd::std_specs::cmp::OrdSpec::cmp_spec(&numbers[i], &numbers[j]) is Less);
    }
}

/// `pairs` are all the entries of a map, by ascending number.
spec fn are_pairs_of<H>(
    pairs: Seq<(&u64, &FeeHistoryEntry<H>)>,
    entries: Map<u64, FeeHistoryEntry<H>>,
) -> bool {
    &&& forall|i: int, j: int| 0 <= i < j < pairs.len() ==> *pairs[i].0 < *pairs[j].0
    &&& forall|i: int|
        0 <= i < pairs.len() ==> entries.contains_key(*(#[trigger] pairs[i]).0)
            && entries[*pairs[i].0] == *pairs[i].1
    &&& forall|n: u64| #[trigger] entries.contains_key(n) ==> pairs.contains((&n, &entries[n]))
}

/// Seeing one more pair adds its entry where it is in the range, and nothing else.
proof fn lemma_next_pair<H>(
    entries: Map<u64, FeeHistoryEntry<H>>,
    pairs: Seq<(&u64, &FeeHistoryEntry<H>)>,
    i: int,
    start_block: u64,
    end_block: u64,
)
    requires
        are_pairs_of(pairs, entries),
        0 <= i < pairs.len(),
        start_block <= end_block,
    ensures
        ({
            let number = *pairs[i].0;
            let seen = entries_between(
                entry_views(entries),
                start_block as int,
                seen_up_to(pairs, i, start_block, end_block),
            );
            entries_between(
                entry_views(entries),
                start_block as int,
                seen_up_to(pairs, i + 1, start_block, end_block),
            ) == if start_block <= number <= end_block {
                seen.push(pairs[i].1@)
            } else {
                seen
            }
        }),
{
    let views = entry_views(entries);
    let number = *pairs[i].0;
    let from = seen_up_to(pairs, i, start_block, end_block);
    assert(i > 0 ==> *pairs[i - 1].0 < number);
    assert forall|n: u64| #[trigger]
        views.contains_key(n) && start_block <= n && n < number implies n < from || n
        > end_block by {
        assert(entries.contains_key(n));
        let j = pairs.index_of((&n, &entries[n]));
        assert(pairs[j] == (&n, &entries[n]));
        assert(j < i);
        assert(j == i - 1 || *pairs[j].0 < *pairs[i - 1].0);
    }
    if number < start_block {
    } else if number > end_block {
        lemma_nothing_between(views, start_block as int, from, end_block + 1);
    } else {
        lemma_nothing_between(views, start_block as int, from, number as int);
        assert(views.contains_key(number));
    }
}

/// After all pairs the whole range has been seen.
proof fn lemma_last_pair<H>(
    entries: Map<u64, FeeHistoryEntry<H>>,
    pairs: Seq<(&u64, &FeeHistoryEntry<H>)>,
    start_block: u64,
    end_block: u64,
)
    requires
        are_pairs_of(pairs, entries),
        start_block <= end_block,
    ensures
        entries_between(
            entry_views(entries),
            start_block as int,
            seen_up_to(pairs, pairs.len() as int, start_block, end_block),
        ) == entries_between(entry_views(entries), start_block as int, end_block + 1),
{
    let views = entry_views(entries);
    let last = pairs.len() - 1;
    let from = seen_up_to(pairs, pairs.len() as int, start_block, end_block);
    assert forall|n: u64| #[trigger]
        views.contains_key(n) && start_block <= n implies !(from <= n < end_block + 1) by {
        assert(entries.contains_key(n));
        let j = pairs.index_of((&n, &entries[n]));
        assert(pairs[j] == (&n, &entries[n]));
        assert(j == last || *pairs[j].0 < *pairs[last].0);
    }
    lemma_nothing_between(views, start_block as int, from, end_block + 1);
}

/// Up to which number, not included, a range has been seen after `i` of the ascending `pairs`.
spec fn seen_up_to<H>(
    pairs: Seq<(&u64, &FeeHistoryEntry<H>)>,
    i: int,
    start_block: u64,
    end_block: u64,
) -> int {
    if i <= 0 || *pairs[i - 1].0 < start_block {
        start_block as int
    } else if *pairs[i - 1].0 > end_block {
        end_block + 1
    } else {
        *pairs[i - 1].0 + 1
    }
}

impl<H> FeeHistoryCache<H> {
    /// Creates a new, empty cache.
    pub fn new(config: FeeHistoryCacheConfig) -> (cache: Self)
        ensures
            cache@ == (CacheView::<H> {
                lower_bound: 0,
                upper_bound: 0,
                config,
                entries: Map::empty(),
            }),
            cache@.wf(),
    {
        let cache = FeeHistoryCache {
            lower_bound: 0,
            upper_bound: 0,
            config,
            entries: BTreeMap::new(),
        };
        proof {
            assert(cache@.entries =~= Map::empty());
            assert(cache@.entries.dom() =~= Set::empty());
        }
        cache
    }

    /// How the cache is configured.
    pub fn config(&self) -> (config: &FeeHistoryCacheConfig)
        ensures
            *config == self@.config,
    {
        &self.config
    }

    /// Returns the configured resolution for percentile approximation.
    pub fn resolution(&self) -> (resolution: u64)
        ensures
            resolution == self@.config.resolution,
    {
        self.config().resolution
    }

    /// Returns the highest cached block number, zero for an empty cache.
    pub fn upper_bound(&self) -> (bound: u64)
        ensures
            bound == self@.upper_bound,
    {
        self.upper_bound
    }

    /// Returns the lowest cached block number, zero for an empty cache.
    pub fn lower_bound(&self) -> (bound: u64)
        ensures
            bound == self@.lower_bound,
    {
        self.lower_bound
    }

    /// Returns all blocks that are missing in the cache in the range of its bounds (inclusive
    /// `lower_bound..=upper_bound`), highest first. In an empty cache this is block 0.
    ///
    /// This is used to populate the cache with missing blocks, which can happen if the node
    /// switched to stage sync.
    pub fn missing_consecutive_blocks(&self) -> (missing: VecDeque<u64>)
        ensures
            missing@ == self@.missing(),
    {
        let mut missing: VecDeque<u64> = VecDeque::new();
        let mut number: u64 = self.upper_bound;
        if number >= self.lower_bound && !self.entries.contains_key(&number) {
            missing.push_back(number);
        }
        assert(missing@ + missing_between(
            self@.entries,
            self.lower_bound as int,
            number as int,
        ) =~= self@.missing());
        while number > self.lower_bound
            invariant
                self.upper_bound < self.lower_bound || self.lower_bound <= number
                    <= self.upper_bound,
                number <= self.upper_bound,
                missing@ + missing_between(
                    self@.entries,
                    self.lower_bound as int,
                    number as int,
                ) == self@.missing(),
            decreases number,
        {
            let ghost before = missing@;
            let ghost rest = missing_between(
                self@.entries,
                self.lower_bound as int,
                number - 1,
            );
            number = number - 1;
            if !self.entries.contains_key(&number) {
                missing.push_back(number);
                assert(before + (seq![number] + rest) =~= before.push(number) + rest);
            }
        }
        assert(missing@ =~= self@.missing());
        missing
    }

    /// Collects the fee history for the given range (inclusive `start_block..=end_block`).
    ///
    /// If the requested range is within the cache bounds, this returns the corresponding entries,
    /// in ascending order. Otherwise, or if there are no such entries, it returns `None`.
    pub fn get_history(&self, start_block: u64, end_block: u64) -> (history: Option<
        Vec<FeeHistoryEntry<H>>,
    >)
        ensures
            match history {
                Some(entries) => self@.history(start_block, end_block) == Some(
                    entries@.map_values(|entry: FeeHistoryEntry<H>| entry@),
                ),
                None => self@.history(start_block, end_block) is None,
            },
    {
        if end_block < start_block {
            return None;
        }
        if start_block < self.lower_bound || end_block > self.upper_bound {
            return None;
        }
        let result = entries_in_range(&self.entries, start_block, end_block);
        if result.len() == 0 {
            None
        } else {
            Some(result)
        }
    }

    /// Generates the predefined set of percentiles, in units of one over the resolution.
    ///
    /// These are `100 * resolution` points, from 0 up to, not including, 100, in steps of one over
    /// the resolution: the value `p` stands for the percentile `p / resolution`.
    pub fn predefined_percentiles(&self) -> (percentiles: Vec<u64>)
        requires
            100 * self@.config.resolution <= u64::MAX,
        ensures
            percentiles@ == Seq::new(self@.config.percentiles(), |p: int| p as u64),
    {
        let count: u64 = 100 * self.resolution();
        let mut percentiles: Vec<u64> = Vec::new();
        let mut p: u64 = 0;
        while p < count
            invariant
                p <= count,
                percentiles@ == Seq::new(p as nat, |p: int| p as u64),
            decreases count - p,
        {
            percentiles.push(p);
            p = p + 1;
            assert(percentiles@ =~= Seq::new(p as nat, |p: int| p as u64));
        }
        percentiles
    }

    /// Inserts block data into the cache.
    ///
    /// The oldest entries leave the cache where there are more than the configured number of
    /// blocks, or where they are more than that number below the highest block.
    pub fn insert_blocks(&mut self, blocks: &[BlockWithReceipts<H>])
        requires
            old(self)@.wf(),
            forall|i: int|
                0 <= i < blocks@.len() ==> (#[trigger] blocks@[i]).is_valid(old(self)@.config),
        ensures
            final(self)@ == old(self)@.insert(blocks@),
            final(self)@.wf(),
    {
        let mut i: usize = 0;
        let ghost before = self@;
        // Insert all new blocks and calculate approximated rewards.
        while i < blocks.len()
            invariant
                i <= blocks@.len(),
                self.config == before.config,
                forall|i: int|
                    0 <= i < blocks@.len() ==> (#[trigger] blocks@[i]).is_valid(before.config),
                entry_views(self.entries@) == with_blocks(before.entries, blocks@.take(i as int)),
            decreases blocks.len() - i,
        {
            let new = &blocks[i];
            assert(blocks@[i as int].is_valid(before.config));
            let mut entry = FeeHistoryEntry::new(&new.block, new.blob_params);
            let base_fee_per_gas: u64 = match entry.header.base_fee_per_gas {
                Some(base_fee_per_gas) => base_fee_per_gas,
                None => 0,
            };
            let rewards = calculate_reward_percentiles_for_block(
                &new.reward_thresholds,
                base_fee_per_gas,
                &new.block.transactions,
                &new.receipts,
            );
            entry.rewards = match rewards {
                Ok(rewards) => rewards,
                Err(_) => Vec::new(),
            };
            let ghost entries = self.entries@;
            let ghost view = entry@;
            self.entries.insert(new.block.header.number, entry);
            i = i + 1;
            proof {
                let done = blocks@.take(i as int);
                assert(done.drop_last() =~= blocks@.take(i - 1));
                assert(view =~= done.last().entry());
                assert(entry_views(self.entries@) =~= entry_views(entries).insert(
                    done.last().block.header.number,
                    done.last().entry(),
                ));
            }
        }
        assert(blocks@.take(i as int) =~= blocks@);
        let ghost all = self.entries@;
        trim(&mut self.entries, self.config.max_blocks);
        proof {
            assert(entry_views(all).dom() =~= all.dom());
            assert(entry_views(self.entries@) =~= trimmed(
                entry_views(all),
                self.config.max_blocks,
            ));
            assert(self@.entries.dom() =~= self.entries@.dom());
            law_insert_keeps_invariant(before, blocks@);
        }
        match (first_number(&self.entries), last_number(&self.entries)) {
            (Some(lower_bound), Some(upper_bound)) => {
                self.lower_bound = lower_bound;
                self.upper_bound = upper_bound;
            },
            _ => {
                self.lower_bound = 0;
                self.upper_bound = 0;
            },
        }
    }
}

} // verus!
