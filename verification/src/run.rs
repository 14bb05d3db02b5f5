//! Runs of the task that feeds new blocks into the fee history cache: what holds of it over
//! several turns.

use crate::cache::{law_insert_keeps_invariant, BlockWithReceipts, CacheView};
use crate::laws::{
    all_valid, consecutive, law_all_missing_blocks_complete_the_cache,
    law_consecutive_blocks_leave_no_gap, law_insert_in_batches, law_inserting_nothing,
};
use crate::task::{Lookup, TaskEvent, TaskView};
use vstd::prelude::*;

verus! {

/// A turn of the task: what the outside world has to say in it.
pub struct Turn<H> {
    /// Whether the hash of the block that is handed out is found, where one is.
    pub found: bool,
    /// The event that ends the turn.
    pub event: TaskEvent<H>,
}

/// A task at work on a cache, between two turns.
#[verifier::ext_equal]
pub struct Run<H> {
    /// The state of the task.
    pub task: TaskView,
    /// The cache.
    pub cache: CacheView<H>,
    /// The numbers of the blocks that were looked up so far, in order.
    pub lookups: Seq<u64>,
    /// Whether the task is done.
    pub stopped: bool,
}

impl<H> Run<H> {
    /// A new task that starts to work on a cache.
    pub open spec fn start(cache: CacheView<H>) -> Run<H> {
        Run { task: TaskView::initial(), cache, lookups: Seq::empty(), stopped: false }
    }

    /// The run after one more turn: the next missing block, if there is one, is handed out and
    /// looked up, then the event is handled. These are the calls of
    /// [`next_missing_block`](crate::task::NewBlocksTask::next_missing_block),
    /// [`hash_looked_up`](crate::task::NewBlocksTask::hash_looked_up) and
    /// [`handle`](crate::task::NewBlocksTask::handle), in this order.
    pub open spec fn turn(self, turn: Turn<H>) -> Run<H> {
        let cache = self.cache.insert(turn.event.blocks());
        Run {
            task: self.task.handed_out().looked_up(turn.found).after(turn.event, cache),
            cache,
            lookups: match self.task.next_missing() {
                Some(number) => self.lookups.push(number),
                None => self.lookups,
            },
            stopped: turn.event.action() is Stop,
        }
    }

    /// The run after several turns.
    pub open spec fn turns(self, turns: Seq<Turn<H>>) -> Run<H>
        decreases turns.len(),
    {
        if turns.len() == 0 {
            self
        } else {
            self.turns(turns.drop_last()).turn(turns.last())
        }
    }
}

/// All the blocks that the events of several turns bring in, in order.
pub open spec fn brought_in<H>(turns: Seq<Turn<H>>) -> Seq<BlockWithReceipts<H>>
    decreases turns.len(),
{
    if turns.len() == 0 {
        Seq::empty()
    } else {
        brought_in(turns.drop_last()) + turns.last().event.blocks()
    }
}

/// At most one block is looked up before the next event, whether its hash is found or not, and
/// none while a block is being fetched.
pub proof fn law_one_lookup_per_turn(task: TaskView, found: bool)
    ensures
        task.handed_out().next_missing() is None,
        task.handed_out().looked_up(found).next_missing() is None,
        task.fetching ==> task.next_missing() is None,
        task.next_missing() is Some ==> task.handed_out().looked_up(found).fetching == found,
{
}

/// A run leaves the cache as one insertion of all the blocks that were brought in would, whether
/// they were committed or fetched.
pub proof fn law_run_is_one_insertion<H>(run: Run<H>, turns: Seq<Turn<H>>)
    requires
        run.cache.wf(),
    ensures
        run.turns(turns).cache == run.cache.insert(brought_in(turns)),
        all_valid(run.cache, brought_in(turns)) ==> run.turns(turns).cache.wf(),
    decreases turns.len(),
{
    if turns.len() == 0 {
        law_inserting_nothing(run.cache);
    } else {
        let before = turns.drop_last();
        law_run_is_one_insertion(run, before);
        law_insert_in_batches(run.cache, brought_in(before), turns.last().event.blocks());
    }
    if all_valid(run.cache, brought_in(turns)) {
        law_insert_keeps_invariant(run.cache, brought_in(turns));
    }
}

/// The task stops exactly at the end of the stream: neither committed nor fetched blocks, nor a
/// fetch that failed, end it.
pub proof fn law_run_stops_at_the_end_of_the_stream<H>(run: Run<H>, turns: Seq<Turn<H>>)
    requires
        turns.len() > 0,
    ensures
        run.turns(turns).stopped <==> turns.last().event is StreamEnded,
{
}

/// While committed blocks with consecutive numbers come into an empty cache, none is missing
/// after any of them, and the task stays as it was at the start.
proof fn lemma_consecutive_commits<H>(cache: CacheView<H>, turns: Seq<Turn<H>>)
    requires
        cache.wf(),
        cache.entries.len() == 0,
        forall|i: int| 0 <= i < turns.len() ==> (#[trigger] turns[i]).event is Committed,
        all_valid(cache, brought_in(turns)),
        consecutive(brought_in(turns)),
        turns.len() > 0 ==> cache.config.max_blocks > 0,
        turns.len() > 0 ==> turns[0].event.blocks().len() > 0,
    ensures
        Run::start(cache).turns(turns).task == TaskView::initial(),
        Run::start(cache).turns(turns).lookups == Seq::<u64>::empty(),
        !Run::start(cache).turns(turns).stopped,
        turns.len() > 0 ==> brought_in(turns).len() > 0,
        turns.len() > 0 ==> Run::start(cache).turns(turns).cache.missing() == Seq::<u64>::empty(),
    decreases turns.len(),
{
    if turns.len() > 0 {
        let before = turns.drop_last();
        let earlier = brought_in(before);
        let all = brought_in(turns);
        assert(forall|i: int| 0 <= i < before.len() ==> before[i] == turns[i]);
        assert(forall|i: int| 0 <= i < earlier.len() ==> earlier[i] == all[i]);
        assert(turns.last() == turns[turns.len() - 1]);
        lemma_consecutive_commits(cache, before);
        law_run_is_one_insertion(Run::start(cache), turns);
        law_consecutive_blocks_leave_no_gap(cache, all);
    }
}

proof fn lemma_prefix<H>(turns: Seq<Turn<H>>, k: int)
    requires
        0 <= k <= turns.len(),
    ensures
        brought_in(turns.take(k)).is_prefix_of(brought_in(turns)),
    decreases turns.len(),
{
    if k < turns.len() {
        lemma_prefix(turns.drop_last(), k);
        assert(turns.drop_last().take(k) =~= turns.take(k));
    } else {
        assert(turns.take(k) =~= turns);
    }
}

/// A run over committed blocks with consecutive numbers, into an empty cache and up to the end of
/// the stream, leaves the cache as one insertion of all the blocks would. It looks up no block,
/// none is missing after any of the commits, and the task is done once the stream has ended.
/// Without commits the cache stays as it is.
///
/// Where a cache may hold no block at all, or the first commit brings none, block 0 is missing
/// after it; both are left out.
pub proof fn law_consecutive_commits_are_one_insertion<H>(
    cache: CacheView<H>,
    turns: Seq<Turn<H>>,
    end: Turn<H>,
)
    requires
        cache.wf(),
        cache.entries.len() == 0,
        forall|i: int| 0 <= i < turns.len() ==> (#[trigger] turns[i]).event is Committed,
        all_valid(cache, brought_in(turns)),
        consecutive(brought_in(turns)),
        turns.len() > 0 ==> cache.config.max_blocks > 0,
        turns.len() > 0 ==> turns[0].event.blocks().len() > 0,
        end.event is StreamEnded,
    ensures
        forall|k: int|
            0 < k <= turns.len() ==> (#[trigger] Run::start(cache).turns(
                turns.take(k),
            )).cache.missing() == Seq::<u64>::empty(),
        !Run::start(cache).turns(turns).stopped,
        Run::start(cache).turns(turns).turn(end) == (Run {
            task: TaskView { lookup: Lookup::Made, ..TaskView::initial() },
            cache: cache.insert(brought_in(turns)),
            lookups: Seq::empty(),
            stopped: true,
        }),
        turns.len() == 0 ==> cache.insert(brought_in(turns)) == cache,
{
    let start = Run::start(cache);
    assert forall|k: int| 0 < k <= turns.len() implies (#[trigger] start.turns(
        turns.take(k),
    )).cache.missing() == Seq::<u64>::empty() by {
        let some = turns.take(k);
        lemma_prefix(turns, k);
        assert(forall|i: int| 0 <= i < some.len() ==> some[i] == turns[i]);
        assert(forall|i: int|
            0 <= i < brought_in(some).len() ==> brought_in(some)[i] == brought_in(turns)[i]);
        lemma_consecutive_commits(cache, some);
    }
    lemma_consecutive_commits(cache, turns);
    law_run_is_one_insertion(start, turns);
    law_inserting_nothing(cache);
    law_inserting_nothing(start.turns(turns).cache);
}

/// Between two commits blocks are looked up in the order in which the cache missed them right
/// after the first one: those looked up and those still on the list are together the missing
/// blocks.
pub proof fn law_lookups_follow_the_last_commit<H>(
    run: Run<H>,
    commit: Turn<H>,
    turns: Seq<Turn<H>>,
)
    requires
        commit.event is Committed,
        forall|i: int| 0 <= i < turns.len() ==> !((#[trigger] turns[i]).event is Committed),
    ensures
        ({
            let committed = run.turn(commit);
            let later = committed.turns(turns);
            let since = later.lookups.skip(committed.lookups.len() as int);
            &&& committed.lookups.is_prefix_of(later.lookups)
            &&& since.is_prefix_of(committed.cache.missing())
            &&& since + later.task.missing_blocks == committed.cache.missing()
            &&& since.len() <= turns.len()
        }),
    decreases turns.len(),
{
    let committed = run.turn(commit);
    let from = committed.lookups.len() as int;
    let missing = committed.cache.missing();
    if turns.len() == 0 {
        assert(committed.lookups.skip(from) =~= Seq::<u64>::empty());
        assert(Seq::<u64>::empty() + missing =~= missing);
    } else {
        let before = turns.drop_last();
        assert(forall|i: int| 0 <= i < before.len() ==> before[i] == turns[i]);
        assert(!(turns[turns.len() - 1].event is Committed));
        law_lookups_follow_the_last_commit(run, commit, before);
        let earlier = committed.turns(before);
        let later = committed.turns(turns);
        let since = earlier.lookups.skip(from);
        match earlier.task.next_missing() {
            Some(number) => {
                assert(later.lookups.skip(from) =~= since.push(number));
                assert(since.push(number) + earlier.task.missing_blocks.drop_first() =~= since
                    + earlier.task.missing_blocks);
            },
            None => {},
        }
    }
    let since = committed.turns(turns).lookups.skip(from);
    assert(missing.take(since.len() as int) =~= since);
}

/// Each turn finds the hash of the block that is handed out and fetches the block with that
/// number, in the order of `numbers`.
pub open spec fn all_fetched<H>(turns: Seq<Turn<H>>, numbers: Seq<u64>) -> bool {
    &&& turns.len() == numbers.len()
    &&& forall|i: int|
        0 <= i < turns.len() ==> {
            &&& (#[trigger] turns[i]).found
            &&& turns[i].event matches TaskEvent::Fetched(Some(block))
            &&& block.block.header.number == numbers[i]
        }
}

proof fn lemma_fetch_all<H>(run: Run<H>, turns: Seq<Turn<H>>, numbers: Seq<u64>)
    requires
        run.task == (TaskView { missing_blocks: numbers, ..TaskView::initial() }),
        turns.len() <= numbers.len(),
        all_fetched(turns, numbers.take(turns.len() as int)),
    ensures
        run.turns(turns).task == (TaskView {
            missing_blocks: numbers.skip(turns.len() as int),
            ..TaskView::initial()
        }),
        run.turns(turns).lookups == run.lookups + numbers.take(turns.len() as int),
        brought_in(turns).len() == turns.len(),
        forall|i: int|
            0 <= i < turns.len() ==> (#[trigger] brought_in(turns)[i]).block.header.number
                == numbers[i],
    decreases turns.len(),
{
    let n = turns.len() as int;
    if n == 0 {
        assert(numbers.skip(0) =~= numbers);
        assert(run.lookups + numbers.take(0) =~= run.lookups);
    } else {
        let before = turns.drop_last();
        assert forall|i: int| 0 <= i < before.len() implies {
            &&& (#[trigger] before[i]).found
            &&& before[i].event matches TaskEvent::Fetched(Some(block))
            &&& block.block.header.number == numbers.take(n - 1)[i]
        } by {
            assert(turns[i].found);
        }
        lemma_fetch_all(run, before, numbers);
        assert(turns[n - 1].found);
        assert(numbers.skip(n - 1).drop_first() =~= numbers.skip(n));
        assert((run.lookups + numbers.take(n - 1)).push(numbers[n - 1]) =~= run.lookups
            + numbers.take(n));
        assert forall|i: int| 0 <= i < n implies (#[trigger] brought_in(
            turns,
        )[i]).block.header.number == numbers[i] by {
            if i < n - 1 {
                assert(brought_in(turns)[i] == brought_in(before)[i]);
            }
        }
    }
}

/// Where every missing block is found and fetched after a commit, each of them is looked up once,
/// highest first, and then none is missing; the upper bound stays, and the task goes on all the
/// while. A cache that may hold no block at all is left out: it always misses block 0.
pub proof fn law_fetches_fill_the_gaps<H>(run: Run<H>, commit: Turn<H>, turns: Seq<Turn<H>>)
    requires
        run.cache.wf(),
        run.cache.config.max_blocks > 0,
        commit.event is Committed,
        all_valid(run.cache, commit.event.blocks()),
        all_valid(run.cache, brought_in(turns)),
        !run.turn(commit).task.fetching,
        all_fetched(turns, run.turn(commit).cache.missing()),
    ensures
        run.turn(commit).turns(turns).cache.missing() == Seq::<u64>::empty(),
        run.turn(commit).turns(turns).cache.upper_bound == run.turn(commit).cache.upper_bound,
        run.turn(commit).turns(turns).task == TaskView::initial(),
        run.turn(commit).turns(turns).lookups == run.turn(commit).lookups + run.turn(
            commit,
        ).cache.missing(),
        forall|k: int|
            0 <= k <= turns.len() ==> !(#[trigger] run.turn(commit).turns(turns.take(k))).stopped,
{
    let committed = run.turn(commit);
    let missing = committed.cache.missing();
    law_insert_keeps_invariant(run.cache, commit.event.blocks());
    assert(missing.take(turns.len() as int) =~= missing);
    assert(missing.skip(turns.len() as int) =~= Seq::<u64>::empty());
    lemma_fetch_all(committed, turns, missing);
    law_run_is_one_insertion(committed, turns);
    law_all_missing_blocks_complete_the_cache(committed.cache, brought_in(turns));
    assert forall|k: int| 0 <= k <= turns.len() implies !(#[trigger] committed.turns(
        turns.take(k),
    )).stopped by {
        if k > 0 {
            assert(turns.take(k).last() == turns[k - 1]);
            law_run_stops_at_the_end_of_the_stream(committed, turns.take(k));
        }
    }
}

} // verus!
