//! The task that feeds the cache: what it looks up, and what it does with each event.

use crate::cache::{BlockWithReceipts, FeeHistoryCache};
use crate::laws::{law_inserting_nothing, law_missing_is_exact};
use crate::outcomes::caching::{
    can_go_in, is_insertion, lemma_can_go_in, lemma_is_insertion,
};
use crate::run::{Run, Turn};
use crate::task::{NewBlocksTask, TaskAction, TaskEvent};
use vstd::prelude::*;

verus! {

/// A new task has nothing to fetch.
pub proof fn law_new_task(task: NewBlocksTask)
    requires
        call_ensures(NewBlocksTask::new, (), task),
    ensures
        task@.missing_blocks.len() == 0,
        !task@.fetching,
        task@.lookup is Open,
{
}

/// The first of the missing blocks is handed out, and is off the list from then on. None is handed
/// out, and nothing changes, exactly if none is missing, one is being fetched, or one was handed
/// out since the last event.
pub proof fn law_missing_blocks_are_handed_out_in_turn()
    ensures
        forall|task: &mut NewBlocksTask|
            #![trigger call_requires(NewBlocksTask::next_missing_block, (task,))]
            call_requires(NewBlocksTask::next_missing_block, (task,)),
        forall|task: &mut NewBlocksTask, number: Option<u64>| #[trigger]
            call_ensures(NewBlocksTask::next_missing_block, (task,), number) ==> match number {
                Some(number) => {
                    &&& !(*task)@.fetching
                    &&& (*task)@.lookup is Open
                    &&& (*task)@.missing_blocks == seq![number] + final(task)@.missing_blocks
                    &&& final(task)@.lookup is Pending
                    &&& !final(task)@.fetching
                },
                None => {
                    &&& (*task)@.fetching || !((*task)@.lookup is Open) || (
                    *task)@.missing_blocks.len() == 0
                    &&& final(task)@ == (*task)@
                },
            },
{
    assert forall|task: &mut NewBlocksTask, number: Option<u64>| #[trigger]
        call_ensures(NewBlocksTask::next_missing_block, (task,), number) && number
            is Some implies (*task)@.missing_blocks == seq![number->0]
        + final(task)@.missing_blocks by {
        assert((*task)@.missing_blocks =~= seq![number->0] + final(task)@.missing_blocks);
    }
}

/// A block that was handed out is fetched exactly if its hash was found; either way no other one
/// is handed out before the next event. Without a block handed out nothing is fetched, and nothing
/// changes.
pub proof fn law_found_blocks_are_fetched()
    ensures
        forall|task: &mut NewBlocksTask, found: bool, fetch: bool| #[trigger]
            call_ensures(NewBlocksTask::hash_looked_up, (task, found), fetch) ==> {
                &&& final(task)@.missing_blocks == (*task)@.missing_blocks
                &&& (*task)@.lookup is Pending ==> {
                    &&& fetch == found
                    &&& final(task)@.fetching == found
                    &&& final(task)@.lookup is Made
                }
                &&& !((*task)@.lookup is Pending) ==> !fetch && final(task)@ == (*task)@
            },
{
}

/// Whether `blocks` are the blocks that an event brings in.
pub open spec fn brings<H>(event: TaskEvent<H>, blocks: Seq<BlockWithReceipts<H>>) -> bool {
    match event {
        TaskEvent::Fetched(Some(block)) => blocks.len() == 1 && blocks[0] == block,
        TaskEvent::Committed(committed) => blocks == committed@,
        _ => blocks.len() == 0,
    }
}

/// The task goes on after every event but the end of the stream.
pub proof fn law_task_stops_at_the_end_of_the_stream<H>()
    ensures
        forall|
            task: &mut NewBlocksTask,
            cache: &mut FeeHistoryCache<H>,
            event: TaskEvent<H>,
            action: TaskAction,
        | #[trigger]
            call_ensures(NewBlocksTask::handle::<H>, (task, cache, event), action) ==> (action
                is Stop <==> event is StreamEnded) && (action is Continue <==> event is Fetched
                || event is FetchFailed || event is Committed),
{
}

/// The blocks that an event brings in are inserted into the cache; an event that brings in none
/// leaves the cache as it is.
pub proof fn law_events_feed_the_cache<H>()
    ensures
        forall|
            task: &mut NewBlocksTask,
            cache: &mut FeeHistoryCache<H>,
            event: TaskEvent<H>,
            action: TaskAction,
            blocks: Seq<BlockWithReceipts<H>>,
        |
            #![trigger call_ensures(NewBlocksTask::handle::<H>, (task, cache, event), action),
                brings(event, blocks)]
            call_ensures(NewBlocksTask::handle::<H>, (task, cache, event), action) && brings(
                event,
                blocks,
            ) && (*cache)@.wf() && (forall|i: int|
                0 <= i < blocks.len() ==> can_go_in(#[trigger] blocks[i], (*cache)@.config)) ==> {
                &&& is_insertion((*cache)@, blocks, final(cache)@)
                &&& final(cache)@.wf()
                &&& blocks.len() == 0 ==> final(cache)@ == (*cache)@
            },
{
    assert forall|
        task: &mut NewBlocksTask,
        cache: &mut FeeHistoryCache<H>,
        event: TaskEvent<H>,
        action: TaskAction,
        blocks: Seq<BlockWithReceipts<H>>,
    |
        #![trigger call_ensures(NewBlocksTask::handle::<H>, (task, cache, event), action),
            brings(event, blocks)]
        call_ensures(NewBlocksTask::handle::<H>, (task, cache, event), action) && brings(
            event,
            blocks,
        ) && (*cache)@.wf() && (forall|i: int|
            0 <= i < blocks.len() ==> can_go_in(#[trigger] blocks[i], (*cache)@.config)) implies {
        &&& is_insertion((*cache)@, blocks, final(cache)@)
        &&& final(cache)@.wf()
        &&& blocks.len() == 0 ==> final(cache)@ == (*cache)@
    } by {
        assert(event.blocks() =~= blocks);
        lemma_is_insertion((*cache)@, blocks);
        if blocks.len() == 0 {
            assert(blocks =~= Seq::empty());
            law_inserting_nothing((*cache)@);
        }
    }
}

/// Committed blocks renew the list of missing blocks: it holds the numbers within the bounds of
/// the cache, as the commit left it, that are not cached, highest first. No other event changes
/// the list. A fetch goes on until it ends, and before the next event another block may be handed
/// out, unless the stream has ended.
pub proof fn law_events_move_the_task<H>()
    ensures
        forall|
            task: &mut NewBlocksTask,
            cache: &mut FeeHistoryCache<H>,
            event: TaskEvent<H>,
            action: TaskAction,
        | #[trigger]
            call_ensures(NewBlocksTask::handle::<H>, (task, cache, event), action) ==> {
                &&& final(task)@.fetching == ((*task)@.fetching && !(event is Fetched || event
                    is FetchFailed))
                &&& final(task)@.lookup is Open <==> !(event is StreamEnded)
                &&& !(final(task)@.lookup is Pending)
                &&& event is Committed && final(cache)@.wf() ==> {
                    &&& forall|n: u64| #[trigger]
                        final(task)@.missing_blocks.contains(n) <==> final(cache)@.lower_bound <= n
                            <= final(cache)@.upper_bound && !final(cache)@.entries.contains_key(n)
                    &&& forall|i: int, j: int|
                        0 <= i < j < final(task)@.missing_blocks.len()
                            ==> final(task)@.missing_blocks[i] > final(task)@.missing_blocks[j]
                }
                &&& !(event is Committed) ==> final(task)@.missing_blocks == (*task)@.missing_blocks
            },
{
    assert forall|
        task: &mut NewBlocksTask,
        cache: &mut FeeHistoryCache<H>,
        event: TaskEvent<H>,
        action: TaskAction,
    | #[trigger]
        call_ensures(NewBlocksTask::handle::<H>, (task, cache, event), action) && event is Committed
            && final(cache)@.wf() implies {
        &&& forall|n: u64| #[trigger]
            final(task)@.missing_blocks.contains(n) <==> final(cache)@.lower_bound <= n
                <= final(cache)@.upper_bound && !final(cache)@.entries.contains_key(n)
        &&& forall|i: int, j: int|
            0 <= i < j < final(task)@.missing_blocks.len() ==> final(task)@.missing_blocks[i]
                > final(task)@.missing_blocks[j]
    } by {
        law_missing_is_exact(final(cache)@);
    }
}

/// Every event can be handled whose blocks can go into the cache.
pub proof fn law_events_can_be_handled<H>()
    ensures
        forall|task: &mut NewBlocksTask, cache: &mut FeeHistoryCache<H>, event: TaskEvent<H>|
            #![trigger call_requires(NewBlocksTask::handle::<H>, (task, cache, event))]
            (*cache)@.wf() && (forall|blocks: Seq<BlockWithReceipts<H>>, i: int|
                #![trigger brings(event, blocks), blocks[i]]
                brings(event, blocks) && 0 <= i < blocks.len() ==> can_go_in(
                    blocks[i],
                    (*cache)@.config,
                )) ==> call_requires(NewBlocksTask::handle::<H>, (task, cache, event)),
{
    assert forall|task: &mut NewBlocksTask, cache: &mut FeeHistoryCache<H>, event: TaskEvent<H>|
        #![trigger call_requires(NewBlocksTask::handle::<H>, (task, cache, event))]
        (*cache)@.wf() && (forall|blocks: Seq<BlockWithReceipts<H>>, i: int|
            #![trigger brings(event, blocks), blocks[i]]
            brings(event, blocks) && 0 <= i < blocks.len() ==> can_go_in(
                blocks[i],
                (*cache)@.config,
            )) implies call_requires(NewBlocksTask::handle::<H>, (task, cache, event)) by {
        assert(brings(event, event.blocks()));
        assert forall|i: int| 0 <= i < event.blocks().len() implies (
        #[trigger] event.blocks()[i]).is_valid((*cache)@.config) by {
            lemma_can_go_in(event.blocks()[i], (*cache)@.config);
        }
    }
}

/// A turn of a run is what the operations of the task do, one after the other: a missing block is
/// handed out, its lookup is taken note of where there was one, and the event is handled.
pub proof fn law_turn_is_made_of_calls<H>(run: Run<H>)
    requires
        !(run.task.lookup is Pending),
    ensures
        forall|
            first: &mut NewBlocksTask,
            number: Option<u64>,
            second: &mut NewBlocksTask,
            found: bool,
            fetch: bool,
            third: &mut NewBlocksTask,
            cache: &mut FeeHistoryCache<H>,
            event: TaskEvent<H>,
            action: TaskAction,
        |
            #![trigger call_ensures(NewBlocksTask::next_missing_block, (first,), number),
                call_ensures(NewBlocksTask::hash_looked_up, (second, found), fetch),
                call_ensures(NewBlocksTask::handle::<H>, (third, cache, event), action)]
            {
                &&& call_ensures(NewBlocksTask::next_missing_block, (first,), number)
                &&& call_ensures(NewBlocksTask::hash_looked_up, (second, found), fetch)
                &&& call_ensures(NewBlocksTask::handle::<H>, (third, cache, event), action)
                &&& run.task == (*first)@
                &&& run.cache == (*cache)@
                &&& number is Some ==> final(first)@ == (*second)@ && final(second)@ == (*third)@
                &&& number is None ==> final(first)@ == (*third)@
            } ==> {
                let next = run.turn(Turn { found, event });
                &&& next.task == final(third)@
                &&& next.cache == final(cache)@
                &&& next.stopped <==> action is Stop
                &&& next.lookups == (match number {
                    Some(number) => run.lookups.push(number),
                    None => run.lookups,
                })
                &&& number is Some ==> fetch == found
            },
{
}

} // verus!
