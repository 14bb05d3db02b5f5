//! The decisions of the task that feeds new blocks into the fee history cache.
//!
//! The task listens for new blocks while the node is in live sync and inserts them into the
//! cache. Where blocks are missing in between, because the node was in stage sync, it fetches
//! them one at a time. [`NewBlocksTask`] decides what to look up, what to fetch and what to do with
//! each event; waiting for events, looking up hashes and fetching blocks is left to the caller.
//!
//! The task goes on in turns, and a turn ends with an event. Before the event at most one missing
//! block is looked up, and none while another one is being fetched.

use crate::cache::{BlockWithReceipts, CacheView, FeeHistoryCache};
use std::collections::VecDeque;
use vstd::prelude::*;

verus! {

/// What happens to the task.
#[derive(Debug)]
pub enum TaskEvent<H> {
    /// The fetch of a missing block ended, with the block if it was found.
    Fetched(Option<BlockWithReceipts<H>>),
    /// The fetch of a missing block failed.
    FetchFailed,
    /// Blocks were committed to the chain.
    Committed(Vec<BlockWithReceipts<H>>),
    /// The stream of chain events ended.
    StreamEnded,
}

impl<H> TaskEvent<H> {
    /// The blocks that the event brings in.
    pub open spec fn blocks(self) -> Seq<BlockWithReceipts<H>> {
        match self {
            TaskEvent::Fetched(Some(block)) => seq![block],
            TaskEvent::Committed(blocks) => blocks@,
            _ => Seq::empty(),
        }
    }

    /// What the task does after the event: it goes on until the stream of chain events ends.
    pub open spec fn action(self) -> TaskAction {
        if self is StreamEnded {
            TaskAction::Stop
        } else {
            TaskAction::Continue
        }
    }
}

/// What the task does after an event.
#[derive(Clone, Copy, Debug, PartialEq, Eq)]
pub enum TaskAction {
    /// Wait for the next event.
    Continue,
    /// The task is done.
    Stop,
}

/// How far the lookup of a missing block has come since the last event.
#[derive(Clone, Copy, Debug, PartialEq, Eq)]
pub enum Lookup {
    /// A missing block may be looked up.
    Open,
    /// The hash of a missing block is being looked up.
    Pending,
    /// No other block is looked up before the next event.
    Made,
}

/// The state of the task.
#[derive(Debug)]
pub struct NewBlocksTask {
    /// The missing blocks that are still to be fetched, in order.
    missing_blocks: VecDeque<u64>,
    /// Whether a missing block is being fetched.
    fetching: bool,
    /// The lookup since the last event.
    lookup: Lookup,
}

/// What a [`NewBlocksTask`] holds.
#[verifier::ext_equal]
pub struct TaskView {
    pub missing_blocks: Seq<u64>,
    pub fetching: bool,
    pub lookup: Lookup,
}

impl View for NewBlocksTask {
    type V = TaskView;

    closed spec fn view(&self) -> TaskView {
        TaskView {
            missing_blocks: self.missing_blocks@,
            fetching: self.fetching,
            lookup: self.lookup,
        }
    }
}

impl TaskView {
    /// The state of a new task, with nothing to fetch.
    pub open spec fn initial() -> TaskView {
        TaskView { missing_blocks: Seq::empty(), fetching: false, lookup: Lookup::Open }
    }

    /// The missing block to look up next, if one is to be looked up before the next event.
    pub open spec fn next_missing(self) -> Option<u64> {
        if !self.fetching && self.lookup is Open && self.missing_blocks.len() > 0 {
            Some(self.missing_blocks[0])
        } else {
            None
        }
    }

    /// The state once the next missing block is handed out, if there is one: it is off the list,
    /// whether it can be looked up or not.
    pub open spec fn handed_out(self) -> TaskView {
        if self.next_missing() is Some {
            TaskView {
                missing_blocks: self.missing_blocks.drop_first(),
                lookup: Lookup::Pending,
                ..self
            }
        } else {
            self
        }
    }

    /// The state once a pending lookup is made: a block whose hash was found is being fetched.
    pub open spec fn looked_up(self, found: bool) -> TaskView {
        if self.lookup is Pending {
            TaskView { fetching: found, lookup: Lookup::Made, ..self }
        } else {
            self
        }
    }

    /// The state after an event that left the cache as `cache`: the next turn begins, the end of a
    /// fetch makes room for the next one, and committed blocks renew the list of missing ones.
    /// After the end of the stream nothing more is looked up.
    pub open spec fn after<H>(self, event: TaskEvent<H>, cache: CacheView<H>) -> TaskView {
        match event {
            TaskEvent::Fetched(_) => TaskView { fetching: false, lookup: Lookup::Open, ..self },
            TaskEvent::FetchFailed => TaskView { fetching: false, lookup: Lookup::Open, ..self },
            TaskEvent::Committed(_) => TaskView {
                missing_blocks: cache.missing(),
                lookup: Lookup::Open,
                ..self
            },
            TaskEvent::StreamEnded => TaskView { lookup: Lookup::Made, ..self },
        }
    }
}

impl NewBlocksTask {
    /// Creates the task, with nothing to fetch.
    pub fn new() -> (task: Self)
        ensures
            task@ == TaskView::initial(),
    {
        let task = NewBlocksTask {
            missing_blocks: VecDeque::new(),
            fetching: false,
            lookup: Lookup::Open,
        };
        assert(task@.missing_blocks =~= Seq::empty());
        task
    }

    /// Returns the number of the missing block to look up next, unless one was looked up since the
    /// last event, a block is being fetched already, or none is missing. The number is taken off
    /// the list, whether it can be looked up or not.
    pub fn next_missing_block(&mut self) -> (number: Option<u64>)
        ensures
            number == old(self)@.next_missing(),
            final(self)@ == old(self)@.handed_out(),
    {
        match self.lookup {
            Lookup::Open => {},
            _ => {
                return None;
            },
        }
        if self.fetching {
            return None;
        }
        let ghost before = self@;
        let number = self.missing_blocks.pop_front();
        if number.is_some() {
            self.lookup = Lookup::Pending;
        }
        proof {
            if number is Some {
                assert(self@.missing_blocks =~= before.missing_blocks.drop_first());
            }
        }
        number
    }

    /// Takes whether the hash of the block that was handed out was found, and returns whether the
    /// block is to be fetched. If it was not found, the block is given up.
    pub fn hash_looked_up(&mut self, found: bool) -> (fetch: bool)
        ensures
            fetch == (old(self)@.lookup is Pending && found),
            final(self)@ == old(self)@.looked_up(found),
    {
        match self.lookup {
            Lookup::Pending => {
                self.fetching = found;
                self.lookup = Lookup::Made;
                found
            },
            _ => false,
        }
    }

    /// Handles an event: inserts the blocks that it brings in into the cache, keeps track of the
    /// missing ones, and returns whether the task goes on.
    pub fn handle<H>(
        &mut self,
        cache: &mut FeeHistoryCache<H>,
        event: TaskEvent<H>,
    ) -> (action: TaskAction)
        requires
            old(cache)@.wf(),
            forall|i: int|
                0 <= i < event.blocks().len() ==> (#[trigger] event.blocks()[i]).is_valid(
                    old(cache)@.config,
                ),
        ensures
            final(cache)@ == old(cache)@.insert(event.blocks()),
            final(cache)@.wf(),
            final(self)@ == old(self)@.after(event, final(cache)@),
            action == event.action(),
    {
        proof {
            crate::laws::law_inserting_nothing(cache@);
        }
        let ghost brought_in = event.blocks();
        self.lookup = Lookup::Open;
        match event {
            TaskEvent::Fetched(fetched) => {
                self.fetching = false;
                let mut blocks: Vec<BlockWithReceipts<H>> = Vec::new();
                if let Some(block) = fetched {
                    blocks.push(block);
                }
                assert(blocks@ =~= brought_in);
                cache.insert_blocks(&blocks);
                TaskAction::Continue
            },
            TaskEvent::FetchFailed => {
                self.fetching = false;
                TaskAction::Continue
            },
            TaskEvent::Committed(blocks) => {
                cache.insert_blocks(&blocks);
                self.missing_blocks = cache.missing_consecutive_blocks();
                TaskAction::Continue
            },
            TaskEvent::StreamEnded => {
                self.lookup = Lookup::Made;
                TaskAction::Stop
            },
        }
    }
}

} // verus!
