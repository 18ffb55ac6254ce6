//! The catch-up worker of one chain as a state machine: it is told what
//! happened and answers what to do next. Whoever drives it talks to the
//! node, runs the block processor and writes to the stores.

use vstd::prelude::*;

verus! {

/// The pause between two rounds, in milliseconds.
pub const SLEEP: u64 = 10;

/// What the worker needs to know of a block.
#[derive(Clone, Copy, Debug, PartialEq, Eq, Structural)]
pub struct BlockSummary {
    pub number: u64,
    pub timestamp: i64,
    pub tx_count: u64,
}

/// The counts that the block processor returns.
#[derive(Clone, Copy, Debug, PartialEq, Eq, Structural)]
pub struct BlockCounts {
    pub total: u64,
    pub failed: u64,
    pub native: u64,
    pub cross_chain: u64,
}

/// What the worker is waiting for.
#[derive(Clone, Copy, Debug, PartialEq, Eq, Structural)]
pub enum Phase {
    /// The node's height.
    ReadingHead,
    /// The end of the pause after the node's height could not be read.
    RetryingHead,
    /// The block at `query_param`.
    Fetching,
    /// The processor's counts for the block.
    Processing(BlockSummary),
    /// The outcome of the analytics write of the block.
    Writing(BlockSummary, BlockCounts),
    /// The end of the pause before the next block.
    Resting,
}

/// The state of a worker.
#[derive(Clone, Copy, Debug, PartialEq, Eq, Structural)]
pub struct Worker {
    /// The number of the block that was last taken up.
    pub indexer_block_height: u64,
    /// The number of the block to ask the node for.
    pub query_param: u64,
    /// The highest block number seen, from the node's height and the
    /// blocks fetched since it was read.
    pub validator_max_height: u64,
    pub phase: Phase,
}

/// What a fetch of a block gave.
#[derive(Clone, Copy, Debug, PartialEq, Eq, Structural)]
pub enum Fetched {
    /// The node failed.
    Failed,
    /// The node has not produced the block yet.
    Absent,
    Present(BlockSummary),
}

/// What happened.
#[derive(Clone, Copy, Debug, PartialEq, Eq, Structural)]
pub enum Event {
    /// The node's height was read, or could not be.
    Head(Option<u64>),
    /// A block was asked for.
    Block(Fetched),
    /// The processor returned counts, or failed.
    Processed(Option<BlockCounts>),
    /// The analytics write succeeded, or failed.
    Written(bool),
    /// A pause ended.
    Woke,
}

/// The analytics write of one block.
#[derive(Clone, Copy, Debug, PartialEq, Eq, Structural)]
pub struct BlockWrite {
    pub timestamp: i64,
    pub successful_xfers: u64,
    pub total_xfers: u64,
    pub total_native_transfers: u64,
    pub total_x_chain_transfers: u64,
    pub tx_count: u64,
    pub height: u64,
}

/// What to do next.
#[derive(Clone, Copy, Debug, PartialEq, Eq, Structural)]
pub enum Action {
    /// Read the node's height.
    ReadHead,
    /// Ask the node for the block with this number.
    FetchBlock(u64),
    /// Run the block processor on the block that was just fetched.
    ProcessBlock(BlockSummary),
    /// Write the block to the analytics store.
    AddBlock(BlockWrite),
    /// Pause for this many milliseconds.
    Sleep(u64),
}

/// The analytics write of a block with the processor's counts: the
/// successful transfers are the total less the failed ones, and never
/// negative.
pub open spec fn block_write(block: BlockSummary, counts: BlockCounts) -> BlockWrite {
    BlockWrite {
        timestamp: block.timestamp,
        successful_xfers: if counts.total >= counts.failed {
            (counts.total - counts.failed) as u64
        } else {
            0
        },
        total_xfers: counts.total,
        total_native_transfers: counts.native,
        total_x_chain_transfers: counts.cross_chain,
        tx_count: block.tx_count,
        height: block.number,
    }
}

/// One more than `n`, or `n` at the end of the range.
pub open spec fn following(n: u64) -> u64 {
    if n == u64::MAX {
        n
    } else {
        (n + 1) as u64
    }
}

/// Where a worker begins: at the configured start height, else at the
/// height that analytics has recorded, else at zero. It first reads the
/// node's height, and the first block it asks for is the one after its
/// height, or block zero where it begins from nothing.
pub open spec fn started(
    indexer_start_height: Option<u64>,
    recorded_height: Option<u64>,
) -> Worker {
    let (height, query) = match indexer_start_height {
        Some(ht) => (ht, (ht + 1) as u64),
        None => match recorded_height {
            Some(ht) => (ht, (ht + 1) as u64),
            None => (0u64, 0u64),
        },
    };
    Worker {
        indexer_block_height: height,
        query_param: query,
        validator_max_height: 0,
        phase: Phase::ReadingHead,
    }
}

/// What the worker asks for while it waits: the action that an event it
/// does not wait for is answered with.
pub open spec fn demand(worker: Worker) -> Action {
    match worker.phase {
        Phase::ReadingHead => Action::ReadHead,
        Phase::RetryingHead => Action::Sleep(SLEEP),
        Phase::Fetching => Action::FetchBlock(worker.query_param),
        Phase::Processing(block) => Action::ProcessBlock(block),
        Phase::Writing(block, counts) => Action::AddBlock(block_write(block, counts)),
        Phase::Resting => Action::Sleep(SLEEP),
    }
}

/// The worker after an event, and what it does next.
///
/// The node's height is read again after every failure of the node, the
/// processor or the write. A block that the node does not have yet is
/// asked for again at once. A block that is there raises the highest
/// number seen; it is taken up unless the worker's height is not zero
/// and equals that number. After a block was written or passed over,
/// the worker pauses and goes on to the block after its height.
pub open spec fn next(worker: Worker, event: Event) -> (Worker, Action) {
    match (worker.phase, event) {
        (Phase::ReadingHead, Event::Head(Some(height))) => (
            Worker { validator_max_height: height, phase: Phase::Fetching, ..worker },
            Action::FetchBlock(worker.query_param),
        ),
        (Phase::ReadingHead, Event::Head(None)) => (
            Worker { phase: Phase::RetryingHead, ..worker },
            Action::Sleep(SLEEP),
        ),
        (Phase::RetryingHead, Event::Woke) => (
            Worker { phase: Phase::ReadingHead, ..worker },
            Action::ReadHead,
        ),
        (Phase::Fetching, Event::Block(Fetched::Failed)) => (
            Worker { phase: Phase::ReadingHead, ..worker },
            Action::ReadHead,
        ),
        (Phase::Fetching, Event::Block(Fetched::Absent)) => (
            worker,
            Action::FetchBlock(worker.query_param),
        ),
        (Phase::Fetching, Event::Block(Fetched::Present(block))) => {
            let seen = if block.number > worker.validator_max_height {
                block.number
            } else {
                worker.validator_max_height
            };
            if worker.indexer_block_height == 0 || worker.indexer_block_height != seen {
                (
                    Worker {
                        indexer_block_height: block.number,
                        validator_max_height: seen,
                        phase: Phase::Processing(block),
                        ..worker
                    },
                    Action::ProcessBlock(block),
                )
            } else {
                (
                    Worker {
                        query_param: following(worker.indexer_block_height),
                        validator_max_height: seen,
                        phase: Phase::Resting,
                        ..worker
                    },
                    Action::Sleep(SLEEP),
                )
            }
        },
        (Phase::Processing(block), Event::Processed(Some(counts))) => (
            Worker { phase: Phase::Writing(block, counts), ..worker },
            Action::AddBlock(block_write(block, counts)),
        ),
        (Phase::Processing(_), Event::Processed(None)) => (
            Worker { phase: Phase::ReadingHead, ..worker },
            Action::ReadHead,
        ),
        (Phase::Writing(_, _), Event::Written(true)) => (
            Worker {
                query_param: following(worker.indexer_block_height),
                phase: Phase::Resting,
                ..worker
            },
            Action::Sleep(SLEEP),
        ),
        (Phase::Writing(_, _), Event::Written(false)) => (
            Worker { phase: Phase::ReadingHead, ..worker },
            Action::ReadHead,
        ),
        (Phase::Resting, Event::Woke) => (
            Worker { phase: Phase::Fetching, ..worker },
            Action::FetchBlock(worker.query_param),
        ),
        _ => (worker, demand(worker)),
    }
}

/// Sets a worker up. Returns the worker and its first action, which is
/// to read the node's height.
pub fn start(indexer_start_height: Option<u64>, recorded_height: Option<u64>) -> (begun: (
    Worker,
    Action,
))
    requires
        indexer_start_height != Some(u64::MAX),
        indexer_start_height is None ==> recorded_height != Some(u64::MAX),
    ensures
        begun.0 == started(indexer_start_height, recorded_height),
        begun.1 == Action::ReadHead,
{
    let (height, query): (u64, u64) = match indexer_start_height {
        Some(ht) => (ht, ht + 1),
        None => match recorded_height {
            Some(ht) => (ht, ht + 1),
            None => (0, 0),
        },
    };
    (
        Worker {
            indexer_block_height: height,
            query_param: query,
            validator_max_height: 0,
            phase: Phase::ReadingHead,
        },
        Action::ReadHead,
    )
}

fn write_of(block: BlockSummary, counts: BlockCounts) -> (write: BlockWrite)
    ensures
        write == block_write(block, counts),
{
    BlockWrite {
        timestamp: block.timestamp,
        successful_xfers: counts.total.saturating_sub(counts.failed),
        total_xfers: counts.total,
        total_native_transfers: counts.native,
        total_x_chain_transfers: counts.cross_chain,
        tx_count: block.tx_count,
        height: block.number,
    }
}

fn pending(worker: Worker) -> (action: Action)
    ensures
        action == demand(worker),
{
    match worker.phase {
        Phase::ReadingHead => Action::ReadHead,
        Phase::RetryingHead => Action::Sleep(SLEEP),
        Phase::Fetching => Action::FetchBlock(worker.query_param),
        Phase::Processing(block) => Action::ProcessBlock(block),
        Phase::Writing(block, counts) => Action::AddBlock(write_of(block, counts)),
        Phase::Resting => Action::Sleep(SLEEP),
    }
}

/// Tells the worker what happened. Returns the worker as it is now and
/// what to do next. An event that the worker was not waiting for leaves
/// it as it is and is answered with what it is waiting for.
pub fn step(worker: Worker, event: Event) -> (after: (Worker, Action))
    ensures
        after == next(worker, event),
{
    let mut w = worker;
    match (worker.phase, event) {
        (Phase::ReadingHead, Event::Head(Some(height))) => {
            w.validator_max_height = height;
            w.phase = Phase::Fetching;
            (w, Action::FetchBlock(worker.query_param))
        },
        (Phase::ReadingHead, Event::Head(None)) => {
            w.phase = Phase::RetryingHead;
            (w, Action::Sleep(SLEEP))
        },
        (Phase::RetryingHead, Event::Woke) => {
            w.phase = Phase::ReadingHead;
            (w, Action::ReadHead)
        },
        (Phase::Fetching, Event::Block(Fetched::Failed)) => {
            w.phase = Phase::ReadingHead;
            (w, Action::ReadHead)
        },
        (Phase::Fetching, Event::Block(Fetched::Absent)) => (
            w,
            Action::FetchBlock(worker.query_param),
        ),
        (Phase::Fetching, Event::Block(Fetched::Present(block))) => {
            let seen = if block.number > worker.validator_max_height {
                block.number
            } else {
                worker.validator_max_height
            };
            w.validator_max_height = seen;
            if worker.indexer_block_height == 0 || worker.indexer_block_height != seen {
                w.indexer_block_height = block.number;
                w.phase = Phase::Processing(block);
                (w, Action::ProcessBlock(block))
            } else {
                w.query_param = worker.indexer_block_height.saturating_add(1);
                w.phase = Phase::Resting;
                (w, Action::Sleep(SLEEP))
            }
        },
        (Phase::Processing(block), Event::Processed(Some(counts))) => {
            w.phase = Phase::Writing(block, counts);
            (w, Action::AddBlock(write_of(block, counts)))
        },
        (Phase::Processing(_), Event::Processed(None)) => {
            w.phase = Phase::ReadingHead;
            (w, Action::ReadHead)
        },
        (Phase::Writing(_, _), Event::Written(true)) => {
            w.query_param = worker.indexer_block_height.saturating_add(1);
            w.phase = Phase::Resting;
            (w, Action::Sleep(SLEEP))
        },
        (Phase::Writing(_, _), Event::Written(false)) => {
            w.phase = Phase::ReadingHead;
            (w, Action::ReadHead)
        },
        (Phase::Resting, Event::Woke) => {
            w.phase = Phase::Fetching;
            (w, Action::FetchBlock(worker.query_param))
        },
        _ => (w, pending(worker)),
    }
}

/// The worker after a run of events.
pub open spec fn run(worker: Worker, events: Seq<Event>) -> Worker
    decreases events.len(),
{
    if events.len() == 0 {
        worker
    } else {
        next(run(worker, events.drop_last()), events.last()).0
    }
}

/// The write that an event makes persistent: the one whose success it
/// reports.
pub open spec fn completes(worker: Worker, event: Event) -> Option<BlockWrite> {
    match (worker.phase, event) {
        (Phase::Writing(block, counts), Event::Written(true)) => Some(block_write(block, counts)),
        _ => None,
    }
}

/// The block that an event makes persistent: the one whose analytics
/// write it reports as done.
pub open spec fn persists(worker: Worker, event: Event) -> Option<u64> {
    match completes(worker, event) {
        Some(write) => Some(write.height),
        None => None,
    }
}

/// The analytics writes that a run of events made persistent, in the
/// order in which they were made.
pub open spec fn completed(worker: Worker, events: Seq<Event>) -> Seq<BlockWrite>
    decreases events.len(),
{
    if events.len() == 0 {
        Seq::empty()
    } else {
        let before = completed(worker, events.drop_last());
        match completes(run(worker, events.drop_last()), events.last()) {
            Some(write) => before.push(write),
            None => before,
        }
    }
}

/// The numbers of the blocks that a run of events made persistent, in
/// the order in which they were written.
pub open spec fn persisted(worker: Worker, events: Seq<Event>) -> Seq<u64>
    decreases events.len(),
{
    if events.len() == 0 {
        Seq::empty()
    } else {
        let before = persisted(worker, events.drop_last());
        match persists(run(worker, events.drop_last()), events.last()) {
            Some(number) => before.push(number),
            None => before,
        }
    }
}

/// The persisted numbers are the heights of the completed writes.
pub proof fn lemma_persisted_heights(worker: Worker, events: Seq<Event>)
    ensures
        persisted(worker, events).len() == completed(worker, events).len(),
        forall|a: int|
            0 <= a < persisted(worker, events).len() ==> #[trigger] persisted(worker, events)[a]
                == completed(worker, events)[a].height,
    decreases events.len(),
{
    if events.len() > 0 {
        lemma_persisted_heights(worker, events.drop_last());
    }
}

/// The node answers what it was asked: a block that it hands out has the
/// number that the worker asked for.
pub open spec fn answers_the_question(worker: Worker, event: Event) -> bool {
    match (worker.phase, event) {
        (Phase::Fetching, Event::Block(Fetched::Present(block))) => block.number
            == worker.query_param,
        _ => true,
    }
}

/// The node answers what it was asked throughout a run.
pub open spec fn node_is_truthful(worker: Worker, events: Seq<Event>) -> bool
    decreases events.len(),
{
    events.len() == 0 || (node_is_truthful(worker, events.drop_last()) && answers_the_question(
        run(worker, events.drop_last()),
        events.last(),
    ))
}

/// A worker between blocks: it waits for the node's height, and asks
/// for the block at its height or the one after.
pub open spec fn at_rest(worker: Worker) -> bool {
    &&& worker.phase == Phase::ReadingHead
    &&& (worker.query_param == worker.indexer_block_height || worker.query_param
        == worker.indexer_block_height + 1)
}

/// What holds of a worker throughout a truthful run: it asks for the
/// block at its height or the one after, and a block that it has taken
/// up is the block it asked for.
pub open spec fn coherent(worker: Worker) -> bool {
    &&& (worker.query_param == worker.indexer_block_height || worker.query_param
        == worker.indexer_block_height + 1)
    &&& match worker.phase {
        Phase::Processing(block) => block.number == worker.query_param && block.number
            == worker.indexer_block_height,
        Phase::Writing(block, _) => block.number == worker.query_param && block.number
            == worker.indexer_block_height,
        _ => true,
    }
}

/// The worker has left the written blocks behind: the block it asks for
/// next lies above every block written. The one exception is the last
/// block of the range, which has no block above it: once it is written,
/// the worker stays at it and takes no block up again.
pub open spec fn left_behind(worker: Worker, written: Seq<u64>) -> bool {
    forall|a: int|
        0 <= a < written.len() ==> (#[trigger] written[a]) < worker.query_param || (a
            == written.len() - 1 && written[a] == u64::MAX && worker.indexer_block_height
            == u64::MAX && worker.query_param == u64::MAX && !(worker.phase is Processing)
            && !(worker.phase is Writing))
}

/// As long as the node answers what it was asked, the blocks that one
/// worker makes persistent have strictly increasing numbers, none below
/// the block it first asked for, and the worker never goes back: it has
/// left the written blocks behind, the block it asks for next is never
/// below the one it asked for before, and its height never falls.
pub proof fn lemma_heights_increase(worker: Worker, events: Seq<Event>)
    requires
        at_rest(worker),
        node_is_truthful(worker, events),
    ensures
        forall|a: int, b: int|
            0 <= a < b < persisted(worker, events).len() ==> persisted(worker, events)[a]
                < persisted(worker, events)[b],
        forall|a: int|
            0 <= a < persisted(worker, events).len() ==> worker.query_param <= #[trigger] persisted(
                worker,
                events,
            )[a] <= run(worker, events).indexer_block_height,
        left_behind(run(worker, events), persisted(worker, events)),
        run(worker, events).query_param >= worker.query_param,
        run(worker, events).indexer_block_height >= worker.indexer_block_height,
        coherent(run(worker, events)),
    decreases events.len(),
{
    if events.len() > 0 {
        let earlier = events.drop_last();
        lemma_heights_increase(worker, earlier);
        let w = run(worker, earlier);
        let event = events.last();
        let before = persisted(worker, earlier);
        let after = persisted(worker, events);
        let then = run(worker, events);
        assert(then == next(w, event).0);
        assert(answers_the_question(w, event));
        assert(then.query_param >= w.query_param);
        assert(then.indexer_block_height >= w.indexer_block_height);
        assert(coherent(then));
        match persists(w, event) {
            Some(number) => {
                assert(after == before.push(number));
                assert(number == w.query_param);
                assert(number == w.indexer_block_height);
                assert forall|a: int| 0 <= a < before.len() implies before[a] < number by {
                    assert(before[a] < w.query_param);
                }
                assert forall|a: int, b: int| 0 <= a < b < after.len() implies after[a]
                    < after[b] by {
                    if b == before.len() {
                        assert(after[a] == before[a]);
                    } else {
                        assert(after[a] == before[a] && after[b] == before[b]);
                    }
                }
                assert forall|a: int| 0 <= a < after.len() implies worker.query_param
                    <= #[trigger] after[a] <= then.indexer_block_height by {
                    if a < before.len() {
                        assert(after[a] == before[a]);
                    }
                }
                assert forall|a: int| 0 <= a < after.len() implies (#[trigger] after[a])
                    < then.query_param || (a == after.len() - 1 && after[a] == u64::MAX
                    && then.indexer_block_height == u64::MAX && then.query_param == u64::MAX
                    && !(then.phase is Processing) && !(then.phase is Writing)) by {
                    if a < before.len() {
                        assert(after[a] == before[a]);
                        assert(before[a] < number);
                    }
                }
            },
            None => {
                assert(after == before);
                assert forall|a: int| 0 <= a < after.len() implies (#[trigger] after[a])
                    < then.query_param || (a == after.len() - 1 && after[a] == u64::MAX
                    && then.indexer_block_height == u64::MAX && then.query_param == u64::MAX
                    && !(then.phase is Processing) && !(then.phase is Writing)) by {
                    assert(before[a] < w.query_param || (a == before.len() - 1 && before[a]
                        == u64::MAX && w.indexer_block_height == u64::MAX && w.query_param
                        == u64::MAX && !(w.phase is Processing) && !(w.phase is Writing)));
                }
            },
        }
    }
}

/// A worker that was just set up is between blocks.
pub proof fn lemma_started_at_rest(indexer_start_height: Option<u64>, recorded_height: Option<u64>)
    requires
        indexer_start_height != Some(u64::MAX),
        indexer_start_height is None ==> recorded_height != Some(u64::MAX),
    ensures
        at_rest(started(indexer_start_height, recorded_height)),
{
}

} // verus!
