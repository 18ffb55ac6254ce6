//! What the analytics store holds, and what recording a block does to
//! it: a model of its sets, ordered associations and scalars, and the
//! laws that the writes of a block obey in it.

use crate::cache::{
    add_block_writes, chain_key, lemma_chain_keys_differ, lemma_chain_keys_injective, registry,
    Field, Write,
};
use crate::catchup::{
    at_rest, completed, lemma_heights_increase, lemma_persisted_heights, node_is_truthful,
    persisted, BlockWrite, Event, Worker,
};
use crate::text::decimal;
use vstd::prelude::*;

verus! {

/// What the store holds: sets of texts, ordered associations from a
/// count to the score it was last put under, and scalars.
pub struct Store {
    pub sets: Map<Seq<char>, Set<Seq<char>>>,
    pub series: Map<Seq<char>, Map<nat, int>>,
    pub scalars: Map<Seq<char>, int>,
}

impl Store {
    /// The members of a set; a set that was never written is empty.
    pub open spec fn members(self, set: Seq<char>) -> Set<Seq<char>> {
        if self.sets.dom().contains(set) {
            self.sets[set]
        } else {
            Set::empty()
        }
    }

    /// The entries of an ordered association; one that was never written
    /// is empty.
    pub open spec fn entries(self, key: Seq<char>) -> Map<nat, int> {
        if self.series.dom().contains(key) {
            self.series[key]
        } else {
            Map::empty()
        }
    }

    /// The store after one write.
    pub open spec fn apply(self, write: Write) -> Store {
        match write {
            Write::Register { set, element } => Store {
                sets: self.sets.insert(set, self.members(set).insert(element)),
                ..self
            },
            Write::Append { key, score, member } => Store {
                series: self.series.insert(key, self.entries(key).insert(member, score)),
                ..self
            },
            Write::Put { key, value } => Store { scalars: self.scalars.insert(key, value), ..self },
        }
    }

    /// The store after a list of writes, first to last.
    pub open spec fn run(self, writes: Seq<Write>) -> Store
        decreases writes.len(),
    {
        if writes.len() == 0 {
            self
        } else {
            self.run(writes.drop_last()).apply(writes.last())
        }
    }
}

/// A scalar holds what the last write to it put there.
pub proof fn lemma_last_put_wins(store: Store, writes: Seq<Write>, k: int, key: Seq<char>)
    requires
        0 <= k < writes.len(),
        writes[k] is Put,
        writes[k]->Put_key == key,
        forall|j: int|
            k < j < writes.len() ==> !(#[trigger] writes[j] is Put && writes[j]->Put_key == key),
    ensures
        store.run(writes).scalars.dom().contains(key),
        store.run(writes).scalars[key] == writes[k]->Put_value,
    decreases writes.len(),
{
    if k < writes.len() - 1 {
        let rest = writes.drop_last();
        assert forall|j: int| k < j < rest.len() implies !(#[trigger] rest[j] is Put
            && rest[j]->Put_key == key) by {
            assert(rest[j] == writes[j]);
        }
        lemma_last_put_wins(store, rest, k, key);
        assert(!(writes[writes.len() - 1] is Put && writes[writes.len() - 1]->Put_key == key));
    }
}

/// A count stands in an ordered association under the score of the last
/// write that put it there.
pub proof fn lemma_last_append_wins(
    store: Store,
    writes: Seq<Write>,
    k: int,
    key: Seq<char>,
    member: nat,
)
    requires
        0 <= k < writes.len(),
        writes[k] is Append,
        writes[k]->Append_key == key,
        writes[k]->member == member,
        forall|j: int|
            k < j < writes.len() ==> !(#[trigger] writes[j] is Append && writes[j]->Append_key
                == key && writes[j]->member == member),
    ensures
        store.run(writes).entries(key).dom().contains(member),
        store.run(writes).entries(key)[member] == writes[k]->score,
    decreases writes.len(),
{
    if k < writes.len() - 1 {
        let rest = writes.drop_last();
        assert forall|j: int| k < j < rest.len() implies !(#[trigger] rest[j] is Append
            && rest[j]->Append_key == key && rest[j]->member == member) by {
            assert(rest[j] == writes[j]);
        }
        lemma_last_append_wins(store, rest, k, key, member);
        let last = writes[writes.len() - 1];
        assert(!(last is Append && last->Append_key == key && last->member == member));
    }
}

/// What was once added to a set stays in it.
pub proof fn lemma_registered_stays(store: Store, writes: Seq<Write>, k: int)
    requires
        0 <= k < writes.len(),
        writes[k] is Register,
    ensures
        store.run(writes).members(writes[k]->set).contains(writes[k]->element),
    decreases writes.len(),
{
    if k < writes.len() - 1 {
        lemma_registered_stays(store, writes.drop_last(), k);
    }
}

/// After a block has been written, whatever the store held before, the
/// chain is registered, its latest height and timestamp are the block's
/// number and timestamp, and its latest counts are the block's.
pub proof fn lemma_add_block_sets_latest(
    store: Store,
    chain_id: u64,
    timestamp: i64,
    successful_xfers: u64,
    total_xfers: u64,
    total_native_transfers: u64,
    total_x_chain_transfers: u64,
    tx_count: u64,
    height: u64,
)
    ensures
        ({
            let after = store.run(
                add_block_writes(
                    chain_id,
                    timestamp,
                    successful_xfers,
                    total_xfers,
                    total_native_transfers,
                    total_x_chain_transfers,
                    tx_count,
                    height,
                ),
            );
            &&& after.members(registry()).contains(decimal(chain_id as nat))
            &&& after.scalars[chain_key(chain_id, Field::Height)] == height
            &&& after.scalars[chain_key(chain_id, Field::Timestamp)] == timestamp
            &&& after.scalars[chain_key(chain_id, Field::Tps)] == tx_count
            &&& after.scalars[chain_key(chain_id, Field::NativeTps)] == total_native_transfers
            &&& after.scalars[chain_key(chain_id, Field::CrossChainTps)]
                == total_x_chain_transfers
        }),
{
    let writes = add_block_writes(
        chain_id,
        timestamp,
        successful_xfers,
        total_xfers,
        total_native_transfers,
        total_x_chain_transfers,
        tx_count,
        height,
    );
    lemma_chain_keys_differ(chain_id, Field::Tps, Field::CrossChainTps);
    lemma_chain_keys_differ(chain_id, Field::Tps, Field::NativeTps);
    lemma_chain_keys_differ(chain_id, Field::Tps, Field::Height);
    lemma_chain_keys_differ(chain_id, Field::Tps, Field::Timestamp);
    lemma_chain_keys_differ(chain_id, Field::CrossChainTps, Field::NativeTps);
    lemma_chain_keys_differ(chain_id, Field::CrossChainTps, Field::Height);
    lemma_chain_keys_differ(chain_id, Field::CrossChainTps, Field::Timestamp);
    lemma_chain_keys_differ(chain_id, Field::NativeTps, Field::Height);
    lemma_chain_keys_differ(chain_id, Field::NativeTps, Field::Timestamp);
    lemma_chain_keys_differ(chain_id, Field::Height, Field::Timestamp);
    lemma_registered_stays(store, writes, 0);
    lemma_last_put_wins(store, writes, 6, chain_key(chain_id, Field::Tps));
    lemma_last_put_wins(store, writes, 7, chain_key(chain_id, Field::CrossChainTps));
    lemma_last_put_wins(store, writes, 8, chain_key(chain_id, Field::NativeTps));
    lemma_last_put_wins(store, writes, 9, chain_key(chain_id, Field::Height));
    lemma_last_put_wins(store, writes, 10, chain_key(chain_id, Field::Timestamp));
}

/// After a block has been written, each of the chain's five ordered
/// associations holds the block's count under the block's timestamp.
pub proof fn lemma_add_block_scores(
    store: Store,
    chain_id: u64,
    timestamp: i64,
    successful_xfers: u64,
    total_xfers: u64,
    total_native_transfers: u64,
    total_x_chain_transfers: u64,
    tx_count: u64,
    height: u64,
)
    ensures
        ({
            let after = store.run(
                add_block_writes(
                    chain_id,
                    timestamp,
                    successful_xfers,
                    total_xfers,
                    total_native_transfers,
                    total_x_chain_transfers,
                    tx_count,
                    height,
                ),
            );
            &&& after.entries(chain_key(chain_id, Field::Successful))[successful_xfers as nat]
                == timestamp
            &&& after.entries(chain_key(chain_id, Field::Total))[total_xfers as nat] == timestamp
            &&& after.entries(chain_key(chain_id, Field::LiveTps))[tx_count as nat] == timestamp
            &&& after.entries(chain_key(chain_id, Field::TotalNative))[total_native_transfers as nat]
                == timestamp
            &&& after.entries(
                chain_key(chain_id, Field::TotalCrossChain),
            )[total_x_chain_transfers as nat] == timestamp
            &&& after.entries(chain_key(chain_id, Field::Successful)).dom().contains(
                successful_xfers as nat,
            )
            &&& after.entries(chain_key(chain_id, Field::Total)).dom().contains(total_xfers as nat)
            &&& after.entries(chain_key(chain_id, Field::LiveTps)).dom().contains(tx_count as nat)
            &&& after.entries(chain_key(chain_id, Field::TotalNative)).dom().contains(
                total_native_transfers as nat,
            )
            &&& after.entries(chain_key(chain_id, Field::TotalCrossChain)).dom().contains(
                total_x_chain_transfers as nat,
            )
        }),
{
    let writes = add_block_writes(
        chain_id,
        timestamp,
        successful_xfers,
        total_xfers,
        total_native_transfers,
        total_x_chain_transfers,
        tx_count,
        height,
    );
    lemma_chain_keys_differ(chain_id, Field::Successful, Field::Total);
    lemma_chain_keys_differ(chain_id, Field::Successful, Field::LiveTps);
    lemma_chain_keys_differ(chain_id, Field::Successful, Field::TotalNative);
    lemma_chain_keys_differ(chain_id, Field::Successful, Field::TotalCrossChain);
    lemma_chain_keys_differ(chain_id, Field::Total, Field::LiveTps);
    lemma_chain_keys_differ(chain_id, Field::Total, Field::TotalNative);
    lemma_chain_keys_differ(chain_id, Field::Total, Field::TotalCrossChain);
    lemma_chain_keys_differ(chain_id, Field::LiveTps, Field::TotalNative);
    lemma_chain_keys_differ(chain_id, Field::LiveTps, Field::TotalCrossChain);
    lemma_chain_keys_differ(chain_id, Field::TotalNative, Field::TotalCrossChain);
    lemma_last_append_wins(
        store,
        writes,
        1,
        chain_key(chain_id, Field::Successful),
        successful_xfers as nat,
    );
    lemma_last_append_wins(store, writes, 2, chain_key(chain_id, Field::Total), total_xfers as nat);
    lemma_last_append_wins(store, writes, 3, chain_key(chain_id, Field::LiveTps), tx_count as nat);
    lemma_last_append_wins(
        store,
        writes,
        4,
        chain_key(chain_id, Field::TotalNative),
        total_native_transfers as nat,
    );
    lemma_last_append_wins(
        store,
        writes,
        5,
        chain_key(chain_id, Field::TotalCrossChain),
        total_x_chain_transfers as nat,
    );
}

/// Writes that do not touch a scalar leave it as it is.
pub proof fn lemma_untouched_scalar(store: Store, writes: Seq<Write>, key: Seq<char>)
    requires
        forall|k: int|
            0 <= k < writes.len() ==> !(#[trigger] writes[k] is Put && writes[k]->Put_key == key),
    ensures
        store.run(writes).scalars.dom().contains(key) == store.scalars.dom().contains(key),
        store.run(writes).scalars[key] == store.scalars[key],
    decreases writes.len(),
{
    if writes.len() > 0 {
        let rest = writes.drop_last();
        assert forall|k: int| 0 <= k < rest.len() implies !(#[trigger] rest[k] is Put
            && rest[k]->Put_key == key) by {
            assert(rest[k] == writes[k]);
        }
        lemma_untouched_scalar(store, rest, key);
        assert(!(writes[writes.len() - 1] is Put && writes[writes.len() - 1]->Put_key == key));
    }
}

/// Writes that do not touch an ordered association leave it as it is.
pub proof fn lemma_untouched_entries(store: Store, writes: Seq<Write>, key: Seq<char>)
    requires
        forall|k: int|
            0 <= k < writes.len() ==> !(#[trigger] writes[k] is Append && writes[k]->Append_key
                == key),
    ensures
        store.run(writes).entries(key) == store.entries(key),
    decreases writes.len(),
{
    if writes.len() > 0 {
        let rest = writes.drop_last();
        assert forall|k: int| 0 <= k < rest.len() implies !(#[trigger] rest[k] is Append
            && rest[k]->Append_key == key) by {
            assert(rest[k] == writes[k]);
        }
        lemma_untouched_entries(store, rest, key);
        let last = writes[writes.len() - 1];
        assert(!(last is Append && last->Append_key == key));
    }
}

/// Recording a block of one chain leaves every entry of every other
/// chain as it is: its scalars and its ordered associations.
pub proof fn lemma_add_block_leaves_other_chains(
    store: Store,
    other: u64,
    field: Field,
    chain_id: u64,
    timestamp: i64,
    successful_xfers: u64,
    total_xfers: u64,
    total_native_transfers: u64,
    total_x_chain_transfers: u64,
    tx_count: u64,
    height: u64,
)
    requires
        other != chain_id,
    ensures
        ({
            let after = store.run(
                add_block_writes(
                    chain_id,
                    timestamp,
                    successful_xfers,
                    total_xfers,
                    total_native_transfers,
                    total_x_chain_transfers,
                    tx_count,
                    height,
                ),
            );
            let key = chain_key(other, field);
            &&& after.scalars.dom().contains(key) == store.scalars.dom().contains(key)
            &&& after.scalars[key] == store.scalars[key]
            &&& after.entries(key) == store.entries(key)
        }),
{
    let writes = add_block_writes(
        chain_id,
        timestamp,
        successful_xfers,
        total_xfers,
        total_native_transfers,
        total_x_chain_transfers,
        tx_count,
        height,
    );
    let key = chain_key(other, field);
    assert forall|f: Field| chain_key(chain_id, f) != key by {
        if chain_key(chain_id, f) == key {
            lemma_chain_keys_injective(chain_id, f, other, field);
        }
    }
    lemma_untouched_scalar(store, writes, key);
    lemma_untouched_entries(store, writes, key);
}

/// The store already holds what the write would put there.
pub open spec fn holds(store: Store, write: Write) -> bool {
    match write {
        Write::Register { set, element } => store.sets.dom().contains(set)
            && store.sets[set].contains(element),
        Write::Append { key, score, member } => store.series.dom().contains(key)
            && store.series[key].dom().contains(member) && store.series[key][member] == score,
        Write::Put { key, value } => store.scalars.dom().contains(key) && store.scalars[key]
            == value,
    }
}

/// Writes that the store already holds leave it as it is.
pub proof fn lemma_held_writes_change_nothing(store: Store, writes: Seq<Write>)
    requires
        forall|k: int| 0 <= k < writes.len() ==> holds(store, #[trigger] writes[k]),
    ensures
        store.run(writes) == store,
    decreases writes.len(),
{
    if writes.len() > 0 {
        let rest = writes.drop_last();
        assert forall|k: int| 0 <= k < rest.len() implies holds(store, #[trigger] rest[k]) by {
            assert(rest[k] == writes[k]);
        }
        lemma_held_writes_change_nothing(store, rest);
        let last = writes.last();
        assert(holds(store, last));
        let after = store.apply(last);
        assert(after.sets =~= store.sets) by {
            if last is Register {
                assert(store.members(last->set).insert(last->element) =~= store.sets[last->set]);
            }
        }
        assert(after.series =~= store.series) by {
            if last is Append {
                assert(store.entries(last->Append_key).insert(last->member, last->score)
                    =~= store.series[last->Append_key]);
            }
        }
        assert(after.scalars =~= store.scalars);
    }
}

/// Recording the same block a second time changes nothing: the chain is
/// registered already, every count stands under the same score, and
/// every scalar is set to what it holds.
pub proof fn lemma_add_block_twice(
    store: Store,
    chain_id: u64,
    timestamp: i64,
    successful_xfers: u64,
    total_xfers: u64,
    total_native_transfers: u64,
    total_x_chain_transfers: u64,
    tx_count: u64,
    height: u64,
)
    ensures
        ({
            let writes = add_block_writes(
                chain_id,
                timestamp,
                successful_xfers,
                total_xfers,
                total_native_transfers,
                total_x_chain_transfers,
                tx_count,
                height,
            );
            store.run(writes).run(writes) == store.run(writes)
        }),
{
    let writes = add_block_writes(
        chain_id,
        timestamp,
        successful_xfers,
        total_xfers,
        total_native_transfers,
        total_x_chain_transfers,
        tx_count,
        height,
    );
    let once = store.run(writes);
    lemma_add_block_sets_latest(
        store,
        chain_id,
        timestamp,
        successful_xfers,
        total_xfers,
        total_native_transfers,
        total_x_chain_transfers,
        tx_count,
        height,
    );
    lemma_add_block_scores(
        store,
        chain_id,
        timestamp,
        successful_xfers,
        total_xfers,
        total_native_transfers,
        total_x_chain_transfers,
        tx_count,
        height,
    );
    lemma_chain_keys_differ(chain_id, Field::Tps, Field::CrossChainTps);
    lemma_chain_keys_differ(chain_id, Field::Tps, Field::NativeTps);
    lemma_chain_keys_differ(chain_id, Field::Tps, Field::Height);
    lemma_chain_keys_differ(chain_id, Field::Tps, Field::Timestamp);
    lemma_chain_keys_differ(chain_id, Field::CrossChainTps, Field::NativeTps);
    lemma_chain_keys_differ(chain_id, Field::CrossChainTps, Field::Height);
    lemma_chain_keys_differ(chain_id, Field::CrossChainTps, Field::Timestamp);
    lemma_chain_keys_differ(chain_id, Field::NativeTps, Field::Height);
    lemma_chain_keys_differ(chain_id, Field::NativeTps, Field::Timestamp);
    lemma_chain_keys_differ(chain_id, Field::Height, Field::Timestamp);
    lemma_last_put_wins(store, writes, 6, chain_key(chain_id, Field::Tps));
    lemma_last_put_wins(store, writes, 7, chain_key(chain_id, Field::CrossChainTps));
    lemma_last_put_wins(store, writes, 8, chain_key(chain_id, Field::NativeTps));
    lemma_last_put_wins(store, writes, 9, chain_key(chain_id, Field::Height));
    lemma_last_put_wins(store, writes, 10, chain_key(chain_id, Field::Timestamp));
    assert forall|k: int| 0 <= k < writes.len() implies holds(once, #[trigger] writes[k]) by {
        if k == 0 {
            assert(once.members(registry()).contains(decimal(chain_id as nat)));
        } else if k <= 5 {
            let key = writes[k]->Append_key;
            let member = writes[k]->member;
            assert(once.entries(key).dom().contains(member));
        }
    }
    lemma_held_writes_change_nothing(once, writes);
}

/// The writes that record a block as the catch-up worker hands it over.
pub open spec fn block_writes(chain_id: u64, write: BlockWrite) -> Seq<Write> {
    add_block_writes(
        chain_id,
        write.timestamp,
        write.successful_xfers,
        write.total_xfers,
        write.total_native_transfers,
        write.total_x_chain_transfers,
        write.tx_count,
        write.height,
    )
}

/// The store after the blocks of one chain have been recorded, first to
/// last.
pub open spec fn recorded(store: Store, chain_id: u64, blocks: Seq<BlockWrite>) -> Store
    decreases blocks.len(),
{
    if blocks.len() == 0 {
        store
    } else {
        recorded(store, chain_id, blocks.drop_last()).run(block_writes(chain_id, blocks.last()))
    }
}

/// The latest height that the store holds for a chain.
pub open spec fn latest_height(store: Store, chain_id: u64) -> int {
    store.scalars[chain_key(chain_id, Field::Height)]
}

/// After blocks have been recorded, the chain's latest height and
/// timestamp are those of the last of them.
pub proof fn lemma_recorded_latest(store: Store, chain_id: u64, blocks: Seq<BlockWrite>)
    requires
        blocks.len() > 0,
    ensures
        latest_height(recorded(store, chain_id, blocks), chain_id) == blocks.last().height,
        recorded(store, chain_id, blocks).scalars[chain_key(chain_id, Field::Timestamp)]
            == blocks.last().timestamp,
{
    let last = blocks.last();
    lemma_add_block_sets_latest(
        recorded(store, chain_id, blocks.drop_last()),
        chain_id,
        last.timestamp,
        last.successful_xfers,
        last.total_xfers,
        last.total_native_transfers,
        last.total_x_chain_transfers,
        last.tx_count,
        last.height,
    );
}

/// Once a worker has written its first block, the chain's latest height
/// in the store is the number of the block it wrote last, which is no
/// less than the block it first asked for: a worker that resumes after
/// height 42 leaves a latest height of at least 43. This holds as long
/// as the node answers what it was asked, whatever the store held.
pub proof fn lemma_worker_raises_latest_height(
    store: Store,
    chain_id: u64,
    worker: Worker,
    events: Seq<Event>,
)
    requires
        at_rest(worker),
        node_is_truthful(worker, events),
        completed(worker, events).len() > 0,
    ensures
        latest_height(recorded(store, chain_id, completed(worker, events)), chain_id)
            == persisted(worker, events).last(),
        latest_height(recorded(store, chain_id, completed(worker, events)), chain_id)
            >= worker.query_param,
{
    lemma_persisted_heights(worker, events);
    lemma_heights_increase(worker, events);
    lemma_recorded_latest(store, chain_id, completed(worker, events));
    let written = persisted(worker, events);
    assert(written[written.len() - 1] == completed(worker, events)[written.len() - 1].height);
}

/// The chain's latest height in the store never falls while one worker
/// writes: what the store holds after one more event is no less than
/// what it held before.
pub proof fn lemma_latest_height_never_falls(
    store: Store,
    chain_id: u64,
    worker: Worker,
    events: Seq<Event>,
)
    requires
        at_rest(worker),
        node_is_truthful(worker, events),
        events.len() > 0,
        completed(worker, events.drop_last()).len() > 0,
    ensures
        latest_height(recorded(store, chain_id, completed(worker, events.drop_last())), chain_id)
            <= latest_height(recorded(store, chain_id, completed(worker, events)), chain_id),
{
    let earlier = events.drop_last();
    lemma_persisted_heights(worker, earlier);
    lemma_persisted_heights(worker, events);
    lemma_heights_increase(worker, events);
    lemma_recorded_latest(store, chain_id, completed(worker, earlier));
    let before = completed(worker, earlier);
    let after = completed(worker, events);
    let heights = persisted(worker, events);
    if after == before {
    } else {
        assert(after.len() == before.len() + 1);
        assert(after.drop_last() =~= before);
        lemma_recorded_latest(store, chain_id, after);
        assert(heights[before.len() - 1] == after[before.len() - 1].height);
        assert(heights[before.len() as int] == after[before.len() as int].height);
        assert(after[before.len() - 1] == before[before.len() - 1]);
    }
}

} // verus!
