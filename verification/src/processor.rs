//! The block processor: classifying the transactions of a block and
//! counting its transfers.

use crate::codec::{hex_with_prefix, to_hex_string_internal};
use crate::models::Transaction;
use crate::text::str_eq;
use crate::types::Tx;
use vstd::prelude::*;
use vstd::string::*;

verus! {

/// The Keccak-256 digest of a byte string.
pub uninterp spec fn keccak256_digest(bytes: Seq<u8>) -> Seq<u8>;

/// Calls `alloy::primitives::keccak256`, which hashes the bytes with
/// Keccak-256 and returns the 32 bytes of the digest. The digest is only
/// named here; that it has 32 bytes is what the return type `B256` says.
#[verifier::external_body]
fn keccak256(bytes: &[u8]) -> (digest: Vec<u8>)
    ensures
        digest@ == keccak256_digest(bytes@),
        digest@.len() == 32,
{
    alloy::primitives::keccak256(bytes).to_vec()
}

/// The canonical signature of the event that a batch of cross-chain
/// messages leaves in a receipt.
pub open spec fn batch_event() -> Seq<char> {
    "ETHReceivedFromSourceChainInBatch(uint32,address[],uint256[],uint32,uint32)"@
}

/// The first topic of every log of the batch event: the digest of its
/// signature.
pub open spec fn batch_topic() -> Seq<u8> {
    keccak256_digest(vstd::utf8::encode_utf8(batch_event()))
}

/// Computes the first topic of the batch event.
pub fn batch_event_topic() -> (topic: Vec<u8>)
    ensures
        topic@ == batch_topic(),
        topic@.len() == 32,
{
    let signature = "ETHReceivedFromSourceChainInBatch(uint32,address[],uint256[],uint32,uint32)";
    keccak256(signature.as_bytes())
}

/// The two message ids that a log of the batch event carries.
#[derive(Clone, Copy, Debug, PartialEq, Eq, Structural)]
pub struct BatchIds {
    pub start_message_id: u32,
    pub end_message_id: u32,
}

/// One log of a receipt: its topics, and what its topics and data decode
/// to as the batch event, where they do.
#[derive(Debug)]
pub struct EventLog {
    pub topics: Vec<Vec<u8>>,
    pub batch: Option<BatchIds>,
}

/// The receipt of a transaction: whether it succeeded, and its logs.
#[derive(Debug)]
pub struct Receipt {
    pub status: bool,
    pub logs: Vec<EventLog>,
}

/// A log whose first topic is that of the batch event.
pub open spec fn is_batch_log(log: EventLog) -> bool {
    log.topics.len() > 0 && log.topics[0]@ == batch_topic()
}

/// The first batch log among the first `n` logs.
pub open spec fn first_batch_log(logs: Seq<EventLog>, n: int) -> Option<int>
    decreases n,
{
    if n <= 0 {
        None
    } else {
        match first_batch_log(logs, n - 1) {
            Some(i) => Some(i),
            None => if is_batch_log(logs[n - 1]) {
                Some(n - 1)
            } else {
                None
            },
        }
    }
}

/// The messages of the first batch log can be counted: its two ids,
/// where it decodes, do not run backwards. Logs without the event, and
/// logs without any topic, are no hindrance.
pub open spec fn logs_readable(logs: Seq<EventLog>) -> bool {
    match first_batch_log(logs, logs.len() as int) {
        Some(i) => match logs[i].batch {
            Some(ids) => ids.start_message_id <= ids.end_message_id,
            None => true,
        },
        None => true,
    }
}

/// What the logs say of cross-chain messages: whether the first batch
/// log decodes, and how many messages it carries. Where there is no
/// batch log, or it does not decode, the answer is no and zero; a log
/// without topics is no batch log.
pub open spec fn parsed_logs(logs: Seq<EventLog>) -> (bool, u32) {
    match first_batch_log(logs, logs.len() as int) {
        Some(i) => match logs[i].batch {
            Some(ids) => (true, (ids.end_message_id - ids.start_message_id) as u32),
            None => (false, 0u32),
        },
        None => (false, 0u32),
    }
}

/// Once a batch log has been found, it stays the first.
pub proof fn lemma_first_batch_log_stays(logs: Seq<EventLog>, n: int, m: int)
    requires
        0 <= n <= m,
        first_batch_log(logs, n) is Some,
    ensures
        first_batch_log(logs, m) == first_batch_log(logs, n),
    decreases m,
{
    if n < m {
        lemma_first_batch_log_stays(logs, n, m - 1);
    }
}

/// The first batch log is a batch log, and no log before it is one.
pub proof fn lemma_first_batch_log(logs: Seq<EventLog>, n: int)
    requires
        0 <= n <= logs.len(),
    ensures
        match first_batch_log(logs, n) {
            Some(i) => 0 <= i < n && is_batch_log(logs[i]) && forall|j: int|
                0 <= j < i ==> !is_batch_log(#[trigger] logs[j]),
            None => forall|j: int| 0 <= j < n ==> !is_batch_log(#[trigger] logs[j]),
        },
    decreases n,
{
    if n > 0 {
        lemma_first_batch_log(logs, n - 1);
    }
}

fn bytes_equal(a: &Vec<u8>, b: &Vec<u8>) -> (same: bool)
    ensures
        same == (a@ == b@),
{
    if a.len() != b.len() {
        return false;
    }
    let mut i: usize = 0;
    while i < a.len()
        invariant
            i <= a.len(),
            a.len() == b.len(),
            forall|j: int| 0 <= j < i ==> a[j] == b[j],
        decreases a.len() - i,
    {
        if a[i] != b[i] {
            return false;
        }
        i = i + 1;
    }
    assert(a@ =~= b@);
    true
}

/// Whether `parse_logs` can count the messages of the receipt.
pub fn receipt_is_readable(receipt: &Receipt) -> (ok: bool)
    ensures
        ok == logs_readable(receipt.logs@),
{
    let topic = batch_event_topic();
    let ghost logs = receipt.logs@;
    let mut i: usize = 0;
    while i < receipt.logs.len()
        invariant
            i <= receipt.logs.len(),
            logs == receipt.logs@,
            topic@ == batch_topic(),
            first_batch_log(logs, i as int) is None,
        decreases receipt.logs.len() - i,
    {
        let log = &receipt.logs[i];
        if log.topics.len() > 0 && bytes_equal(&log.topics[0], &topic) {
            proof {
                assert(first_batch_log(logs, i + 1) == Some(i as int));
                lemma_first_batch_log_stays(logs, i + 1, logs.len() as int);
            }
            return match log.batch {
                Some(ids) => ids.start_message_id <= ids.end_message_id,
                None => true,
            };
        }
        i = i + 1;
    }
    true
}

/// Searches the logs of a receipt for the batch event. Returns whether
/// the first log with the event's topic decodes, and the number of
/// messages between its two ids. A receipt without such a log, whatever
/// else it holds, gives no and zero.
pub fn parse_logs(receipt: &Receipt) -> (found: (bool, u32))
    requires
        logs_readable(receipt.logs@),
    ensures
        found == parsed_logs(receipt.logs@),
{
    let topic = batch_event_topic();
    let ghost logs = receipt.logs@;
    let mut i: usize = 0;
    while i < receipt.logs.len()
        invariant
            i <= receipt.logs.len(),
            logs == receipt.logs@,
            logs_readable(logs),
            topic@ == batch_topic(),
            first_batch_log(logs, i as int) is None,
        decreases receipt.logs.len() - i,
    {
        let log = &receipt.logs[i];
        if log.topics.len() > 0 && bytes_equal(&log.topics[0], &topic) {
            proof {
                assert(first_batch_log(logs, i + 1) == Some(i as int));
                lemma_first_batch_log_stays(logs, i + 1, logs.len() as int);
            }
            return match log.batch {
                Some(ids) => (true, ids.end_message_id - ids.start_message_id),
                None => (false, 0),
            };
        }
        i = i + 1;
    }
    (false, 0)
}

/// Searches the logs of a receipt as `parse_logs` does; `None` where the
/// ids of the first batch log run backwards.
pub fn checked_parse_logs(receipt: &Receipt) -> (found: Option<(bool, u32)>)
    ensures
        match found {
            Some(f) => logs_readable(receipt.logs@) && f == parsed_logs(receipt.logs@),
            None => !logs_readable(receipt.logs@),
        },
{
    if receipt_is_readable(receipt) {
        Some(parse_logs(receipt))
    } else {
        None
    }
}

/// A native transfer: no input, and a recipient.
pub open spec fn is_native_transfer(tx: Transaction) -> bool {
    tx.input@.len() == 0 && tx.to is Some
}

/// Whether a transaction is a native transfer. Every other transaction
/// is a candidate for a cross-chain message, and its receipt is needed.
pub fn is_transfer(tx: &Transaction) -> (native: bool)
    ensures
        native == is_native_transfer(*tx),
{
    tx.input.len() == 0 && tx.to.is_some()
}

/// What one transaction adds to the counts of its block.
#[derive(Clone, Copy, Debug, PartialEq, Eq, Structural)]
pub struct Effect {
    pub total: u64,
    pub failed: u64,
    pub cross_chain: u64,
    pub class: Tx,
}

/// What a transaction adds: a native transfer counts once and never as
/// failed; any other transaction counts the messages of its receipt,
/// and once as failed where the receipt says so; without a receipt it
/// counts for nothing and is not classified.
pub open spec fn effect_of(tx: Transaction, receipt: Option<Receipt>) -> Option<Effect> {
    if is_native_transfer(tx) {
        Some(Effect { total: 1, failed: 0, cross_chain: 0, class: Tx::Native })
    } else {
        match receipt {
            Some(r) => Some(
                Effect {
                    total: parsed_logs(r.logs@).1 as u64,
                    failed: if r.status {
                        0
                    } else {
                        1
                    },
                    cross_chain: parsed_logs(r.logs@).1 as u64,
                    class: Tx::CrossChain,
                },
            ),
            None => None,
        }
    }
}

/// The messages of the receipt, where the transaction needs one and has
/// one, can be counted.
pub open spec fn receipt_usable(tx: Transaction, receipt: Option<Receipt>) -> bool {
    !is_native_transfer(tx) && receipt is Some ==> logs_readable(receipt->0.logs@)
}

/// Computes what one transaction adds to the counts of its block.
pub fn contribution(tx: &Transaction, receipt: &Option<Receipt>) -> (effect: Option<Effect>)
    requires
        receipt_usable(*tx, *receipt),
    ensures
        effect == effect_of(*tx, *receipt),
        effect matches Some(e) ==> e.class.is_class() && e.total <= u32::MAX && e.failed <= 1
            && e.cross_chain <= u32::MAX,
{
    if is_transfer(tx) {
        Some(Effect { total: 1, failed: 0, cross_chain: 0, class: Tx::Native })
    } else {
        match receipt {
            Some(r) => {
                let (_, xtps) = parse_logs(r);
                Some(
                    Effect {
                        total: xtps as u64,
                        failed: if r.status {
                            0
                        } else {
                            1
                        },
                        cross_chain: xtps as u64,
                        class: Tx::CrossChain,
                    },
                )
            },
            None => None,
        }
    }
}

/// The classes that ingest has assigned, by transaction hash.
pub struct TxTags {
    entries: Vec<(String, Tx)>,
}

/// The assignments as mathematical values.
pub open spec fn pairs_of(entries: Seq<(String, Tx)>) -> Seq<(Seq<char>, Tx)> {
    Seq::new(entries.len(), |i: int| (entries[i].0@, entries[i].1))
}

/// The map that a list of assignments stands for: a later assignment to
/// a hash replaces an earlier one.
pub open spec fn tag_map(entries: Seq<(Seq<char>, Tx)>) -> Map<Seq<char>, Tx>
    decreases entries.len(),
{
    if entries.len() == 0 {
        Map::empty()
    } else {
        tag_map(entries.drop_last()).insert(entries.last().0, entries.last().1)
    }
}

impl View for TxTags {
    type V = Map<Seq<char>, Tx>;

    closed spec fn view(&self) -> Map<Seq<char>, Tx> {
        tag_map(pairs_of(self.entries@))
    }
}

impl TxTags {
    /// Every assigned class is one that ingest assigns: native or
    /// cross-chain, never `All`.
    pub closed spec fn wf(&self) -> bool {
        forall|i: int| 0 <= i < self.entries.len() ==> (#[trigger] self.entries[i]).1.is_class()
    }

    /// No assignments.
    pub fn new() -> (tags: TxTags)
        ensures
            tags.wf(),
            tags@ == Map::<Seq<char>, Tx>::empty(),
    {
        let tags = TxTags { entries: Vec::new() };
        assert(pairs_of(tags.entries@) =~= Seq::empty());
        tags
    }

    /// Assigns `class` to the transaction with hash `hash`.
    pub fn insert(&mut self, hash: String, class: Tx)
        requires
            old(self).wf(),
            class.is_class(),
        ensures
            final(self).wf(),
            final(self)@ == old(self)@.insert(hash@, class),
    {
        let ghost before = pairs_of(self.entries@);
        self.entries.push((hash, class));
        proof {
            let after = pairs_of(self.entries@);
            assert(after.drop_last() =~= before);
            assert(after.last() == (hash@, class));
        }
    }

    /// The class assigned to the transaction with hash `hash`.
    pub fn get(&self, hash: &str) -> (class: Option<Tx>)
        requires
            self.wf(),
        ensures
            class == (if self@.dom().contains(hash@) {
                Some(self@[hash@])
            } else {
                None
            }),
            class matches Some(c) ==> c.is_class(),
    {
        let ghost model = pairs_of(self.entries@);
        let mut found: Option<Tx> = None;
        let mut i: usize = 0;
        while i < self.entries.len()
            invariant
                i <= self.entries.len(),
                self.wf(),
                model == pairs_of(self.entries@),
                found == (if tag_map(model.subrange(0, i as int)).dom().contains(hash@) {
                    Some(tag_map(model.subrange(0, i as int))[hash@])
                } else {
                    None
                }),
                found matches Some(c) ==> c.is_class(),
            decreases self.entries.len() - i,
        {
            proof {
                let upto = model.subrange(0, i + 1);
                assert(upto.drop_last() =~= model.subrange(0, i as int));
                assert(upto.last() == model[i as int]);
                assert(model[i as int].0 == self.entries[i as int].0@);
                assert(model[i as int].1 == self.entries[i as int].1);
            }
            if str_eq(self.entries[i].0.as_str(), hash) {
                found = Some(self.entries[i].1);
            }
            i = i + 1;
        }
        proof {
            assert(model.subrange(0, self.entries.len() as int) =~= model);
        }
        found
    }

    /// The class to store for a transaction: the assigned one, or native
    /// where none was assigned.
    pub fn class_of(&self, hash: &str) -> (class: Tx)
        requires
            self.wf(),
        ensures
            class == stored_class(self@, hash@),
            class.is_class(),
    {
        match self.get(hash) {
            Some(c) => c,
            None => Tx::Native,
        }
    }
}

/// The class to store for a transaction: the assigned one, or native
/// where none was assigned.
pub open spec fn stored_class(tags: Map<Seq<char>, Tx>, hash: Seq<char>) -> Tx {
    if tags.dom().contains(hash) {
        tags[hash]
    } else {
        Tx::Native
    }
}

/// The counts of a block as mathematical values.
pub struct Counts {
    pub total: int,
    pub failed: int,
    pub native: int,
    pub cross_chain: int,
    pub classes: Map<Seq<char>, Tx>,
}

/// The counts over the first `n` transactions of a block.
pub open spec fn counted(txs: Seq<Transaction>, receipts: Seq<Option<Receipt>>, n: int) -> Counts
    decreases n,
{
    if n <= 0 {
        Counts { total: 0, failed: 0, native: 0, cross_chain: 0, classes: Map::empty() }
    } else {
        let before = counted(txs, receipts, n - 1);
        match effect_of(txs[n - 1], receipts[n - 1]) {
            Some(e) => Counts {
                total: before.total + e.total,
                failed: before.failed + e.failed,
                native: before.native + if e.class == Tx::Native {
                    1int
                } else {
                    0int
                },
                cross_chain: before.cross_chain + e.cross_chain,
                classes: before.classes.insert(hex_with_prefix(txs[n - 1].hash@), e.class),
            },
            None => before,
        }
    }
}

/// The counts of a block and the classes of its transactions.
pub struct BlockTally {
    pub total: u64,
    pub failed: u64,
    pub native: u64,
    pub cross_chain: u64,
    pub classes: TxTags,
}

/// The messages of every receipt that is needed and present can be
/// counted.
pub open spec fn receipts_usable(txs: Seq<Transaction>, receipts: Seq<Option<Receipt>>) -> bool {
    forall|i: int| 0 <= i < txs.len() ==> receipt_usable(#[trigger] txs[i], receipts[i])
}

/// Processes a block: classifies each transaction and counts the
/// block's transfers. `receipts` holds, for each transaction in order,
/// its receipt where one was fetched; a native transfer needs none.
pub fn process_block(
    transactions: &Vec<Transaction>,
    receipts: &Vec<Option<Receipt>>,
) -> (tally: BlockTally)
    requires
        receipts.len() == transactions.len(),
        transactions.len() <= u32::MAX,
        receipts_usable(transactions@, receipts@),
    ensures
        tally.classes.wf(),
        tally.total == counted(transactions@, receipts@, transactions.len() as int).total,
        tally.failed == counted(transactions@, receipts@, transactions.len() as int).failed,
        tally.native == counted(transactions@, receipts@, transactions.len() as int).native,
        tally.cross_chain == counted(
            transactions@,
            receipts@,
            transactions.len() as int,
        ).cross_chain,
        tally.classes@ == counted(transactions@, receipts@, transactions.len() as int).classes,
{
    let mut total: u64 = 0;
    let mut failed: u64 = 0;
    let mut native: u64 = 0;
    let mut cross_chain: u64 = 0;
    let mut classes = TxTags::new();
    let mut i: usize = 0;
    while i < transactions.len()
        invariant
            i <= transactions.len(),
            receipts.len() == transactions.len(),
            transactions.len() <= u32::MAX,
            receipts_usable(transactions@, receipts@),
            classes.wf(),
            total == counted(transactions@, receipts@, i as int).total,
            failed == counted(transactions@, receipts@, i as int).failed,
            native == counted(transactions@, receipts@, i as int).native,
            cross_chain == counted(transactions@, receipts@, i as int).cross_chain,
            classes@ == counted(transactions@, receipts@, i as int).classes,
            total <= i * 0xffff_ffff,
            failed <= i,
            native <= i,
            cross_chain <= i * 0xffff_ffff,
        decreases transactions.len() - i,
    {
        let tx = &transactions[i];
        assert(receipt_usable(transactions@[i as int], receipts@[i as int]));
        match contribution(tx, &receipts[i]) {
            Some(e) => {
                total = total + e.total;
                failed = failed + e.failed;
                if e.class == Tx::Native {
                    native = native + 1;
                }
                cross_chain = cross_chain + e.cross_chain;
                classes.insert(to_hex_string_internal(tx.hash.as_slice()), e.class);
            },
            None => {},
        }
        i = i + 1;
    }
    BlockTally { total, failed, native, cross_chain, classes }
}

/// The block can be processed: there is a place for a receipt for every
/// transaction, the transactions can be counted in 32 bits, and in no
/// receipt that is needed and present do the ids of the first batch log
/// run backwards.
pub open spec fn processable(txs: Seq<Transaction>, receipts: Seq<Option<Receipt>>) -> bool {
    &&& receipts.len() == txs.len()
    &&& txs.len() <= u32::MAX
    &&& receipts_usable(txs, receipts)
}

/// Processes a block as `process_block` does, where it can be
/// processed; `None` where it cannot.
pub fn checked_process_block(
    transactions: &Vec<Transaction>,
    receipts: &Vec<Option<Receipt>>,
) -> (tally: Option<BlockTally>)
    ensures
        match tally {
            Some(t) => {
                let counts = counted(transactions@, receipts@, transactions.len() as int);
                &&& processable(transactions@, receipts@)
                &&& t.classes.wf()
                &&& t.total == counts.total
                &&& t.failed == counts.failed
                &&& t.native == counts.native
                &&& t.cross_chain == counts.cross_chain
                &&& t.classes@ == counts.classes
            },
            None => !processable(transactions@, receipts@),
        },
{
    if receipts.len() != transactions.len() || transactions.len() > 0xffff_ffff {
        return None;
    }
    let mut i: usize = 0;
    while i < transactions.len()
        invariant
            i <= transactions.len(),
            receipts.len() == transactions.len(),
            forall|j: int|
                0 <= j < i ==> receipt_usable(#[trigger] transactions@[j], receipts@[j]),
        decreases transactions.len() - i,
    {
        if !is_transfer(&transactions[i]) {
            match &receipts[i] {
                Some(receipt) => {
                    if !receipt_is_readable(receipt) {
                        assert(!receipt_usable(transactions@[i as int], receipts@[i as int]));
                        return None;
                    }
                },
                None => {},
            }
        }
        i = i + 1;
    }
    Some(process_block(transactions, receipts))
}

} // verus!
