//! The policies of the data provider, which stands between the HTTP
//! layer and the two stores: how a listing is asked for, how rows are
//! written, where a window is anchored, and what a failed read counts as.

use crate::cache::{add_block, add_block_writes, writes_of, Command};
use crate::models::{as_signed, record_of, to_signed, Chain, Transaction, TxModel, TxRecord};
use crate::order::{key_views, positions, sorted_positions, stable_order};
use crate::processor::{stored_class, TxTags};
use crate::codec::{hex_with_prefix, to_hex_string_internal};
use crate::series::Entry;
use crate::timefmt::{ist_text, unix_ms_to_ist, FIRST_SECOND, LAST_SECOND};
use crate::types::{
    ChainId, Limit, Parts, Stride, Tx, TxFilter, TxIdentifier, TxResponse, TxnSummary, Type,
};
use vstd::prelude::*;
use vstd::string::*;

verus! {

/// The page size of a listing that asks for none.
pub const DEFAULT_PAGE: u64 = 10;

/// The number of rows that are inserted at once.
pub const BATCH_SIZE: usize = 250;

/// The seconds of the window of the daily totals.
pub const DAY: i64 = 86_400;

/// The provider's policies. It holds no connection: what is read from a
/// store is handed to it, and what is to be written is handed back.
pub struct InternalDataProvider {}

/// The order of the rows of a listing.
#[derive(Clone, Copy, Debug, PartialEq, Eq, Structural)]
pub enum RowOrder {
    /// By block number, the highest first.
    NewestBlockFirst,
}

/// A listing of transactions.
#[derive(Debug)]
pub struct TxQuery {
    /// The order in which the rows are listed, before any are skipped.
    pub order: RowOrder,
    /// Only transactions of this chain.
    pub chain_id: Option<i64>,
    /// Only the transaction with this hash.
    pub tx_hash: Option<String>,
    /// Only transactions of this class.
    pub tx_type: Option<String>,
    /// At most this many rows.
    pub limit: i64,
    /// After skipping this many rows.
    pub offset: i64,
}

/// A listing as a mathematical value.
pub struct Listing {
    pub order: RowOrder,
    pub chain_id: Option<int>,
    pub tx_hash: Option<Seq<char>>,
    pub tx_type: Option<Seq<char>>,
    pub limit: int,
    pub offset: int,
}

impl View for TxQuery {
    type V = Listing;

    open spec fn view(&self) -> Listing {
        Listing {
            order: self.order,
            chain_id: match self.chain_id {
                Some(c) => Some(c as int),
                None => None,
            },
            tx_hash: crate::models::text_of(self.tx_hash),
            tx_type: crate::models::text_of(self.tx_type),
            limit: self.limit as int,
            offset: self.offset as int,
        }
    }
}

/// The page size of a listing.
pub open spec fn page_size(limit: Limit) -> u64 {
    match limit.limit {
        Some(n) => n,
        None => DEFAULT_PAGE,
    }
}

/// The page of a listing.
pub open spec fn page_index(identifier: TxIdentifier) -> u64 {
    match identifier.page_idx {
        Some(p) => p,
        None => 0,
    }
}

/// The listing that a request asks for: newest block first; filtered by
/// chain, by hash and, for the two classes that ingest assigns, by
/// class; the page size as limit and the rows of the pages before as
/// offset.
pub open spec fn listing(
    identifier: TxIdentifier,
    filter: TxFilter,
    tx_type: Type,
    limit: Limit,
) -> Listing {
    Listing {
        order: RowOrder::NewestBlockFirst,
        chain_id: match filter.chain_id {
            Some(c) => Some(as_signed(c)),
            None => None,
        },
        tx_hash: crate::models::text_of(identifier.tx_hash),
        tx_type: match tx_type.tx_type {
            Some(Tx::Native) => Some(Tx::Native.label()),
            Some(Tx::CrossChain) => Some(Tx::CrossChain.label()),
            _ => None,
        },
        limit: as_signed(page_size(limit)),
        offset: as_signed((page_index(identifier) * page_size(limit)) as u64),
    }
}

/// A row as it is returned to the reader: in full, or in short.
#[derive(Debug)]
pub enum TxAPIResponse {
    TxnSummary(TxnSummary),
    Transaction(Transaction),
}

/// The row of a chain and the batches of transaction rows to insert.
#[derive(Debug)]
pub struct TxWrite {
    /// Inserted, or its count updated where the chain is known.
    pub chain: Chain,
    /// Inserted batch by batch; a row that is there already is left as
    /// it is.
    pub batches: Vec<Vec<TxModel>>,
}

/// The row `i` of a block's transactions.
pub open spec fn row_at(
    chain_id: u64,
    transactions: Seq<Transaction>,
    tags: Map<Seq<char>, Tx>,
    i: int,
) -> TxRecord {
    record_of(
        chain_id,
        transactions[i],
        stored_class(tags, hex_with_prefix(transactions[i].hash@)),
    )
}

/// One bucket of the transaction volume: the window of its range read
/// and the timestamp it is labelled with.
#[derive(Clone, Copy, Debug, PartialEq, Eq, Structural)]
pub struct VolumeBucket {
    /// The length of the window in seconds.
    pub window: i64,
    /// The second at which the window ends.
    pub anchor: i64,
    /// The second at which the window begins, which labels the bucket.
    pub label: i64,
}

/// The seconds between two buckets and the number of steps, by stride:
/// an hour in steps of thirty seconds for stride one, ten minutes in
/// steps of ten seconds for stride two, and a day in steps of an hour
/// for every other stride and without one.
pub open spec fn volume_shape(stride: Stride) -> (int, int) {
    match stride.stride {
        Some(s) => if s == 1 {
            (30, 120)
        } else if s == 2 {
            (10, 60)
        } else {
            (3600, 24)
        },
        None => (3600, 24),
    }
}

/// Bucket `i`, counted from one: the `interval` seconds that end `i - 1`
/// intervals before the anchor.
pub open spec fn bucket_at(stride: Stride, anchor: i64, i: int) -> VolumeBucket {
    let interval = volume_shape(stride).0;
    VolumeBucket {
        window: interval as i64,
        anchor: (anchor - (i - 1) * interval) as i64,
        label: (anchor - i * interval) as i64,
    }
}

/// The buckets of the volume can be laid out and labelled: the anchor is
/// far enough from both ends of the calendar.
pub open spec fn volume_in_calendar(stride: Stride, anchor: i64) -> bool {
    FIRST_SECOND + volume_shape(stride).0 * volume_shape(stride).1 <= anchor <= LAST_SECOND
}

/// The rows of the volume before they are put in order: one per bucket,
/// with the bucket's sum as both counts, zero where the sum could not be
/// read, and the bucket's label as text.
pub open spec fn volume_rows(
    stride: Stride,
    anchor: i64,
    sums: Seq<Option<u64>>,
) -> Seq<(u64, Seq<char>)> {
    Seq::new(
        sums.len(),
        |j: int|
            (
                match sums[j] {
                    Some(n) => n,
                    None => 0u64,
                },
                ist_text(bucket_at(stride, anchor, j + 1).label as int),
            ),
    )
}

/// The labels of the rows.
pub open spec fn row_labels(rows: Seq<(u64, Seq<char>)>) -> Seq<Seq<char>> {
    Seq::new(rows.len(), |j: int| rows[j].1)
}

/// The rows in ascending order of their labels.
pub open spec fn rows_by_label(rows: Seq<(u64, Seq<char>)>) -> Seq<(u64, Seq<char>)> {
    Seq::new(rows.len(), |j: int| rows[stable_order(row_labels(rows), rows.len() as int)[j]])
}

/// The volume as mathematical values.
pub open spec fn responses_of(series: Seq<TxResponse>) -> Seq<(u64, u64, Seq<char>)> {
    Seq::new(
        series.len(),
        |j: int| (series[j].successful_txns, series[j].total_txns, series[j].timestamp@),
    )
}

fn shape_of(stride: Stride) -> (shape: (i64, i64))
    ensures
        shape.0 == volume_shape(stride).0,
        shape.1 == volume_shape(stride).1,
{
    match stride.stride {
        Some(s) => if s == 1 {
            (30, 120)
        } else if s == 2 {
            (10, 60)
        } else {
            (3600, 24)
        },
        None => (3600, 24),
    }
}

impl InternalDataProvider {
    /// The provider.
    pub fn new() -> (provider: InternalDataProvider) {
        InternalDataProvider {  }
    }

    /// The listing that a request asks the relational store for; `None`
    /// where the rows to skip are more than 64 bits can count.
    pub fn get_txs(
        identifier: &TxIdentifier,
        filter: &TxFilter,
        tx_type: &Type,
        limit: &Limit,
    ) -> (query: Option<TxQuery>)
        ensures
            match query {
                Some(q) => q@ == listing(*identifier, *filter, *tx_type, *limit) && page_index(
                    *identifier,
                ) * page_size(*limit) <= u64::MAX,
                None => page_index(*identifier) * page_size(*limit) > u64::MAX,
            },
    {
        let size: u64 = match limit.limit {
            Some(n) => n,
            None => DEFAULT_PAGE,
        };
        let page: u64 = match identifier.page_idx {
            Some(p) => p,
            None => 0,
        };
        let skipped: u64 = match page.checked_mul(size) {
            Some(n) => n,
            None => {
                return None;
            },
        };
        Some(
            TxQuery {
                order: RowOrder::NewestBlockFirst,
                chain_id: match filter.chain_id {
                    Some(c) => Some(to_signed(c)),
                    None => None,
                },
                tx_hash: match &identifier.tx_hash {
                    Some(h) => Some(h.clone()),
                    None => None,
                },
                tx_type: match tx_type.tx_type {
                    Some(Tx::Native) => Some(Tx::Native.to_string()),
                    Some(Tx::CrossChain) => Some(Tx::CrossChain.to_string()),
                    _ => None,
                },
                limit: to_signed(size),
                offset: to_signed(skipped),
            },
        )
    }

    /// A row as the reader gets it: in full where the request's `all` is
    /// set, else in short. `None` where the row cannot be shown: a full
    /// row that cannot be read back, a short one without a block number.
    pub fn project(row: &TxModel, parts: &Parts) -> (shown: Option<TxAPIResponse>)
        ensures
            match shown {
                Some(TxAPIResponse::Transaction(tx)) => parts.all is Some
                    && crate::models::transaction_of(row@) == Some(tx@),
                Some(TxAPIResponse::TxnSummary(short)) => parts.all is None && row.block_number
                    is Some && short.hash@ == row.transaction_hash@ && short.value@
                    == row.value@ && short.from@ == row._from@ && short.status == Some(1u8)
                    && short.block_height == crate::models::as_unsigned(row.block_number->0)
                    && crate::models::text_of(short.block_hash) == crate::models::text_of(
                    row.block_hash,
                ) && crate::models::text_of(short.to) == crate::models::text_of(row._to),
                None => if parts.all is Some {
                    crate::models::transaction_of(row@) is None
                } else {
                    row.block_number is None
                },
            },
    {
        if parts.all.is_some() {
            match row.to_transaction() {
                Some(tx) => Some(TxAPIResponse::Transaction(tx)),
                None => None,
            }
        } else {
            if row.block_number.is_some() {
                Some(TxAPIResponse::TxnSummary(row.summary()))
            } else {
                None
            }
        }
    }

    /// What to write to the relational store for a block: the chain's
    /// row with the block's transaction count, and one row per
    /// transaction, in batches of 250. A transaction is stored under the
    /// class that ingest assigned, or as native where it assigned none,
    /// so every row's class is `native` or `cross_chain`.
    pub fn add_txns(
        chain_id: u64,
        tx_count: usize,
        transactions: &Vec<Transaction>,
        tx_map: &TxTags,
    ) -> (write: TxWrite)
        requires
            chain_id <= i64::MAX,
            tx_count <= i64::MAX,
            tx_map.wf(),
        ensures
            write.chain == (Chain { chain_id: chain_id as i64, latest_tps: tx_count as i64 }),
            write.batches.len() == (transactions.len() + BATCH_SIZE - 1) / (BATCH_SIZE as int),
            forall|i: int|
                0 <= i < transactions.len() ==> {
                    &&& (#[trigger] write.batches[i / (BATCH_SIZE as int)]).len() > i % (
                    BATCH_SIZE as int)
                    &&& write.batches[i / (BATCH_SIZE as int)][i % (BATCH_SIZE as int)]@ == row_at(
                        chain_id,
                        transactions@,
                        tx_map@,
                        i,
                    )
                },
            forall|b: int|
                0 <= b < write.batches.len() ==> (#[trigger] write.batches[b]).len() == if (b
                    + 1) * BATCH_SIZE <= transactions.len() {
                    BATCH_SIZE as int
                } else {
                    transactions.len() - b * BATCH_SIZE
                },
            forall|b: int, j: int|
                0 <= b < write.batches.len() && 0 <= j < write.batches[b].len() ==> {
                    let class = (#[trigger] write.batches[b][j]).tx_type@;
                    class == Tx::Native.label() || class == Tx::CrossChain.label()
                },
    {
        let mut batches: Vec<Vec<TxModel>> = Vec::new();
        let mut current: Vec<TxModel> = Vec::new();
        let mut i: usize = 0;
        while i < transactions.len()
            invariant
                i <= transactions.len(),
                chain_id <= i64::MAX,
                tx_map.wf(),
                batches.len() == i / BATCH_SIZE,
                current.len() == i % BATCH_SIZE,
                forall|b: int|
                    0 <= b < batches.len() ==> (#[trigger] batches[b]).len() == BATCH_SIZE,
                forall|k: int|
                    0 <= k < batches.len() * BATCH_SIZE ==> (#[trigger] batches[k / (
                    BATCH_SIZE as int)])[k % (BATCH_SIZE as int)]@ == row_at(
                        chain_id,
                        transactions@,
                        tx_map@,
                        k,
                    ),
                forall|j: int|
                    0 <= j < current.len() ==> (#[trigger] current[j])@ == row_at(
                        chain_id,
                        transactions@,
                        tx_map@,
                        batches.len() * BATCH_SIZE + j,
                    ),
                forall|b: int, j: int|
                    0 <= b < batches.len() && 0 <= j < batches[b].len() ==> {
                        let class = (#[trigger] batches[b][j]).tx_type@;
                        class == Tx::Native.label() || class == Tx::CrossChain.label()
                    },
                forall|j: int|
                    0 <= j < current.len() ==> {
                        let class = (#[trigger] current[j]).tx_type@;
                        class == Tx::Native.label() || class == Tx::CrossChain.label()
                    },
            decreases transactions.len() - i,
        {
            let tx = &transactions[i];
            let hash = to_hex_string_internal(tx.hash.as_slice());
            let class = tx_map.class_of(hash.as_str());
            let row = TxModel::from(chain_id, tx, &class);
            current.push(row);
            if current.len() == BATCH_SIZE {
                let ghost full = current@;
                let ghost done = batches@;
                let mut taken: Vec<TxModel> = Vec::new();
                std::mem::swap(&mut taken, &mut current);
                batches.push(taken);
                proof {
                    assert forall|k: int|
                        0 <= k < batches.len() * BATCH_SIZE implies (#[trigger] batches[k / (
                    BATCH_SIZE as int)])[k % (BATCH_SIZE as int)]@ == row_at(
                        chain_id,
                        transactions@,
                        tx_map@,
                        k,
                    ) by {
                        if k / (BATCH_SIZE as int) < done.len() {
                            assert(batches[k / (BATCH_SIZE as int)] == done[k / (
                            BATCH_SIZE as int)]);
                        } else {
                            assert(batches[k / (BATCH_SIZE as int)]@ == full);
                        }
                    }
                }
            }
            i = i + 1;
        }
        if current.len() > 0 {
            batches.push(current);
        }
        TxWrite {
            chain: Chain { chain_id: chain_id as i64, latest_tps: tx_count as i64 },
            batches,
        }
    }

    /// The commands that record a block in the analytics store.
    pub fn add_block(
        chain_id: &u64,
        timestamp: i64,
        successful_xfers: u64,
        total_xfers: u64,
        total_native_transfers: u64,
        total_x_chain_transfers: u64,
        tx_count: usize,
        height: u64,
    ) -> (plan: Vec<Command>)
        ensures
            writes_of(plan@) == add_block_writes(
                *chain_id,
                timestamp,
                successful_xfers,
                total_xfers,
                total_native_transfers,
                total_x_chain_transfers,
                tx_count as u64,
                height,
            ),
    {
        add_block(
            chain_id,
            timestamp,
            successful_xfers,
            total_xfers,
            total_native_transfers,
            total_x_chain_transfers,
            tx_count as u64,
            height,
        )
    }

    /// A chain's latest height from the store's reply: zero where the
    /// height could not be read.
    pub fn get_latest_height(reply: Option<u64>) -> (height: u64)
        ensures
            height == match reply {
                Some(h) => h,
                None => 0,
            },
    {
        match reply {
            Some(h) => h,
            None => 0,
        }
    }

    /// A live series from the store's reply: empty where the series
    /// could not be read.
    pub fn live_tps(reply: Option<Vec<Entry>>) -> (series: Vec<Entry>)
        ensures
            match reply {
                Some(s) => series == s,
                None => series.len() == 0,
            },
    {
        match reply {
            Some(s) => s,
            None => Vec::new(),
        }
    }

    /// A latest count from the store's reply: zero where the count could
    /// not be read.
    pub fn current_tps(reply: Option<u64>) -> (tps: u64)
        ensures
            tps == match reply {
                Some(n) => n,
                None => 0,
            },
    {
        match reply {
            Some(n) => n,
            None => 0,
        }
    }

    /// The second at which the window of a daily total ends: for one
    /// chain, its latest timestamp, and nothing where that could not be
    /// read; for all chains, the current second.
    pub fn day_anchor(
        identifier: &ChainId,
        recorded: Option<i64>,
        now: i64,
    ) -> (anchor: Option<i64>)
        ensures
            anchor == match identifier.chain_id {
                Some(_) => recorded,
                None => Some(now),
            },
    {
        match identifier.chain_id {
            Some(_) => recorded,
            None => Some(now),
        }
    }

    /// The second at which a chain's live window ends: its latest
    /// timestamp, or the current second where it has none.
    pub fn live_anchor(recorded: Option<i64>, now: i64) -> (anchor: i64)
        ensures
            anchor == match recorded {
                Some(t) => t,
                None => now,
            },
    {
        match recorded {
            Some(t) => t,
            None => now,
        }
    }

    /// The transfers of the last day from the store's reply: zero where
    /// they could not be read.
    pub fn total_xfers_last_day(reply: Option<u64>) -> (total: u64)
        ensures
            total == match reply {
                Some(n) => n,
                None => 0,
            },
    {
        match reply {
            Some(n) => n,
            None => 0,
        }
    }

    /// The successful transfers of the last day from the store's reply:
    /// zero where they could not be read.
    pub fn successful_xfers_last_day(reply: Option<u64>) -> (total: u64)
        ensures
            total == match reply {
                Some(n) => n,
                None => 0,
            },
    {
        match reply {
            Some(n) => n,
            None => 0,
        }
    }

    /// Whether the buckets of the volume can be laid out and labelled
    /// from this anchor.
    pub fn volume_fits(stride: Stride, anchor: i64) -> (ok: bool)
        ensures
            ok == volume_in_calendar(stride, anchor),
    {
        let (interval, width) = shape_of(stride);
        FIRST_SECOND + interval * width <= anchor && anchor <= LAST_SECOND
    }

    /// The buckets of the transaction volume, newest first: one less
    /// than the stride's number of steps, each an interval long, the
    /// first ending at the anchor. Without a stride, and for every stride
    /// but one and two, these are 23 buckets of an hour each.
    pub fn volume_buckets(stride: Stride, anchor: i64) -> (buckets: Vec<VolumeBucket>)
        requires
            volume_in_calendar(stride, anchor),
        ensures
            buckets.len() == volume_shape(stride).1 - 1,
            forall|j: int|
                0 <= j < buckets.len() ==> #[trigger] buckets[j] == bucket_at(stride, anchor, j + 1),
            stride.stride != Some(1u64) && stride.stride != Some(2u64) ==> buckets.len() == 23
                && forall|j: int|
                0 <= j < 23 ==> (#[trigger] buckets[j]).window == 3600 && buckets[j].anchor
                    == anchor - j * 3600 && buckets[j].label == anchor - (j + 1) * 3600,
    {
        let (interval, width) = shape_of(stride);
        let mut buckets: Vec<VolumeBucket> = Vec::new();
        let mut i: i64 = 1;
        while i < width
            invariant
                1 <= i <= width,
                interval == volume_shape(stride).0,
                width == volume_shape(stride).1,
                volume_in_calendar(stride, anchor),
                buckets.len() == i - 1,
                forall|j: int|
                    0 <= j < buckets.len() ==> #[trigger] buckets[j] == bucket_at(
                        stride,
                        anchor,
                        j + 1,
                    ),
            decreases width - i,
        {
            assert(i * interval <= width * interval) by (nonlinear_arith)
                requires
                    0 <= i <= width,
                    0 <= interval,
            ;
            assert(0 <= (i - 1) * interval <= i * interval) by (nonlinear_arith)
                requires
                    1 <= i,
                    0 <= interval,
            ;
            buckets.push(
                VolumeBucket {
                    window: interval,
                    anchor: anchor - (i - 1) * interval,
                    label: anchor - i * interval,
                },
            );
            i = i + 1;
        }
        buckets
    }

    /// The transaction volume from the sums of its buckets: one row per
    /// bucket with the sum as both counts, zero where the sum could not
    /// be read, in ascending order of the buckets' rendered times.
    pub fn transaction_volume(
        stride: Stride,
        anchor: i64,
        sums: &Vec<Option<u64>>,
    ) -> (series: Vec<TxResponse>)
        requires
            volume_in_calendar(stride, anchor),
            sums.len() == volume_shape(stride).1 - 1,
        ensures
            series.len() == sums.len(),
            forall|j: int|
                0 <= j < series.len() ==> {
                    let row = rows_by_label(volume_rows(stride, anchor, sums@))[j];
                    &&& (#[trigger] series[j]).successful_txns == row.0
                    &&& series[j].total_txns == row.0
                    &&& series[j].timestamp@ == row.1
                },
    {
        let buckets = Self::volume_buckets(stride, anchor);
        let ghost rows = volume_rows(stride, anchor, sums@);
        let mut labels: Vec<String> = Vec::new();
        let mut j: usize = 0;
        while j < buckets.len()
            invariant
                j <= buckets.len(),
                buckets.len() == sums.len(),
                buckets.len() == volume_shape(stride).1 - 1,
                volume_in_calendar(stride, anchor),
                rows == volume_rows(stride, anchor, sums@),
                forall|k: int|
                    0 <= k < buckets.len() ==> #[trigger] buckets[k] == bucket_at(
                        stride,
                        anchor,
                        k + 1,
                    ),
                labels.len() == j,
                forall|k: int| 0 <= k < j ==> (#[trigger] labels[k])@ == rows[k].1,
            decreases buckets.len() - j,
        {
            let at: i64 = buckets[j].label;
            proof {
                let interval = volume_shape(stride).0;
                let width = volume_shape(stride).1;
                assert(interval <= (j + 1) * interval <= width * interval) by (nonlinear_arith)
                    requires
                        0 <= j,
                        j + 1 <= width,
                        0 <= interval,
                ;
                assert(at == anchor - (j + 1) * interval);
            }
            labels.push(unix_ms_to_ist(at));
            j = j + 1;
        }
        let order = sorted_positions(&labels);
        proof {
            assert(key_views(labels@) =~= row_labels(rows));
        }
        let mut series: Vec<TxResponse> = Vec::new();
        let mut k: usize = 0;
        while k < order.len()
            invariant
                k <= order.len(),
                order.len() == labels.len(),
                labels.len() == sums.len(),
                rows == volume_rows(stride, anchor, sums@),
                forall|m: int| 0 <= m < order.len() ==> #[trigger] order[m] < labels.len(),
                forall|m: int| 0 <= m < labels.len() ==> (#[trigger] labels[m])@ == rows[m].1,
                positions(order@) == stable_order(row_labels(rows), rows.len() as int),
                series.len() == k,
                forall|m: int|
                    0 <= m < k ==> {
                        let row = rows_by_label(rows)[m];
                        &&& (#[trigger] series[m]).successful_txns == row.0
                        &&& series[m].total_txns == row.0
                        &&& series[m].timestamp@ == row.1
                    },
            decreases order.len() - k,
        {
            let at: usize = order[k];
            proof {
                assert(positions(order@)[k as int] == at);
            }
            let success: u64 = match sums[at] {
                Some(n) => n,
                None => 0,
            };
            series.push(
                TxResponse {
                    successful_txns: success,
                    total_txns: success,
                    timestamp: labels[at].clone(),
                },
            );
            k = k + 1;
        }
        series
    }
}

} // verus!
