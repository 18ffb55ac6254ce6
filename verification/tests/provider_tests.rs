use geth_indexer::catchup::SLEEP;
use geth_indexer::models::{Chain, Signature, Transaction, TxModel};
use geth_indexer::processor::TxTags;
use geth_indexer::provider::{
    InternalDataProvider, RowOrder, TxAPIResponse, VolumeBucket, BATCH_SIZE, DAY, DEFAULT_PAGE,
};
use geth_indexer::types::{
    ChainId, Limit, Parts, Stride, Tx, TxFilter, TxIdentifier, TxnSummary, Type,
};

fn word(n: u128) -> Vec<u8> {
    let mut bytes = vec![0u8; 16];
    bytes.extend_from_slice(&n.to_be_bytes());
    bytes
}

fn transaction(n: u64) -> Transaction {
    Transaction {
        hash: word(n as u128 + 1),
        nonce: n,
        block_hash: Some(vec![0xbb; 32]),
        block_number: Some(100 + n),
        transaction_index: Some(n),
        from: vec![0x11; 20],
        to: Some(vec![0x22; 20]),
        value: word(1_000_000),
        gas_price: Some(7),
        gas: 21_000,
        input: vec![0xde, 0xad],
        signature: Some(Signature { v: word(27), r: word(5), s: word(6) }),
        transaction_type: Some(2),
        max_priority_fee_per_gas: Some(1),
        max_fee_per_gas: Some(2),
        chain_id: Some(7),
    }
}

fn hex_word(n: u128) -> String {
    format!("0x{n:064x}")
}

fn no_filter() -> TxFilter {
    TxFilter { sender: None, status: None, recipient: None, chain_id: None }
}

#[test]
fn paginated_fetch() {
    let identifier = TxIdentifier { tx_hash: None, latest: None, page_idx: Some(1) };
    let filter = TxFilter { chain_id: Some(1), ..no_filter() };
    let query = InternalDataProvider::get_txs(
        &identifier,
        &filter,
        &Type { tx_type: Some(Tx::All) },
        &Limit { limit: Some(10) },
    )
    .expect("listing");
    assert_eq!(query.order, RowOrder::NewestBlockFirst);
    assert_eq!(query.chain_id, Some(1));
    assert_eq!(query.limit, 10);
    assert_eq!(query.offset, 10);
    assert_eq!(query.tx_hash, None);
    assert_eq!(query.tx_type, None);
    // Rows 11 to 20 of 30, newest block first.
    let mut rows: Vec<u64> = (1..=30).collect();
    rows.sort_by(|a, b| b.cmp(a));
    let page: Vec<u64> =
        rows.into_iter().skip(query.offset as usize).take(query.limit as usize).collect();
    assert_eq!(page, (11..=20).rev().collect::<Vec<u64>>());
}

#[test]
fn a_listing_defaults_to_the_first_ten_rows() {
    let identifier = TxIdentifier { tx_hash: None, latest: None, page_idx: None };
    let query = InternalDataProvider::get_txs(
        &identifier,
        &no_filter(),
        &Type { tx_type: None },
        &Limit { limit: None },
    )
    .expect("listing");
    assert_eq!((query.limit, query.offset), (DEFAULT_PAGE as i64, 0));
    assert_eq!((query.chain_id, query.tx_hash.clone(), query.tx_type.clone()), (None, None, None));
}

#[test]
fn a_listing_filters_by_hash_and_class() {
    let identifier =
        TxIdentifier { tx_hash: Some("0xabc".to_string()), latest: None, page_idx: None };
    let native = InternalDataProvider::get_txs(
        &identifier,
        &no_filter(),
        &Type { tx_type: Some(Tx::Native) },
        &Limit { limit: Some(5) },
    )
    .expect("listing");
    assert_eq!(native.tx_hash.as_deref(), Some("0xabc"));
    assert_eq!(native.tx_type.as_deref(), Some("native"));
    let cross = InternalDataProvider::get_txs(
        &identifier,
        &no_filter(),
        &Type { tx_type: Some(Tx::CrossChain) },
        &Limit { limit: Some(5) },
    )
    .expect("listing");
    assert_eq!(cross.tx_type.as_deref(), Some("cross_chain"));
}

#[test]
fn a_listing_whose_offset_cannot_be_counted_is_refused() {
    let identifier = TxIdentifier { tx_hash: None, latest: None, page_idx: Some(u64::MAX) };
    let query = InternalDataProvider::get_txs(
        &identifier,
        &no_filter(),
        &Type { tx_type: None },
        &Limit { limit: Some(2) },
    );
    assert!(query.is_none());
}

#[test]
fn a_row_holds_hex_text() {
    let row = TxModel::from(7, &transaction(3), &Tx::CrossChain);
    assert_eq!(row.chain_id, 7);
    assert_eq!(row.transaction_hash, hex_word(4));
    assert_eq!(row.transaction_nonce, hex_word(3));
    assert_eq!(row.block_hash, Some(format!("0x{}", "bb".repeat(32))));
    assert_eq!(row.block_number, Some(103));
    assert_eq!(row.transaction_index, Some(3));
    assert_eq!(row._from, format!("0x{}", "11".repeat(20)));
    assert_eq!(row._to, Some(format!("0x{}", "22".repeat(20))));
    assert_eq!(row.value, hex_word(1_000_000));
    assert_eq!(row.gas_price, Some(hex_word(7)));
    assert_eq!(row.gas, hex_word(21_000));
    assert_eq!(row.input, "0xdead");
    assert_eq!((row.v, row.r, row.s), (hex_word(27), hex_word(5), hex_word(6)));
    assert_eq!(row.transaction_type, hex_word(2));
    assert!(!row.impersonated);
    assert_eq!(row.max_priority_fee_per_gas, Some(hex_word(1)));
    assert_eq!(row.max_fee_per_gas, Some(hex_word(2)));
    assert_eq!(row.tx_type, "cross_chain");
}

#[test]
fn a_row_without_optional_parts_holds_empty_text() {
    let mut tx = transaction(0);
    tx.signature = None;
    tx.transaction_type = None;
    tx.to = None;
    tx.gas_price = None;
    tx.block_number = None;
    let row = TxModel::from(7, &tx, &Tx::Native);
    assert_eq!((row.v.as_str(), row.r.as_str(), row.s.as_str()), ("", "", ""));
    assert_eq!(row.transaction_type, "");
    assert_eq!(row._to, None);
    assert_eq!(row.gas_price, None);
    assert_eq!(row.block_number, None);
    assert_eq!(row.tx_type, "native");
}

#[test]
fn a_row_reads_back_into_its_transaction() {
    for n in [0u64, 1, 77] {
        let tx = transaction(n);
        let back = TxModel::from(7, &tx, &Tx::Native).to_transaction().expect("readable");
        assert_eq!(format!("{back:?}"), format!("{tx:?}"));
    }
}

#[test]
fn block_numbers_above_the_signed_range_survive_a_row() {
    let mut tx = transaction(1);
    tx.block_number = Some(u64::MAX);
    let row = TxModel::from(7, &tx, &Tx::Native);
    assert_eq!(row.block_number, Some(-1));
    assert_eq!(row.to_transaction().unwrap().block_number, Some(u64::MAX));
}

#[test]
fn a_row_that_cannot_be_read_back_is_refused() {
    let good = || TxModel::from(7, &transaction(1), &Tx::Native);
    let mut row = good();
    row.value = "12".to_string();
    assert!(row.to_transaction().is_none());
    let mut row = good();
    row.transaction_index = None;
    assert!(row.to_transaction().is_none());
    let mut row = good();
    row.gas = "0x01".to_string();
    assert!(row.to_transaction().is_none());
    let mut row = good();
    row.input = "0xzz".to_string();
    assert!(row.to_transaction().is_none());
    let mut row = good();
    row.transaction_type = hex_word(256);
    assert!(row.to_transaction().is_none());
    let mut row = good();
    row.transaction_nonce = hex_word(1 << 64);
    assert!(row.to_transaction().is_none());
}

#[test]
fn lenient_columns_fall_back_to_zero() {
    let mut row = TxModel::from(7, &transaction(1), &Tx::Native);
    row.transaction_hash = "junk".to_string();
    row._from = "0x11".to_string();
    row.transaction_nonce = "".to_string();
    row.v = "?".to_string();
    row.max_fee_per_gas = Some("nine".to_string());
    row.block_number = None;
    row.transaction_type = "".to_string();
    let tx = row.to_transaction().expect("readable");
    assert_eq!(tx.hash, vec![0; 32]);
    assert_eq!(tx.from, vec![0; 20]);
    assert_eq!(tx.nonce, 0);
    assert_eq!(tx.signature.unwrap().v, vec![0; 32]);
    assert_eq!(tx.max_fee_per_gas, Some(0));
    assert_eq!(tx.block_number, Some(0));
    assert_eq!(tx.transaction_type, None);
    assert_eq!(tx.chain_id, Some(7));
}

#[test]
fn rows_are_shown_in_full_or_in_short() {
    let row = TxModel::from(7, &transaction(3), &Tx::Native);
    match InternalDataProvider::project(&row, &Parts { all: Some(true), summary_only: None }) {
        Some(TxAPIResponse::Transaction(tx)) => assert_eq!(tx.nonce, 3),
        other => panic!("{other:?}"),
    }
    match InternalDataProvider::project(&row, &Parts { all: None, summary_only: Some(true) }) {
        Some(TxAPIResponse::TxnSummary(short)) => {
            assert_eq!(short.hash, hex_word(4));
            assert_eq!(short.block_hash, Some(format!("0x{}", "bb".repeat(32))));
            assert_eq!(short.from, format!("0x{}", "11".repeat(20)));
            assert_eq!(short.to, Some(format!("0x{}", "22".repeat(20))));
            assert_eq!(short.status, Some(1));
            assert_eq!(short.value, hex_word(1_000_000));
            assert_eq!(short.block_height, 103);
        }
        other => panic!("{other:?}"),
    }
}

#[test]
fn a_short_row_needs_a_block_number() {
    let mut row = TxModel::from(7, &transaction(3), &Tx::Native);
    row.block_number = None;
    assert!(InternalDataProvider::project(&row, &Parts { all: None, summary_only: None }).is_none());
}

#[test]
fn a_transaction_in_a_block_has_a_short_form() {
    let short = TxnSummary::from(&transaction(3));
    assert_eq!(short.hash, hex_word(4));
    assert_eq!(short.block_height, 103);
    assert_eq!(short.status, Some(1));
    assert_eq!(short.value, hex_word(1_000_000));
}

#[test]
fn transactions_are_written_in_batches_of_250() {
    assert_eq!(BATCH_SIZE, 250);
    let txs: Vec<Transaction> = (0..600).map(transaction).collect();
    let mut tags = TxTags::new();
    tags.insert(hex_word(1), Tx::CrossChain);
    let write = InternalDataProvider::add_txns(7, 600, &txs, &tags);
    assert_eq!(write.chain, Chain { chain_id: 7, latest_tps: 600 });
    let sizes: Vec<usize> = write.batches.iter().map(|b| b.len()).collect();
    assert_eq!(sizes, vec![250, 250, 100]);
    assert_eq!(write.batches[0][0].tx_type, "cross_chain");
    assert_eq!(write.batches[0][1].tx_type, "native");
    assert_eq!(write.batches[1][0].transaction_nonce, hex_word(250));
    assert_eq!(write.batches[2][99].transaction_nonce, hex_word(599));
    assert!(write.batches.iter().flatten().all(|row| row.chain_id == 7));
}

#[test]
fn every_row_is_native_or_cross_chain() {
    let txs: Vec<Transaction> = (0..9).map(transaction).collect();
    let mut tags = TxTags::new();
    for n in [2u128, 5, 8] {
        tags.insert(hex_word(n), Tx::CrossChain);
    }
    let write = InternalDataProvider::add_txns(7, 9, &txs, &tags);
    let classes: Vec<&str> =
        write.batches.iter().flatten().map(|row| row.tx_type.as_str()).collect();
    assert!(classes.iter().all(|c| *c == "native" || *c == "cross_chain"));
    assert_eq!(classes.iter().filter(|c| **c == "cross_chain").count(), 3);
}

#[test]
fn full_batches_leave_no_empty_batch() {
    let txs: Vec<Transaction> = (0..500).map(transaction).collect();
    let write = InternalDataProvider::add_txns(7, 500, &txs, &TxTags::new());
    assert_eq!(write.batches.len(), 2);
    let write = InternalDataProvider::add_txns(7, 0, &vec![], &TxTags::new());
    assert!(write.batches.is_empty());
}

#[test]
fn the_analytics_write_counts_the_transactions() {
    let plan = InternalDataProvider::add_block(&7, 100, 1, 2, 3, 4, 5, 6);
    assert_eq!(plan.len(), 11);
    assert_eq!(format!("{:?}", plan[6]), r#"PutCount { key: "chain:7:tps", count: 5 }"#);
}

#[test]
fn failed_reads_count_as_zero_or_empty() {
    assert_eq!(InternalDataProvider::get_latest_height(None), 0);
    assert_eq!(InternalDataProvider::get_latest_height(Some(42)), 42);
    assert_eq!(InternalDataProvider::current_tps(None), 0);
    assert_eq!(InternalDataProvider::current_tps(Some(9)), 9);
    assert_eq!(InternalDataProvider::total_xfers_last_day(None), 0);
    assert_eq!(InternalDataProvider::total_xfers_last_day(Some(3)), 3);
    assert_eq!(InternalDataProvider::successful_xfers_last_day(None), 0);
    assert_eq!(InternalDataProvider::successful_xfers_last_day(Some(4)), 4);
    assert!(InternalDataProvider::live_tps(None).is_empty());
    let series = vec![(1, 2, "x".to_string())];
    assert_eq!(InternalDataProvider::live_tps(Some(series.clone())), series);
}

#[test]
fn windows_are_anchored_at_the_chain_or_at_the_clock() {
    let one = ChainId { chain_id: Some(7) };
    let every = ChainId { chain_id: None };
    assert_eq!(InternalDataProvider::day_anchor(&one, Some(100), 999), Some(100));
    assert_eq!(InternalDataProvider::day_anchor(&one, None, 999), None);
    assert_eq!(InternalDataProvider::day_anchor(&every, Some(100), 999), Some(999));
    assert_eq!(InternalDataProvider::live_anchor(Some(100), 999), 100);
    assert_eq!(InternalDataProvider::live_anchor(None, 999), 999);
    assert_eq!(DAY, 86_400);
    assert_eq!(SLEEP, 10);
}

#[test]
fn without_a_stride_the_volume_has_23_buckets_of_an_hour() {
    let anchor = 1_700_000_000;
    assert!(InternalDataProvider::volume_fits(Stride { stride: None }, anchor));
    let buckets = InternalDataProvider::volume_buckets(Stride { stride: None }, anchor);
    assert_eq!(buckets.len(), 23);
    for (j, bucket) in buckets.iter().enumerate() {
        let j = j as i64;
        assert_eq!(
            *bucket,
            VolumeBucket {
                window: 3600,
                anchor: anchor - j * 3600,
                label: anchor - (j + 1) * 3600,
            }
        );
    }
    assert_eq!(buckets[22].label, anchor - 23 * 3600);
}

#[test]
fn strides_select_the_shape_of_the_volume() {
    let anchor = 1_700_000_000;
    let hour = InternalDataProvider::volume_buckets(Stride { stride: Some(1) }, anchor);
    assert_eq!(hour.len(), 119);
    assert_eq!(hour[0], VolumeBucket { window: 30, anchor, label: anchor - 30 });
    let ten = InternalDataProvider::volume_buckets(Stride { stride: Some(2) }, anchor);
    assert_eq!(ten.len(), 59);
    assert_eq!(ten[58], VolumeBucket { window: 10, anchor: anchor - 580, label: anchor - 590 });
    for stride in [0u64, 3, 4, 24, u64::MAX] {
        let other = InternalDataProvider::volume_buckets(Stride { stride: Some(stride) }, anchor);
        assert_eq!(other.len(), 23);
        assert_eq!(other[0], VolumeBucket { window: 3600, anchor, label: anchor - 3600 });
        assert_eq!(
            other[22],
            VolumeBucket { window: 3600, anchor: anchor - 22 * 3600, label: anchor - 23 * 3600 }
        );
    }
}

#[test]
fn the_volume_is_in_ascending_order_of_time() {
    let anchor = 1_700_000_000;
    let sums: Vec<Option<u64>> = (1..=23).map(|n| if n == 5 { None } else { Some(n) }).collect();
    let series = InternalDataProvider::transaction_volume(Stride { stride: None }, anchor, &sums);
    assert_eq!(series.len(), 23);
    // The oldest bucket comes first.
    assert_eq!(series[0].timestamp, "2023-11-14 04:43:20.000 IST");
    assert_eq!((series[0].successful_txns, series[0].total_txns), (23, 23));
    assert_eq!(series[22].timestamp, "2023-11-15 02:43:20.000 IST");
    assert_eq!((series[22].successful_txns, series[22].total_txns), (1, 1));
    assert_eq!((series[18].successful_txns, series[18].total_txns), (0, 0));
    assert!(series.windows(2).all(|w| w[0].timestamp < w[1].timestamp));
}

#[test]
fn a_volume_off_the_calendar_is_found() {
    assert!(!InternalDataProvider::volume_fits(Stride { stride: None }, i64::MIN));
    assert!(!InternalDataProvider::volume_fits(Stride { stride: None }, i64::MAX));
    assert!(InternalDataProvider::volume_fits(Stride { stride: Some(1) }, 0));
}
