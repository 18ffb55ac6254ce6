use geth_indexer::models::Transaction;
use geth_indexer::processor::{
    batch_event_topic, checked_parse_logs, checked_process_block, contribution, is_transfer,
    parse_logs, process_block, receipt_is_readable, BatchIds, Effect, EventLog, Receipt, TxTags,
};
use geth_indexer::types::Tx;

fn transaction(hash: u8, input: Vec<u8>, to: Option<Vec<u8>>) -> Transaction {
    Transaction {
        hash: vec![hash; 32],
        nonce: 0,
        block_hash: Some(vec![1; 32]),
        block_number: Some(1),
        transaction_index: Some(0),
        from: vec![2; 20],
        to,
        value: vec![0; 32],
        gas_price: None,
        gas: 21_000,
        input,
        signature: None,
        transaction_type: None,
        max_priority_fee_per_gas: None,
        max_fee_per_gas: None,
        chain_id: Some(7),
    }
}

fn batch_log(start: u32, end: u32) -> EventLog {
    let topic = alloy::primitives::keccak256(
        "ETHReceivedFromSourceChainInBatch(uint32,address[],uint256[],uint32,uint32)",
    );
    EventLog {
        topics: vec![topic.to_vec(), vec![0; 32], vec![0; 32]],
        batch: Some(BatchIds { start_message_id: start, end_message_id: end }),
    }
}

fn other_log() -> EventLog {
    EventLog { topics: vec![vec![9; 32]], batch: None }
}

fn hash_text(byte: u8) -> String {
    format!("0x{}", format!("{byte:02x}").repeat(32))
}

#[test]
fn classification_of_a_native_transfer() {
    let tx = transaction(1, vec![], Some(vec![3; 20]));
    assert!(is_transfer(&tx));
    assert_eq!(
        contribution(&tx, &None),
        Some(Effect { total: 1, failed: 0, cross_chain: 0, class: Tx::Native })
    );
    let tally = process_block(&vec![tx], &vec![None]);
    assert_eq!((tally.total, tally.failed, tally.native, tally.cross_chain), (1, 0, 1, 0));
    assert_eq!(tally.classes.get(&hash_text(1)), Some(Tx::Native));
}

#[test]
fn cross_chain_batch_decoded() {
    let tx = transaction(2, vec![0xaa], Some(vec![3; 20]));
    assert!(!is_transfer(&tx));
    let receipt = Receipt { status: true, logs: vec![other_log(), batch_log(95, 100)] };
    assert!(receipt_is_readable(&receipt));
    assert_eq!(parse_logs(&receipt), (true, 5));
    let receipt = Some(receipt);
    assert_eq!(
        contribution(&tx, &receipt),
        Some(Effect { total: 5, failed: 0, cross_chain: 5, class: Tx::CrossChain })
    );
    let tally = process_block(&vec![tx], &vec![receipt]);
    assert_eq!((tally.total, tally.failed, tally.native, tally.cross_chain), (5, 0, 0, 5));
    assert_eq!(tally.classes.get(&hash_text(2)), Some(Tx::CrossChain));
}

#[test]
fn the_event_topic_is_the_digest_of_the_signature() {
    let topic = batch_event_topic();
    assert_eq!(topic.len(), 32);
    let signature = "ETHReceivedFromSourceChainInBatch(uint32,address[],uint256[],uint32,uint32)";
    assert_ne!(topic.as_slice(), &signature.as_bytes()[..32]);
    assert_eq!(topic, alloy::primitives::keccak256(signature).to_vec());
}

#[test]
fn a_transaction_without_recipient_is_no_transfer() {
    assert!(!is_transfer(&transaction(1, vec![], None)));
}

#[test]
fn a_failed_receipt_counts_as_failed() {
    let tx = transaction(3, vec![1], None);
    let receipt = Some(Receipt { status: false, logs: vec![batch_log(1, 4)] });
    assert_eq!(
        contribution(&tx, &receipt),
        Some(Effect { total: 3, failed: 1, cross_chain: 3, class: Tx::CrossChain })
    );
}

#[test]
fn a_receipt_without_the_event_counts_for_nothing() {
    let tx = transaction(3, vec![1], None);
    let receipt = Some(Receipt { status: false, logs: vec![other_log()] });
    assert_eq!(
        contribution(&tx, &receipt),
        Some(Effect { total: 0, failed: 1, cross_chain: 0, class: Tx::CrossChain })
    );
}

#[test]
fn a_transaction_without_receipt_is_dropped() {
    let tx = transaction(4, vec![1], Some(vec![3; 20]));
    assert_eq!(contribution(&tx, &None), None);
    let tally = process_block(&vec![tx], &vec![None]);
    assert_eq!((tally.total, tally.failed, tally.native, tally.cross_chain), (0, 0, 0, 0));
    assert_eq!(tally.classes.get(&hash_text(4)), None);
}

#[test]
fn the_first_log_of_the_event_decides() {
    let mut undecodable = batch_log(0, 0);
    undecodable.batch = None;
    let receipt = Receipt { status: true, logs: vec![undecodable, batch_log(1, 9)] };
    assert!(receipt_is_readable(&receipt));
    assert_eq!(parse_logs(&receipt), (false, 0));
    let receipt = Receipt { status: true, logs: vec![batch_log(2, 3), batch_log(1, 9)] };
    assert_eq!(parse_logs(&receipt), (true, 1));
}

#[test]
fn logs_without_the_event_give_nothing() {
    assert_eq!(parse_logs(&Receipt { status: true, logs: vec![] }), (false, 0));
    assert_eq!(parse_logs(&Receipt { status: true, logs: vec![other_log()] }), (false, 0));
}

#[test]
fn ids_that_run_backwards_are_found() {
    assert!(!receipt_is_readable(&Receipt { status: true, logs: vec![batch_log(5, 4)] }));
    assert!(receipt_is_readable(&Receipt { status: true, logs: vec![batch_log(4, 5)] }));
    // Only the first batch log counts.
    let receipt = Receipt { status: true, logs: vec![batch_log(4, 5), batch_log(5, 4)] };
    assert!(receipt_is_readable(&receipt));
}

#[test]
fn logs_without_topics_are_stepped_over() {
    let bare = || EventLog { topics: vec![], batch: None };
    let receipt = Receipt { status: true, logs: vec![bare()] };
    assert!(receipt_is_readable(&receipt));
    assert_eq!(parse_logs(&receipt), (false, 0));
    let receipt = Receipt { status: true, logs: vec![bare(), other_log(), bare()] };
    assert_eq!(parse_logs(&receipt), (false, 0));
    let receipt = Receipt { status: false, logs: vec![bare(), batch_log(95, 100), bare()] };
    assert!(receipt_is_readable(&receipt));
    assert_eq!(parse_logs(&receipt), (true, 5));
    // A decoded payload on a log without topics is no batch log either.
    let mut odd = batch_log(1, 9);
    odd.topics = vec![];
    assert_eq!(parse_logs(&Receipt { status: true, logs: vec![odd] }), (false, 0));
    let call = transaction(9, vec![1], None);
    let receipt = Some(Receipt { status: false, logs: vec![bare()] });
    assert_eq!(
        contribution(&call, &receipt),
        Some(Effect { total: 0, failed: 1, cross_chain: 0, class: Tx::CrossChain })
    );
    let tally = process_block(&vec![call], &vec![receipt]);
    assert_eq!((tally.total, tally.failed, tally.native, tally.cross_chain), (0, 1, 0, 0));
}

#[test]
fn a_block_is_counted_transaction_by_transaction() {
    let txs = vec![
        transaction(1, vec![], Some(vec![3; 20])),
        transaction(2, vec![1], Some(vec![3; 20])),
        transaction(3, vec![1], None),
        transaction(4, vec![], Some(vec![3; 20])),
        transaction(5, vec![7], Some(vec![3; 20])),
    ];
    let receipts = vec![
        None,
        Some(Receipt { status: true, logs: vec![batch_log(10, 14)] }),
        Some(Receipt { status: false, logs: vec![] }),
        None,
        None,
    ];
    let tally = process_block(&txs, &receipts);
    assert_eq!((tally.total, tally.failed, tally.native, tally.cross_chain), (6, 1, 2, 4));
    assert_eq!(tally.classes.get(&hash_text(1)), Some(Tx::Native));
    assert_eq!(tally.classes.get(&hash_text(2)), Some(Tx::CrossChain));
    assert_eq!(tally.classes.get(&hash_text(3)), Some(Tx::CrossChain));
    assert_eq!(tally.classes.get(&hash_text(4)), Some(Tx::Native));
    assert_eq!(tally.classes.get(&hash_text(5)), None);
    assert_eq!(tally.classes.class_of(&hash_text(5)), Tx::Native);
}

#[test]
fn a_later_assignment_replaces_an_earlier_one() {
    let mut tags = TxTags::new();
    assert_eq!(tags.get("0x01"), None);
    tags.insert("0x01".to_string(), Tx::Native);
    tags.insert("0x02".to_string(), Tx::Native);
    tags.insert("0x01".to_string(), Tx::CrossChain);
    assert_eq!(tags.get("0x01"), Some(Tx::CrossChain));
    assert_eq!(tags.get("0x02"), Some(Tx::Native));
    assert_eq!(tags.class_of("0x03"), Tx::Native);
}

#[test]
fn what_cannot_be_processed_is_refused() {
    let backwards = Receipt { status: true, logs: vec![batch_log(5, 4)] };
    assert_eq!(checked_parse_logs(&backwards), None);
    let forwards = Receipt { status: true, logs: vec![batch_log(4, 6)] };
    assert_eq!(checked_parse_logs(&forwards), Some((true, 2)));
    let call = transaction(1, vec![1], None);
    assert!(checked_process_block(&vec![call], &vec![Some(backwards)]).is_none());
    let call = transaction(1, vec![1], None);
    assert!(checked_process_block(&vec![call], &vec![]).is_none());
    // A native transfer needs no receipt, so a receipt that cannot be
    // searched does not matter.
    let transfer = transaction(1, vec![], Some(vec![3; 20]));
    let backwards = Receipt { status: true, logs: vec![batch_log(5, 4)] };
    let tally = checked_process_block(&vec![transfer], &vec![Some(backwards)]).expect("tally");
    assert_eq!((tally.total, tally.native), (1, 1));
    let call = transaction(2, vec![1], None);
    let tally = checked_process_block(&vec![call], &vec![Some(forwards)]).expect("tally");
    assert_eq!((tally.total, tally.cross_chain), (2, 2));
}
