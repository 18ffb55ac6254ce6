//! The rules of the read API: which requests are refused, and where a
//! transaction is looked up.

use crate::codec::hex_value;
use crate::error::IndexerError;
use crate::text::{decimal, decimal_string};
use crate::types::{counted, Limit, Parts, TxFilter, TxIdentifier, MAX_WINDOW_SIZE};
use vstd::prelude::*;
use vstd::string::*;

verus! {

/// The page size that a request asks for: the largest where it names
/// none.
pub open spec fn window_of(limit: Limit) -> u64 {
    match limit.limit {
        Some(n) => n,
        None => MAX_WINDOW_SIZE,
    }
}

/// The request is well-formed: its page size is between 1 and 25, it
/// names at most one way to identify transactions, and at most one part.
pub open spec fn well_formed(limit: Limit, parts: Parts, identifier: TxIdentifier) -> bool {
    &&& 0 < window_of(limit) <= MAX_WINDOW_SIZE
    &&& counted(identifier.tx_hash) + counted(identifier.latest) + counted(identifier.page_idx)
        <= 1
    &&& counted(parts.all) + counted(parts.summary_only) <= 1
}

/// The text without a leading `0x` or `0X`.
pub open spec fn without_prefix(text: Seq<char>) -> Seq<char> {
    if text.len() >= 2 && text[0] == '0' && (text[1] == 'x' || text[1] == 'X') {
        text.skip(2)
    } else {
        text
    }
}

/// The text is a transaction hash: 64 hex digits in either case, with
/// or without a prefix.
pub open spec fn is_tx_hash(text: Seq<char>) -> bool {
    &&& without_prefix(text).len() == 64
    &&& forall|i: int|
        0 <= i < without_prefix(text).len() ==> hex_value(#[trigger] without_prefix(text)[i])
            is Some
}

/// Calls alloy's `TxHash::from_str` (`FixedBytes::<32>::from_hex`, which
/// decodes with `const_hex::decode_to_slice`). That function strips one
/// leading `0x` or `0X`, wants exactly two hex digits per byte of the
/// hash, in either case, and fails on anything else; the contract claims
/// that it succeeds on exactly those texts.
#[verifier::external_body]
fn parses_as_hash(text: &str) -> (ok: bool)
    ensures
        ok == is_tx_hash(text@),
{
    text.parse::<alloy::primitives::TxHash>().is_ok()
}

/// Where to look a transaction up.
#[derive(Debug)]
pub enum Lookup {
    /// Ask the node of this chain for the transaction with this hash.
    Node { chain_id: u64, hash: String },
    /// Ask the nodes in ascending order of their chain ids and take the
    /// first that has the transaction; where none has it, list from the
    /// relational store.
    Scan { hash: String },
    /// List from the relational store.
    Store,
}

/// How a lookup by hash at one node ended.
#[derive(Clone, Copy, Debug, PartialEq, Eq, Structural)]
pub enum NodeReply {
    /// No node is known for the chain.
    NoProvider,
    /// The node failed.
    Failed,
    /// The node does not have the transaction.
    Missing,
    /// The node has the transaction.
    Found,
}

/// What follows a reply in a scan over the nodes.
#[derive(Clone, Copy, Debug, PartialEq, Eq, Structural)]
pub enum ScanStep {
    /// Answer with the transaction that the node has.
    Answer,
    /// Ask the next node.
    NextNode,
    /// No node has the transaction: list from the relational store.
    ListFromStore,
}

/// What follows a reply in a scan: the first node that has the
/// transaction ends the scan; a node that fails or does not have it is
/// passed over; after the last node the relational store is asked.
pub open spec fn scan_next(reply: NodeReply, nodes_left: nat) -> ScanStep {
    if reply == NodeReply::Found {
        ScanStep::Answer
    } else if nodes_left > 0 {
        ScanStep::NextNode
    } else {
        ScanStep::ListFromStore
    }
}

/// The message of the refusal that a lookup at one node ends with.
pub open spec fn node_refusal(chain_id: u64, reply: NodeReply) -> Option<Seq<char>> {
    match reply {
        NodeReply::NoProvider => Some(
            "No provider found for chain ID: "@ + decimal(chain_id as nat),
        ),
        NodeReply::Failed => Some(
            "Failed to fetch transaction from provider for chain "@ + decimal(chain_id as nat),
        ),
        NodeReply::Missing => Some("Transaction not found on chain "@ + decimal(chain_id as nat)),
        NodeReply::Found => None,
    }
}

/// The greeting at the root of the API.
pub fn index_route() -> (body: String)
    ensures
        body@ == "Geth Indexer."@,
{
    String::from_str("Geth Indexer.")
}

fn refusal(message: &str) -> (error: IndexerError)
    ensures
        error matches IndexerError::ProviderError(m) && m@ == message@,
{
    IndexerError::ProviderError(String::from_str(message))
}

/// The page size of a request, or the refusal of a size of zero or of
/// more than 25.
pub fn window(limit: &Limit) -> (size: Result<u64, IndexerError>)
    ensures
        match size {
            Ok(n) => n == window_of(*limit) && 0 < n <= MAX_WINDOW_SIZE,
            Err(e) => !(0 < window_of(*limit) <= MAX_WINDOW_SIZE) && (e matches
                IndexerError::ProviderError(m) && m@ == "failed to deserialize"@),
        },
{
    let size: u64 = match limit.limit {
        Some(n) => n,
        None => MAX_WINDOW_SIZE,
    };
    if size == 0 || size > MAX_WINDOW_SIZE {
        Err(refusal("failed to deserialize"))
    } else {
        Ok(size)
    }
}

/// Decides where the transactions of a request are looked up, or
/// refuses the request. A request that is not well-formed is refused; so
/// is one whose hash is no hash. A hash with a chain goes to that
/// chain's node, a hash without one to all nodes in turn, and every
/// other request to the relational store.
pub fn transactions(
    limit: &Limit,
    parts: &Parts,
    tx_identifier: &TxIdentifier,
    tx_filter: &TxFilter,
) -> (lookup: Result<Lookup, IndexerError>)
    ensures
        match lookup {
            Err(IndexerError::ProviderError(m)) => if !well_formed(
                *limit,
                *parts,
                *tx_identifier,
            ) {
                m@ == "failed to deserialize"@
            } else {
                (tx_identifier.tx_hash matches Some(h) && !is_tx_hash(h@) && m@
                    == "Invalid transaction hash: "@ + h@)
            },
            Err(_) => false,
            Ok(found) => well_formed(*limit, *parts, *tx_identifier) && (match tx_identifier.tx_hash {
                Some(h) => is_tx_hash(h@) && (match tx_filter.chain_id {
                    Some(c) => (found matches Lookup::Node { chain_id, hash } && chain_id == c
                        && hash@ == h@),
                    None => (found matches Lookup::Scan { hash } && hash@ == h@),
                }),
                None => found is Store,
            }),
        },
{
    match window(limit) {
        Err(e) => {
            return Err(e);
        },
        Ok(_) => {},
    }
    if tx_identifier.field_count() > 1 || parts.field_count() > 1 {
        return Err(refusal("failed to deserialize"));
    }
    match &tx_identifier.tx_hash {
        Some(h) => {
            if !parses_as_hash(h.as_str()) {
                let mut message = String::from_str("Invalid transaction hash: ");
                message.append(h.as_str());
                return Err(IndexerError::ProviderError(message));
            }
            match tx_filter.chain_id {
                Some(c) => Ok(Lookup::Node { chain_id: c, hash: h.clone() }),
                None => Ok(Lookup::Scan { hash: h.clone() }),
            }
        },
        None => Ok(Lookup::Store),
    }
}

/// What a lookup at one node ends with: nothing to refuse where the
/// node has the transaction, else the refusal that says what went wrong.
pub fn node_reply(chain_id: u64, reply: NodeReply) -> (refused: Option<IndexerError>)
    ensures
        match refused {
            Some(e) => (e matches IndexerError::ProviderError(m) && node_refusal(chain_id, reply)
                == Some(m@)),
            None => node_refusal(chain_id, reply) is None,
        },
{
    let head = match reply {
        NodeReply::NoProvider => "No provider found for chain ID: ",
        NodeReply::Failed => "Failed to fetch transaction from provider for chain ",
        NodeReply::Missing => "Transaction not found on chain ",
        NodeReply::Found => {
            return None;
        },
    };
    let mut message = String::from_str(head);
    let id = decimal_string(chain_id);
    message.append(id.as_str());
    Some(IndexerError::ProviderError(message))
}

/// Decides what follows the reply of one node in a scan over the nodes,
/// of which `nodes_left` have not been asked yet.
pub fn scan_step(reply: NodeReply, nodes_left: usize) -> (step: ScanStep)
    ensures
        step == scan_next(reply, nodes_left as nat),
{
    match reply {
        NodeReply::Found => ScanStep::Answer,
        _ => if nodes_left > 0 {
            ScanStep::NextNode
        } else {
            ScanStep::ListFromStore
        },
    }
}

/// The refusal of a listing that the relational store could not give.
pub fn store_failed() -> (error: IndexerError)
    ensures
        error matches IndexerError::ProviderError(m) && m@ == "failed to get response from db"@,
{
    refusal("failed to get response from db")
}

} // verus!
