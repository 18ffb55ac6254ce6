//! The query types of the read API.

use crate::text::str_eq;
use vstd::prelude::*;
use vstd::string::*;

verus! {

/// The largest page size that a transaction listing may ask for.
pub const MAX_WINDOW_SIZE: u64 = 25;

/// An analytics series that the metrics endpoint can serve.
#[derive(Clone, Copy, Debug, PartialEq, Eq, Structural)]
pub enum Metric {
    CurrentTPS,
    LiveTPS,
    TransactionVolume,
    TotalTransactions,
    SuccessfulTransfers,
}

impl Metric {
    /// The metric that a path segment names; a segment that names none
    /// stands for the current rate.
    pub open spec fn named(input: Seq<char>) -> Metric {
        if input == "live_tps"@ {
            Metric::LiveTPS
        } else if input == "transaction_volume"@ {
            Metric::TransactionVolume
        } else if input == "total_transfers"@ {
            Metric::TotalTransactions
        } else if input == "successful_transfers"@ {
            Metric::SuccessfulTransfers
        } else {
            Metric::CurrentTPS
        }
    }

    /// Reads a metric's name.
    pub fn from_str(input: &str) -> (metric: Metric)
        ensures
            metric == Metric::named(input@),
    {
        if str_eq(input, "live_tps") {
            Metric::LiveTPS
        } else if str_eq(input, "transaction_volume") {
            Metric::TransactionVolume
        } else if str_eq(input, "total_transfers") {
            Metric::TotalTransactions
        } else if str_eq(input, "successful_transfers") {
            Metric::SuccessfulTransfers
        } else {
            Metric::CurrentTPS
        }
    }
}

/// One bucket of the transaction volume series.
#[derive(Debug)]
pub struct TxResponse {
    pub successful_txns: u64,
    pub total_txns: u64,
    pub timestamp: String,
}

/// Counting the optional fields of a query that were given.
pub trait IfSomeBase {
    /// Whether a value is present.
    spec fn holds_value(&self) -> bool;

    /// One when a value is present, zero when not.
    fn if_some(&self) -> (n: usize)
        ensures
            n == if self.holds_value() {
                1usize
            } else {
                0usize
            },
    ;

    /// Whether a value is present.
    fn _extract_is_some(&self) -> (present: bool)
        ensures
            present == self.holds_value(),
    ;
}

impl<T> IfSomeBase for Option<T> {
    open spec fn holds_value(&self) -> bool {
        self is Some
    }

    fn if_some(&self) -> (n: usize) {
        if self.is_some() {
            1
        } else {
            0
        }
    }

    fn _extract_is_some(&self) -> (present: bool) {
        self.is_some()
    }
}

/// One when the option holds a value, zero when not.
pub open spec fn counted<T>(field: Option<T>) -> nat {
    if field is Some {
        1
    } else {
        0
    }
}

/// Sort order of a listing.
#[derive(Debug)]
pub struct Order {
    pub order: Option<String>,
}

impl Order {
    pub fn field_count(&self) -> (n: usize)
        ensures
            n == counted(self.order),
    {
        self.order.if_some()
    }

    pub fn field_name(&self) -> (name: &'static str)
        ensures
            name@ == if self.order is Some {
                "order"@
            } else {
                ""@
            },
    {
        if self.order._extract_is_some() {
            "order"
        } else {
            ""
        }
    }
}

/// The chain that a metric is asked for; absent for all chains.
#[derive(Clone, Copy, Debug)]
pub struct ChainId {
    pub chain_id: Option<u64>,
}

impl ChainId {
    pub fn field_count(&self) -> (n: usize)
        ensures
            n == counted(self.chain_id),
    {
        self.chain_id.if_some()
    }

    pub fn field_name(&self) -> (name: &'static str)
        ensures
            name@ == if self.chain_id is Some {
                "chain_id"@
            } else {
                ""@
            },
    {
        if self.chain_id._extract_is_some() {
            "chain_id"
        } else {
            ""
        }
    }
}

/// Selects one of the prebuilt window and interval pairs.
#[derive(Clone, Copy, Debug)]
pub struct Stride {
    pub stride: Option<u64>,
}

/// The class of transactions that a query is about.
#[derive(Clone, Copy, Debug)]
pub struct Type {
    pub tx_type: Option<Tx>,
}

/// A class of transactions: the two that ingest assigns, and `All` for
/// queries that do not tell them apart.
#[derive(Clone, Copy, Debug, PartialEq, Eq, Structural)]
pub enum Tx {
    Native,
    CrossChain,
    All,
}

impl Tx {
    /// The class that a text names; a text that names none stands for
    /// native transfers.
    pub open spec fn named(input: Seq<char>) -> Tx {
        if input == "cross_chain"@ {
            Tx::CrossChain
        } else if input == "all"@ {
            Tx::All
        } else {
            Tx::Native
        }
    }

    /// The text under which a class is stored and queried.
    pub open spec fn label(self) -> Seq<char> {
        match self {
            Tx::Native => "native"@,
            Tx::CrossChain => "cross_chain"@,
            Tx::All => "all"@,
        }
    }

    /// Reads a class's name.
    pub fn from_str(input: &str) -> (class: Tx)
        ensures
            class == Tx::named(input@),
    {
        if str_eq(input, "cross_chain") {
            Tx::CrossChain
        } else if str_eq(input, "all") {
            Tx::All
        } else {
            Tx::Native
        }
    }

    /// The class's name as a static text.
    pub fn as_str(&self) -> (name: &'static str)
        ensures
            name@ == self.label(),
    {
        match self {
            Tx::Native => "native",
            Tx::CrossChain => "cross_chain",
            Tx::All => "all",
        }
    }

    /// The class's name.
    pub fn to_string(&self) -> (name: String)
        ensures
            name@ == self.label(),
    {
        String::from_str(self.as_str())
    }

    /// Whether ingest can assign this class to a transaction.
    pub open spec fn is_class(self) -> bool {
        self != Tx::All
    }
}

/// Reading a class's name back gives the class.
pub proof fn lemma_tx_label_round_trip(class: Tx)
    ensures
        Tx::named(class.label()) == class,
{
    reveal_strlit("native");
    reveal_strlit("cross_chain");
    reveal_strlit("all");
    if class == Tx::Native {
        assert("native"@.len() != "cross_chain"@.len());
        assert("native"@.len() != "all"@.len());
    } else if class == Tx::All {
        assert("all"@.len() != "cross_chain"@.len());
    }
}

/// The page size that a listing asks for.
#[derive(Clone, Copy, Debug)]
pub struct Limit {
    pub limit: Option<u64>,
}

/// Filters on a transaction listing.
#[derive(Debug)]
pub struct TxFilter {
    pub sender: Option<String>,
    pub status: Option<i16>,
    pub recipient: Option<String>,
    pub chain_id: Option<u64>,
}

impl TxFilter {
    pub fn field_count(&self) -> (n: usize)
        ensures
            n == counted(self.sender) + counted(self.status) + counted(self.recipient) + counted(
                self.chain_id,
            ),
    {
        self.sender.if_some() + self.status.if_some() + self.recipient.if_some()
            + self.chain_id.if_some()
    }

    /// The name of the last field that was given, in declaration order.
    pub fn field_name(&self) -> (name: &'static str)
        ensures
            name@ == if self.chain_id is Some {
                "chain_id"@
            } else if self.recipient is Some {
                "recipient"@
            } else if self.status is Some {
                "status"@
            } else if self.sender is Some {
                "sender"@
            } else {
                ""@
            },
    {
        let mut result = "";
        if self.sender._extract_is_some() {
            result = "sender";
        }
        if self.status._extract_is_some() {
            result = "status";
        }
        if self.recipient._extract_is_some() {
            result = "recipient";
        }
        if self.chain_id._extract_is_some() {
            result = "chain_id";
        }
        result
    }
}

/// What a listing is looked up by: a hash, the latest, or a page.
#[derive(Debug)]
pub struct TxIdentifier {
    pub tx_hash: Option<String>,
    pub latest: Option<bool>,
    pub page_idx: Option<u64>,
}

impl TxIdentifier {
    pub fn field_count(&self) -> (n: usize)
        ensures
            n == counted(self.tx_hash) + counted(self.latest) + counted(self.page_idx),
    {
        self.tx_hash.if_some() + self.latest.if_some() + self.page_idx.if_some()
    }

    /// The name of the last field that was given, in declaration order.
    pub fn field_name(&self) -> (name: &'static str)
        ensures
            name@ == if self.page_idx is Some {
                "page_idx"@
            } else if self.latest is Some {
                "latest"@
            } else if self.tx_hash is Some {
                "tx_hash"@
            } else {
                ""@
            },
    {
        let mut result = "";
        if self.tx_hash._extract_is_some() {
            result = "tx_hash";
        }
        if self.latest._extract_is_some() {
            result = "latest";
        }
        if self.page_idx._extract_is_some() {
            result = "page_idx";
        }
        result
    }
}

/// How much of each transaction a listing returns.
#[derive(Clone, Copy, Debug)]
pub struct Parts {
    pub all: Option<bool>,
    pub summary_only: Option<bool>,
}

impl Parts {
    pub fn field_count(&self) -> (n: usize)
        ensures
            n == counted(self.all) + counted(self.summary_only),
    {
        self.all.if_some() + self.summary_only.if_some()
    }

    /// The name of the last field that was given, in declaration order.
    pub fn field_name(&self) -> (name: &'static str)
        ensures
            name@ == if self.summary_only is Some {
                "summary_only"@
            } else if self.all is Some {
                "all"@
            } else {
                ""@
            },
    {
        let mut result = "";
        if self.all._extract_is_some() {
            result = "all";
        }
        if self.summary_only._extract_is_some() {
            result = "summary_only";
        }
        result
    }
}

/// The short form of a transaction in a listing.
#[derive(Debug)]
pub struct TxnSummary {
    pub hash: String,
    pub block_hash: Option<String>,
    pub to: Option<String>,
    pub from: String,
    pub status: Option<u8>,
    pub value: String,
    pub block_height: u64,
}

} // verus!
