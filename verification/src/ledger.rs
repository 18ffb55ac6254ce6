//! The embedded ledger: per chain the latest block number, per block
//! the running transaction count, both as eight big-endian bytes, and
//! what the ledger's own worker and routes compute from them.

use crate::codec::{be_value, number_of};
use crate::text::{decimal, decimal_string};
use vstd::prelude::*;
use vstd::string::*;

verus! {

/// What a read of one key gave.
#[derive(Debug)]
pub enum Record {
    /// The ledger failed.
    Failed,
    /// The key is not there.
    Missing,
    Found(Vec<u8>),
}

/// The answer to a request for a chain's transactions per block.
#[derive(Clone, Copy, Debug, PartialEq, Eq, Structural)]
pub enum TpsAnswer {
    Tps(u64),
    ChainNotFound,
    DatabaseError,
}

/// The number that a record of eight bytes holds.
pub open spec fn stored_number(record: Record) -> Option<u64> {
    match record {
        Record::Found(bytes) => if bytes.len() == 8 {
            Some(be_value(bytes@) as u64)
        } else {
            None
        },
        _ => None,
    }
}

/// Eight bytes stand for less than two to the sixty-fourth.
pub proof fn lemma_eight_bytes_fit(bytes: Seq<u8>)
    requires
        bytes.len() == 8,
    ensures
        be_value(bytes) <= u64::MAX,
{
    reveal_with_fuel(be_value, 9);
    let b7 = bytes.drop_last();
    let b6 = b7.drop_last();
    let b5 = b6.drop_last();
    let b4 = b5.drop_last();
    let b3 = b4.drop_last();
    let b2 = b3.drop_last();
    let b1 = b2.drop_last();
    let b0 = b1.drop_last();
    assert(be_value(b0) == 0);
    assert(be_value(b1) <= 0xff);
    assert(be_value(b2) <= 0xffff);
    assert(be_value(b3) <= 0xff_ffff);
    assert(be_value(b4) <= 0xffff_ffff);
    assert(be_value(b5) <= 0xff_ffff_ffff);
    assert(be_value(b6) <= 0xffff_ffff_ffff);
    assert(be_value(b7) <= 0xff_ffff_ffff_ffff);
}

/// Reads the number that a record of eight bytes holds.
pub fn read_number(record: &Record) -> (number: Option<u64>)
    ensures
        number == stored_number(*record),
{
    match record {
        Record::Found(bytes) => {
            if bytes.len() != 8 {
                return None;
            }
            proof {
                lemma_eight_bytes_fit(bytes@);
            }
            match number_of(bytes) {
                Some(n) => Some(n as u64),
                None => None,
            }
        },
        _ => None,
    }
}

/// The key of a block's running transaction count: `<chain>:<block>`.
pub fn count_key(chain_id: u64, block_number: u64) -> (key: String)
    ensures
        key@ == decimal(chain_id as nat) + ":"@ + decimal(block_number as nat),
{
    let mut key = decimal_string(chain_id);
    key.append(":");
    let block = decimal_string(block_number);
    key.append(block.as_str());
    key
}

/// Where a worker over the ledger resumes: at the recorded height,
/// asking for the block after it, or at zero, asking for block zero,
/// where no height of eight bytes is recorded.
pub fn resume(record: &Record) -> (begun: (u64, u64))
    requires
        stored_number(*record) != Some(u64::MAX),
    ensures
        begun == match stored_number(*record) {
            Some(h) => (h, (h + 1) as u64),
            None => (0u64, 0u64),
        },
{
    match read_number(record) {
        Some(h) => (h, h + 1),
        None => (0, 0),
    }
}

/// The running transaction count of a block: its own transactions and
/// those of the block before, held at the top of the range.
pub fn running_count(block_transactions: usize, previous: usize) -> (count: usize)
    ensures
        count == if block_transactions + previous > usize::MAX {
            usize::MAX
        } else {
            (block_transactions + previous) as usize
        },
{
    block_transactions.saturating_add(previous)
}

/// What to answer for a chain, from the record of its height and the
/// record of the running count at that height: the count divided by the
/// height. A chain without a height is not found, and so is one whose
/// count could not be read; a failed read of the height and a count
/// that is missing or not of eight bytes are database errors.
pub fn get_tps(height: &Record, count: &Record) -> (answer: TpsAnswer)
    requires
        *height matches Record::Found(bytes) ==> bytes.len() == 8 && (stored_number(*count)
            is Some ==> be_value(bytes@) != 0),
    ensures
        answer == match *height {
            Record::Failed => TpsAnswer::DatabaseError,
            Record::Missing => TpsAnswer::ChainNotFound,
            Record::Found(bytes) => match *count {
                Record::Failed => TpsAnswer::ChainNotFound,
                _ => match stored_number(*count) {
                    Some(n) => TpsAnswer::Tps(n / (be_value(bytes@) as u64)),
                    None => TpsAnswer::DatabaseError,
                },
            },
        },
{
    match height {
        Record::Failed => TpsAnswer::DatabaseError,
        Record::Missing => TpsAnswer::ChainNotFound,
        Record::Found(bytes) => {
            proof {
                lemma_eight_bytes_fit(bytes@);
            }
            match count {
                Record::Failed => TpsAnswer::ChainNotFound,
                _ => match read_number(count) {
                    Some(n) => {
                        let latest = match read_number(height) {
                            Some(h) => h,
                            None => 1,
                        };
                        TpsAnswer::Tps(n / latest)
                    },
                    None => TpsAnswer::DatabaseError,
                },
            }
        },
    }
}

/// The greeting of the ledger's health check.
pub fn health_check() -> (body: String)
    ensures
        body@ == "Live"@,
{
    String::from_str("Live")
}

} // verus!
