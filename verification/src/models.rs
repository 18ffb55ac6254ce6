//! The rows of the relational store and the transactions they are made
//! from.

use crate::codec::{
    be_value, decoded_hex, from_hex_string, hex_with_prefix, number_of, to_hex_string_internal,
    word, word_bytes,
};
use crate::codec::{lemma_be_round_trip, lemma_hex_round_trip, lemma_u128_fits_word};
use crate::types::{Tx, TxnSummary};
use vstd::prelude::*;
use vstd::string::*;

verus! {

/// A chain's row: its id and the transaction count of its latest block.
#[derive(Clone, Copy, Debug, PartialEq, Eq, Structural)]
pub struct Chain {
    pub chain_id: i64,
    pub latest_tps: i64,
}

/// The signature of a transaction, each part a 32-byte word.
#[derive(Debug)]
pub struct Signature {
    pub v: Vec<u8>,
    pub r: Vec<u8>,
    pub s: Vec<u8>,
}

/// A transaction as a node reports it, in plain values: hashes and
/// addresses as bytes, the value as a 32-byte word.
#[derive(Debug)]
pub struct Transaction {
    pub hash: Vec<u8>,
    pub nonce: u64,
    pub block_hash: Option<Vec<u8>>,
    pub block_number: Option<u64>,
    pub transaction_index: Option<u64>,
    pub from: Vec<u8>,
    pub to: Option<Vec<u8>>,
    pub value: Vec<u8>,
    pub gas_price: Option<u128>,
    pub gas: u128,
    pub input: Vec<u8>,
    pub signature: Option<Signature>,
    pub transaction_type: Option<u8>,
    pub max_priority_fee_per_gas: Option<u128>,
    pub max_fee_per_gas: Option<u128>,
    pub chain_id: Option<u64>,
}

/// A transaction's row.
#[derive(Debug)]
pub struct TxModel {
    pub chain_id: i64,
    pub transaction_hash: String,
    pub transaction_nonce: String,
    pub block_hash: Option<String>,
    pub block_number: Option<i64>,
    pub transaction_index: Option<i64>,
    pub _from: String,
    pub _to: Option<String>,
    pub value: String,
    pub gas_price: Option<String>,
    pub gas: String,
    pub input: String,
    pub v: String,
    pub r: String,
    pub s: String,
    pub transaction_type: String,
    pub impersonated: bool,
    pub max_priority_fee_per_gas: Option<String>,
    pub max_fee_per_gas: Option<String>,
    pub tx_type: String,
}

/// A transaction's row as a mathematical value.
pub struct TxRecord {
    pub chain_id: int,
    pub transaction_hash: Seq<char>,
    pub transaction_nonce: Seq<char>,
    pub block_hash: Option<Seq<char>>,
    pub block_number: Option<int>,
    pub transaction_index: Option<int>,
    pub from: Seq<char>,
    pub to: Option<Seq<char>>,
    pub value: Seq<char>,
    pub gas_price: Option<Seq<char>>,
    pub gas: Seq<char>,
    pub input: Seq<char>,
    pub v: Seq<char>,
    pub r: Seq<char>,
    pub s: Seq<char>,
    pub transaction_type: Seq<char>,
    pub impersonated: bool,
    pub max_priority_fee_per_gas: Option<Seq<char>>,
    pub max_fee_per_gas: Option<Seq<char>>,
    pub tx_type: Seq<char>,
}

/// The text of an optional column.
pub open spec fn text_of(column: Option<String>) -> Option<Seq<char>> {
    match column {
        Some(text) => Some(text@),
        None => None,
    }
}

impl View for TxModel {
    type V = TxRecord;

    open spec fn view(&self) -> TxRecord {
        TxRecord {
            chain_id: self.chain_id as int,
            transaction_hash: self.transaction_hash@,
            transaction_nonce: self.transaction_nonce@,
            block_hash: text_of(self.block_hash),
            block_number: match self.block_number {
                Some(n) => Some(n as int),
                None => None,
            },
            transaction_index: match self.transaction_index {
                Some(n) => Some(n as int),
                None => None,
            },
            from: self._from@,
            to: text_of(self._to),
            value: self.value@,
            gas_price: text_of(self.gas_price),
            gas: self.gas@,
            input: self.input@,
            v: self.v@,
            r: self.r@,
            s: self.s@,
            transaction_type: self.transaction_type@,
            impersonated: self.impersonated,
            max_priority_fee_per_gas: text_of(self.max_priority_fee_per_gas),
            max_fee_per_gas: text_of(self.max_fee_per_gas),
            tx_type: self.tx_type@,
        }
    }
}

/// An unsigned 64-bit number read as a signed one: the upper half of the
/// range becomes negative.
pub open spec fn as_signed(n: u64) -> int {
    if n <= i64::MAX {
        n as int
    } else {
        n - 0x1_0000_0000_0000_0000
    }
}

/// A signed 64-bit number read as an unsigned one: the negative half of
/// the range becomes the upper half.
pub open spec fn as_unsigned(n: i64) -> int {
    if n >= 0 {
        n as int
    } else {
        n + 0x1_0000_0000_0000_0000
    }
}

/// Reads an unsigned 64-bit number as a signed one.
pub fn to_signed(n: u64) -> (signed: i64)
    ensures
        signed == as_signed(n),
{
    if n <= 0x7fff_ffff_ffff_ffff {
        n as i64
    } else {
        (n as i128 - 0x1_0000_0000_0000_0000) as i64
    }
}

/// Reads a signed 64-bit number as an unsigned one.
pub fn to_unsigned(n: i64) -> (unsigned: u64)
    ensures
        unsigned == as_unsigned(n),
{
    if n >= 0 {
        n as u64
    } else {
        (n as i128 + 0x1_0000_0000_0000_0000) as u64
    }
}

/// The hex text of optional bytes.
pub open spec fn hex_of_bytes(bytes: Option<Vec<u8>>) -> Option<Seq<char>> {
    match bytes {
        Some(b) => Some(hex_with_prefix(b@)),
        None => None,
    }
}

/// The hex text of an optional number, as a word.
pub open spec fn hex_of_number(number: Option<u128>) -> Option<Seq<char>> {
    match number {
        Some(n) => Some(hex_with_prefix(word(n as nat))),
        None => None,
    }
}

/// The row that stands for a transaction of chain `chain_id` that was
/// classified as `class`.
pub open spec fn record_of(chain_id: u64, tx: Transaction, class: Tx) -> TxRecord {
    TxRecord {
        chain_id: chain_id as int,
        transaction_hash: hex_with_prefix(tx.hash@),
        transaction_nonce: hex_with_prefix(word(tx.nonce as nat)),
        block_hash: hex_of_bytes(tx.block_hash),
        block_number: match tx.block_number {
            Some(n) => Some(as_signed(n)),
            None => None,
        },
        transaction_index: match tx.transaction_index {
            Some(n) => Some(as_signed(n)),
            None => None,
        },
        from: hex_with_prefix(tx.from@),
        to: hex_of_bytes(tx.to),
        value: hex_with_prefix(tx.value@),
        gas_price: hex_of_number(tx.gas_price),
        gas: hex_with_prefix(word(tx.gas as nat)),
        input: hex_with_prefix(tx.input@),
        v: match tx.signature {
            Some(sig) => hex_with_prefix(sig.v@),
            None => Seq::empty(),
        },
        r: match tx.signature {
            Some(sig) => hex_with_prefix(sig.r@),
            None => Seq::empty(),
        },
        s: match tx.signature {
            Some(sig) => hex_with_prefix(sig.s@),
            None => Seq::empty(),
        },
        transaction_type: match tx.transaction_type {
            Some(t) => hex_with_prefix(word(t as nat)),
            None => Seq::empty(),
        },
        impersonated: false,
        max_priority_fee_per_gas: hex_of_number(tx.max_priority_fee_per_gas),
        max_fee_per_gas: hex_of_number(tx.max_fee_per_gas),
        tx_type: class.label(),
    }
}

fn hex_bytes(bytes: &Vec<u8>) -> (text: String)
    ensures
        text@ == hex_with_prefix(bytes@),
{
    to_hex_string_internal(bytes.as_slice())
}

fn hex_number(number: u128) -> (text: String)
    ensures
        text@ == hex_with_prefix(word(number as nat)),
{
    let bytes = word_bytes(number);
    to_hex_string_internal(bytes.as_slice())
}

fn hex_optional_bytes(bytes: &Option<Vec<u8>>) -> (text: Option<String>)
    ensures
        text_of(text) == hex_of_bytes(*bytes),
{
    match bytes {
        Some(b) => Some(hex_bytes(b)),
        None => None,
    }
}

fn hex_optional_number(number: Option<u128>) -> (text: Option<String>)
    ensures
        text_of(text) == hex_of_number(number),
{
    match number {
        Some(n) => Some(hex_number(n)),
        None => None,
    }
}

impl TxModel {
    /// The row of a transaction: every number and byte string as hex
    /// text, the class as its name, and never marked as impersonated.
    pub fn from(chain_id: u64, value: &Transaction, tx_type: &Tx) -> (row: TxModel)
        requires
            chain_id <= i64::MAX,
        ensures
            row@ == record_of(chain_id, *value, *tx_type),
    {
        let (v, r, s) = match &value.signature {
            Some(sig) => (hex_bytes(&sig.v), hex_bytes(&sig.r), hex_bytes(&sig.s)),
            None => (String::new(), String::new(), String::new()),
        };
        TxModel {
            tx_type: tx_type.to_string(),
            chain_id: chain_id as i64,
            transaction_hash: hex_bytes(&value.hash),
            transaction_nonce: hex_number(value.nonce as u128),
            block_hash: hex_optional_bytes(&value.block_hash),
            block_number: match value.block_number {
                Some(n) => Some(to_signed(n)),
                None => None,
            },
            transaction_index: match value.transaction_index {
                Some(n) => Some(to_signed(n)),
                None => None,
            },
            _from: hex_bytes(&value.from),
            _to: hex_optional_bytes(&value.to),
            value: hex_bytes(&value.value),
            gas_price: hex_optional_number(value.gas_price),
            gas: hex_number(value.gas),
            input: hex_bytes(&value.input),
            v,
            r,
            s,
            transaction_type: match value.transaction_type {
                Some(t) => hex_number(t as u128),
                None => String::new(),
            },
            impersonated: false,
            max_priority_fee_per_gas: hex_optional_number(value.max_priority_fee_per_gas),
            max_fee_per_gas: hex_optional_number(value.max_fee_per_gas),
        }
    }
}

/// A signature as a mathematical value.
pub struct SignatureView {
    pub v: Seq<u8>,
    pub r: Seq<u8>,
    pub s: Seq<u8>,
}

/// A transaction as a mathematical value.
pub struct TransactionView {
    pub hash: Seq<u8>,
    pub nonce: u64,
    pub block_hash: Option<Seq<u8>>,
    pub block_number: Option<u64>,
    pub transaction_index: Option<u64>,
    pub from: Seq<u8>,
    pub to: Option<Seq<u8>>,
    pub value: Seq<u8>,
    pub gas_price: Option<u128>,
    pub gas: u128,
    pub input: Seq<u8>,
    pub signature: Option<SignatureView>,
    pub transaction_type: Option<u8>,
    pub max_priority_fee_per_gas: Option<u128>,
    pub max_fee_per_gas: Option<u128>,
    pub chain_id: Option<u64>,
}

/// The bytes of an optional field.
pub open spec fn bytes_of(field: Option<Vec<u8>>) -> Option<Seq<u8>> {
    match field {
        Some(b) => Some(b@),
        None => None,
    }
}

impl View for Signature {
    type V = SignatureView;

    open spec fn view(&self) -> SignatureView {
        SignatureView { v: self.v@, r: self.r@, s: self.s@ }
    }
}

impl View for Transaction {
    type V = TransactionView;

    open spec fn view(&self) -> TransactionView {
        TransactionView {
            hash: self.hash@,
            nonce: self.nonce,
            block_hash: bytes_of(self.block_hash),
            block_number: self.block_number,
            transaction_index: self.transaction_index,
            from: self.from@,
            to: bytes_of(self.to),
            value: self.value@,
            gas_price: self.gas_price,
            gas: self.gas,
            input: self.input@,
            signature: match self.signature {
                Some(sig) => Some(sig@),
                None => None,
            },
            transaction_type: self.transaction_type,
            max_priority_fee_per_gas: self.max_priority_fee_per_gas,
            max_fee_per_gas: self.max_fee_per_gas,
            chain_id: self.chain_id,
        }
    }
}

/// `width` bytes of zero.
pub open spec fn zeros(width: nat) -> Seq<u8> {
    Seq::new(width, |i: int| 0u8)
}

/// The `width` bytes that a column holds, or zeros where it holds
/// anything else.
pub open spec fn bytes_or_zeros(text: Seq<char>, width: nat) -> Seq<u8> {
    match decoded_hex(text) {
        Some(bytes) => if bytes.len() == width {
            bytes
        } else {
            zeros(width)
        },
        None => zeros(width),
    }
}

/// The number that a column holds as a 32-byte word.
pub open spec fn word_number(text: Seq<char>) -> Option<nat> {
    match decoded_hex(text) {
        Some(bytes) => if bytes.len() == 32 {
            Some(be_value(bytes))
        } else {
            None
        },
        None => None,
    }
}

/// The number that a column holds, or zero where it holds no number.
pub open spec fn number_or_zero(text: Seq<char>) -> nat {
    match word_number(text) {
        Some(n) => n,
        None => 0,
    }
}

/// An optional column read with `bytes_or_zeros`.
pub open spec fn optional_bytes(column: Option<Seq<char>>, width: nat) -> Option<Seq<u8>> {
    match column {
        Some(text) => Some(bytes_or_zeros(text, width)),
        None => None,
    }
}

/// The row can be read back: it has a transaction index; its value is a
/// word; its gas, its gas price where it has one, and its type where
/// that is not empty, are numbers that fit their fields; its input is
/// hex; and its nonce and fees, where they are numbers, fit theirs.
pub open spec fn readable(row: TxRecord) -> bool {
    &&& row.transaction_index is Some
    &&& decoded_hex(row.value) matches Some(v) && v.len() == 32
    &&& word_number(row.gas) matches Some(g) && g <= u128::MAX
    &&& (row.gas_price matches Some(text) ==> (word_number(text) matches Some(p) && p
        <= u128::MAX))
    &&& decoded_hex(row.input) is Some
    &&& (row.transaction_type.len() > 0 ==> (word_number(row.transaction_type) matches Some(t)
        && t <= u8::MAX))
    &&& number_or_zero(row.transaction_nonce) <= u64::MAX
    &&& (row.max_priority_fee_per_gas matches Some(text) ==> number_or_zero(text) <= u128::MAX)
    &&& (row.max_fee_per_gas matches Some(text) ==> number_or_zero(text) <= u128::MAX)
}

/// An optional fee column read with `number_or_zero`.
pub open spec fn optional_fee(column: Option<Seq<char>>) -> Option<u128> {
    match column {
        Some(text) => Some(number_or_zero(text) as u128),
        None => None,
    }
}

/// The transaction that a row stands for, where the row can be read
/// back. Hashes, addresses, the nonce, the signature and the fees fall
/// back to zero where their column holds something else; a missing
/// block number becomes zero; the chain id is the row's.
pub open spec fn transaction_of(row: TxRecord) -> Option<TransactionView> {
    if !readable(row) {
        None
    } else {
        Some(
            TransactionView {
                hash: bytes_or_zeros(row.transaction_hash, 32),
                nonce: number_or_zero(row.transaction_nonce) as u64,
                block_hash: optional_bytes(row.block_hash, 32),
                block_number: Some(
                    match row.block_number {
                        Some(n) => as_unsigned(n as i64) as u64,
                        None => 0u64,
                    },
                ),
                transaction_index: Some(as_unsigned(row.transaction_index->0 as i64) as u64),
                from: bytes_or_zeros(row.from, 20),
                to: optional_bytes(row.to, 20),
                value: decoded_hex(row.value)->0,
                gas_price: match row.gas_price {
                    Some(text) => Some(word_number(text)->0 as u128),
                    None => None,
                },
                gas: word_number(row.gas)->0 as u128,
                input: decoded_hex(row.input)->0,
                signature: Some(
                    SignatureView {
                        v: bytes_or_zeros(row.v, 32),
                        r: bytes_or_zeros(row.r, 32),
                        s: bytes_or_zeros(row.s, 32),
                    },
                ),
                transaction_type: if row.transaction_type.len() > 0 {
                    Some(word_number(row.transaction_type)->0 as u8)
                } else {
                    None
                },
                max_priority_fee_per_gas: optional_fee(row.max_priority_fee_per_gas),
                max_fee_per_gas: optional_fee(row.max_fee_per_gas),
                chain_id: Some(as_unsigned(row.chain_id as i64) as u64),
            },
        )
    }
}

fn zero_bytes(width: usize) -> (bytes: Vec<u8>)
    ensures
        bytes@ == zeros(width as nat),
{
    let mut bytes: Vec<u8> = Vec::new();
    let mut i: usize = 0;
    while i < width
        invariant
            i <= width,
            bytes.len() == i,
            forall|j: int| 0 <= j < i ==> bytes[j] == 0,
        decreases width - i,
    {
        bytes.push(0);
        i = i + 1;
    }
    assert(bytes@ =~= zeros(width as nat));
    bytes
}

fn read_bytes_or_zeros(text: &str, width: usize) -> (bytes: Vec<u8>)
    ensures
        bytes@ == bytes_or_zeros(text@, width as nat),
{
    match from_hex_string(text) {
        Some(b) => if b.len() == width {
            b
        } else {
            zero_bytes(width)
        },
        None => zero_bytes(width),
    }
}

fn read_optional_bytes(column: &Option<String>, width: usize) -> (bytes: Option<Vec<u8>>)
    ensures
        bytes_of(bytes) == optional_bytes(text_of(*column), width as nat),
{
    match column {
        Some(text) => Some(read_bytes_or_zeros(text.as_str(), width)),
        None => None,
    }
}

/// What a column holds as a number.
enum NumberRead {
    /// Not a 32-byte word.
    Unreadable,
    /// A word that stands for more than the field can hold.
    TooLarge,
    Value(u128),
}

fn read_number(text: &str, max: u128) -> (read: NumberRead)
    ensures
        match read {
            NumberRead::Unreadable => word_number(text@) is None,
            NumberRead::TooLarge => word_number(text@) matches Some(n) && n > max,
            NumberRead::Value(v) => word_number(text@) == Some(v as nat) && v <= max,
        },
{
    match from_hex_string(text) {
        Some(b) => {
            if b.len() != 32 {
                return NumberRead::Unreadable;
            }
            match number_of(&b) {
                Some(v) => if v <= max {
                    NumberRead::Value(v)
                } else {
                    NumberRead::TooLarge
                },
                None => NumberRead::TooLarge,
            }
        },
        None => NumberRead::Unreadable,
    }
}

/// A column that must hold a number that fits.
fn read_required(text: &str, max: u128) -> (value: Option<u128>)
    ensures
        match value {
            Some(v) => word_number(text@) == Some(v as nat) && v <= max,
            None => !(word_number(text@) matches Some(n) && n <= max),
        },
{
    match read_number(text, max) {
        NumberRead::Value(v) => Some(v),
        _ => None,
    }
}

/// A column that counts as zero where it holds no number, and that must
/// fit where it holds one.
fn read_lenient(text: &str, max: u128) -> (value: Option<u128>)
    ensures
        match value {
            Some(v) => number_or_zero(text@) == v && v <= max,
            None => number_or_zero(text@) > max,
        },
{
    match read_number(text, max) {
        NumberRead::Value(v) => Some(v),
        NumberRead::Unreadable => Some(0),
        NumberRead::TooLarge => None,
    }
}

impl TxModel {
    /// Reads the row back into a transaction; `None` where the row
    /// cannot be read back. Only rows in the form that `TxModel::from`
    /// writes are read: every column `0x` and two hex digits per byte, a
    /// number as a word of 32 bytes. Any other spelling of a value
    /// counts as no value.
    pub fn to_transaction(&self) -> (tx: Option<Transaction>)
        ensures
            match tx {
                Some(t) => transaction_of(self@) == Some(t@),
                None => transaction_of(self@) is None,
            },
    {
        let index: i64 = match self.transaction_index {
            Some(n) => n,
            None => {
                return None;
            },
        };
        let value: Vec<u8> = match from_hex_string(self.value.as_str()) {
            Some(v) => v,
            None => {
                return None;
            },
        };
        if value.len() != 32 {
            return None;
        }
        let gas: u128 = match read_required(self.gas.as_str(), u128::MAX) {
            Some(g) => g,
            None => {
                return None;
            },
        };
        let gas_price: Option<u128> = match &self.gas_price {
            Some(text) => match read_required(text.as_str(), u128::MAX) {
                Some(p) => Some(p),
                None => {
                    return None;
                },
            },
            None => None,
        };
        let input: Vec<u8> = match from_hex_string(self.input.as_str()) {
            Some(bytes) => bytes,
            None => {
                return None;
            },
        };
        let transaction_type: Option<u8> = if self.transaction_type.as_str().unicode_len() > 0 {
            match read_required(self.transaction_type.as_str(), 255) {
                Some(t) => Some(t as u8),
                None => {
                    return None;
                },
            }
        } else {
            None
        };
        let nonce: u64 = match read_lenient(
            self.transaction_nonce.as_str(),
            0xffff_ffff_ffff_ffff,
        ) {
            Some(n) => n as u64,
            None => {
                return None;
            },
        };
        let max_priority_fee_per_gas: Option<u128> = match &self.max_priority_fee_per_gas {
            Some(text) => match read_lenient(text.as_str(), u128::MAX) {
                Some(fee) => Some(fee),
                None => {
                    return None;
                },
            },
            None => None,
        };
        let max_fee_per_gas: Option<u128> = match &self.max_fee_per_gas {
            Some(text) => match read_lenient(text.as_str(), u128::MAX) {
                Some(fee) => Some(fee),
                None => {
                    return None;
                },
            },
            None => None,
        };
        Some(
            Transaction {
                hash: read_bytes_or_zeros(self.transaction_hash.as_str(), 32),
                nonce,
                block_hash: read_optional_bytes(&self.block_hash, 32),
                block_number: Some(
                    match self.block_number {
                        Some(n) => to_unsigned(n),
                        None => 0,
                    },
                ),
                transaction_index: Some(to_unsigned(index)),
                from: read_bytes_or_zeros(self._from.as_str(), 20),
                to: read_optional_bytes(&self._to, 20),
                value,
                gas_price,
                gas,
                input,
                signature: Some(
                    Signature {
                        v: read_bytes_or_zeros(self.v.as_str(), 32),
                        r: read_bytes_or_zeros(self.r.as_str(), 32),
                        s: read_bytes_or_zeros(self.s.as_str(), 32),
                    },
                ),
                transaction_type,
                max_priority_fee_per_gas,
                max_fee_per_gas,
                chain_id: Some(to_unsigned(self.chain_id)),
            },
        )
    }

    /// The short form of the row. Every listed transaction counts as
    /// successful.
    pub fn summary(&self) -> (short: TxnSummary)
        requires
            self.block_number is Some,
        ensures
            short.hash@ == self.transaction_hash@,
            text_of(short.block_hash) == text_of(self.block_hash),
            short.from@ == self._from@,
            text_of(short.to) == text_of(self._to),
            short.status == Some(1u8),
            short.value@ == self.value@,
            short.block_height == as_unsigned(self.block_number->0),
    {
        TxnSummary {
            hash: self.transaction_hash.clone(),
            block_hash: match &self.block_hash {
                Some(h) => Some(h.clone()),
                None => None,
            },
            from: self._from.clone(),
            to: match &self._to {
                Some(t) => Some(t.clone()),
                None => None,
            },
            status: Some(1),
            value: self.value.clone(),
            block_height: match self.block_number {
                Some(n) => to_unsigned(n),
                None => 0,
            },
        }
    }
}

impl TxnSummary {
    /// The short form of a transaction that is in a block. Every listed
    /// transaction counts as successful.
    pub fn from(tx: &Transaction) -> (short: TxnSummary)
        requires
            tx.block_hash is Some,
            tx.block_number is Some,
        ensures
            short.hash@ == hex_with_prefix(tx.hash@),
            text_of(short.block_hash) == hex_of_bytes(tx.block_hash),
            text_of(short.to) == hex_of_bytes(tx.to),
            short.from@ == hex_with_prefix(tx.from@),
            short.status == Some(1u8),
            short.value@ == hex_with_prefix(tx.value@),
            short.block_height == tx.block_number->0,
    {
        TxnSummary {
            hash: hex_bytes(&tx.hash),
            block_hash: hex_optional_bytes(&tx.block_hash),
            to: hex_optional_bytes(&tx.to),
            from: hex_bytes(&tx.from),
            status: Some(1),
            value: hex_bytes(&tx.value),
            block_height: match tx.block_number {
                Some(n) => n,
                None => 0,
            },
        }
    }
}

/// The transaction has the shape that nodes report and that survives
/// being stored: hashes and words of 32 bytes, addresses of 20, a
/// signature, a place in a block, and numbers in the signed range.
pub open spec fn storable(tx: TransactionView, chain_id: u64) -> bool {
    &&& tx.hash.len() == 32
    &&& tx.from.len() == 20
    &&& tx.value.len() == 32
    &&& (tx.to matches Some(to) ==> to.len() == 20)
    &&& (tx.block_hash matches Some(h) ==> h.len() == 32)
    &&& tx.signature matches Some(sig) && sig.v.len() == 32 && sig.r.len() == 32 && sig.s.len()
        == 32
    &&& tx.block_number is Some
    &&& tx.transaction_index is Some
    &&& tx.chain_id == Some(chain_id)
    &&& chain_id <= i64::MAX
}

proof fn lemma_word_number_round_trip(n: u128)
    ensures
        word_number(hex_with_prefix(word(n as nat))) == Some(n as nat),
{
    lemma_u128_fits_word(n);
    lemma_be_round_trip(n as nat, 32);
    lemma_hex_round_trip(word(n as nat));
}

/// A row that is read back gives the transaction it was written from,
/// whatever class it was stored under.
pub proof fn lemma_row_round_trip(chain_id: u64, tx: Transaction, class: Tx)
    requires
        storable(tx@, chain_id),
    ensures
        transaction_of(record_of(chain_id, tx, class)) == Some(tx@),
{
    let row = record_of(chain_id, tx, class);
    lemma_hex_round_trip(tx.hash@);
    lemma_hex_round_trip(tx.from@);
    lemma_hex_round_trip(tx.value@);
    lemma_hex_round_trip(tx.input@);
    lemma_word_number_round_trip(tx.nonce as u128);
    lemma_word_number_round_trip(tx.gas);
    let sig = tx.signature->0;
    lemma_hex_round_trip(sig.v@);
    lemma_hex_round_trip(sig.r@);
    lemma_hex_round_trip(sig.s@);
    if tx.to is Some {
        lemma_hex_round_trip(tx.to->0@);
    }
    if tx.block_hash is Some {
        lemma_hex_round_trip(tx.block_hash->0@);
    }
    if tx.gas_price is Some {
        lemma_word_number_round_trip(tx.gas_price->0);
    }
    if tx.max_fee_per_gas is Some {
        lemma_word_number_round_trip(tx.max_fee_per_gas->0);
    }
    if tx.max_priority_fee_per_gas is Some {
        lemma_word_number_round_trip(tx.max_priority_fee_per_gas->0);
    }
    if tx.transaction_type is Some {
        lemma_word_number_round_trip(tx.transaction_type->0 as u128);
        assert(row.transaction_type.len() > 0);
    }
    assert(readable(row));
    let back = transaction_of(row)->0;
    assert(back.block_number == tx.block_number);
    assert(back.transaction_index == tx.transaction_index);
    assert(back.signature == tx@.signature);
    assert(back.to == tx@.to);
    assert(back.block_hash == tx@.block_hash);
    assert(back == tx@);
}

} // verus!
