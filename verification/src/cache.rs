//! The analytics store: its key space, the writes that record a block,
//! the reads that the metrics need, and what is computed from the replies.
//! Nothing here talks to the store; the functions say what to send and
//! what the answers amount to.

use crate::order::{lemma_stable_order, sorted_positions, stable_order};
use crate::series::{accumulate_along_longest_chain, aligned, fits, Entry, Point};
use crate::text::{
    lex_le, decimal, decimal_string, digit_value, lemma_decimal_injective, lemma_decimal_is_digits,
    parse_unsigned, parsed_unsigned,
};
use crate::timefmt::{ist_text, renderable, unix_ms_to_ist};
use crate::types::{Stride, Tx, Type};
use vstd::prelude::*;
use vstd::string::*;

verus! {

/// The per-chain entries of the store.
#[derive(Clone, Copy, Debug, PartialEq, Eq, Structural)]
pub enum Field {
    /// Ordered association: successful transfers per block.
    Successful,
    /// Ordered association: all transfers per block.
    Total,
    /// Scalar: transactions of the latest block.
    Tps,
    /// Scalar: cross-chain transfers of the latest block.
    CrossChainTps,
    /// Scalar: native transfers of the latest block.
    NativeTps,
    /// Ordered association: transactions per block.
    LiveTps,
    /// Scalar: number of the latest block.
    Height,
    /// Scalar: unix second of the latest block.
    Timestamp,
    /// Ordered association: native transfers per block.
    TotalNative,
    /// Ordered association: cross-chain transfers per block.
    TotalCrossChain,
}

impl Field {
    /// The last segment of the entry's key.
    pub open spec fn name(self) -> Seq<char> {
        match self {
            Field::Successful => "successful"@,
            Field::Total => "total"@,
            Field::Tps => "tps"@,
            Field::CrossChainTps => "xtps"@,
            Field::NativeTps => "ntps"@,
            Field::LiveTps => "live_tps"@,
            Field::Height => "height"@,
            Field::Timestamp => "timestamp"@,
            Field::TotalNative => "total_native"@,
            Field::TotalCrossChain => "total_x_chain"@,
        }
    }

    /// The last segment of the entry's key.
    pub fn as_str(&self) -> (name: &'static str)
        ensures
            name@ == self.name(),
    {
        match self {
            Field::Successful => "successful",
            Field::Total => "total",
            Field::Tps => "tps",
            Field::CrossChainTps => "xtps",
            Field::NativeTps => "ntps",
            Field::LiveTps => "live_tps",
            Field::Height => "height",
            Field::Timestamp => "timestamp",
            Field::TotalNative => "total_native",
            Field::TotalCrossChain => "total_x_chain",
        }
    }
}

/// The set that holds the ids of the chains that have been written.
pub open spec fn registry() -> Seq<char> {
    "chains"@
}

/// The key of one entry of one chain: `chain:<id>:<field>`.
pub open spec fn chain_key(chain_id: u64, field: Field) -> Seq<char> {
    "chain:"@ + decimal(chain_id as nat) + ":"@ + field.name()
}

/// Builds the key of one entry of one chain.
pub fn chain_key_string(chain_id: u64, field: Field) -> (key: String)
    ensures
        key@ == chain_key(chain_id, field),
{
    let mut key = String::from_str("chain:");
    let id = decimal_string(chain_id);
    key.append(id.as_str());
    key.append(":");
    key.append(field.as_str());
    key
}

/// Two fields have two names.
pub proof fn lemma_field_names_differ(a: Field, b: Field)
    requires
        a != b,
    ensures
        a.name() != b.name(),
{
    reveal_strlit("successful");
    reveal_strlit("total");
    reveal_strlit("tps");
    reveal_strlit("xtps");
    reveal_strlit("ntps");
    reveal_strlit("live_tps");
    reveal_strlit("height");
    reveal_strlit("timestamp");
    reveal_strlit("total_native");
    reveal_strlit("total_x_chain");
    if a.name().len() == b.name().len() {
        assert(a.name()[0] != b.name()[0]);
    }
}

/// Two entries of one chain have two keys.
pub proof fn lemma_chain_keys_differ(chain_id: u64, a: Field, b: Field)
    requires
        a != b,
    ensures
        chain_key(chain_id, a) != chain_key(chain_id, b),
{
    lemma_field_names_differ(a, b);
    let head = "chain:"@ + decimal(chain_id as nat) + ":"@;
    assert((head + a.name()).skip(head.len() as int) =~= a.name());
    assert((head + b.name()).skip(head.len() as int) =~= b.name());
}

/// Two entries have two keys, whether they differ in the chain or in
/// the field.
pub proof fn lemma_chain_keys_injective(c1: u64, f1: Field, c2: u64, f2: Field)
    requires
        chain_key(c1, f1) == chain_key(c2, f2),
    ensures
        c1 == c2,
        f1 == f2,
{
    reveal_strlit("chain:");
    reveal_strlit(":");
    let d1 = decimal(c1 as nat);
    let d2 = decimal(c2 as nat);
    lemma_decimal_is_digits(c1 as nat);
    lemma_decimal_is_digits(c2 as nat);
    let k1 = chain_key(c1, f1);
    let k2 = chain_key(c2, f2);
    // behind the common head, each key holds its digits and then a colon
    assert(forall|i: int| 0 <= i < d1.len() ==> k1[6 + i] == d1[i]);
    assert(forall|i: int| 0 <= i < d2.len() ==> k2[6 + i] == d2[i]);
    assert(k1[6 + d1.len() as int] == ':');
    assert(k2[6 + d2.len() as int] == ':');
    assert(digit_value(':') is None);
    if d1.len() < d2.len() {
        assert(k2[6 + d1.len() as int] == d2[d1.len() as int]);
        assert(digit_value(d2[d1.len() as int]) is Some);
    } else if d2.len() < d1.len() {
        assert(k1[6 + d2.len() as int] == d1[d2.len() as int]);
        assert(digit_value(d1[d2.len() as int]) is Some);
    }
    assert(d1.len() == d2.len());
    assert(d1 =~= d2) by {
        assert forall|i: int| 0 <= i < d1.len() implies d1[i] == d2[i] by {
            assert(k1[6 + i] == k2[6 + i]);
        }
    }
    lemma_decimal_injective(c1 as nat, c2 as nat);
    if f1 != f2 {
        lemma_chain_keys_differ(c1, f1, f2);
    }
}

/// One command for the store.
#[derive(Debug)]
pub enum Command {
    /// Add `element` to the set `set` (`SADD`).
    Register { set: String, element: String },
    /// Put `member` into the ordered association `key` under `score` (`ZADD`).
    Append { key: String, score: i64, member: u64 },
    /// Set the scalar `key` to a count (`SET`).
    PutCount { key: String, count: u64 },
    /// Set the scalar `key` to a timestamp (`SET`).
    PutStamp { key: String, stamp: i64 },
}

/// What a command does, as a mathematical value.
pub enum Write {
    Register { set: Seq<char>, element: Seq<char> },
    Append { key: Seq<char>, score: int, member: nat },
    Put { key: Seq<char>, value: int },
}

impl View for Command {
    type V = Write;

    open spec fn view(&self) -> Write {
        match *self {
            Command::Register { set, element } => Write::Register { set: set@, element: element@ },
            Command::Append { key, score, member } => Write::Append {
                key: key@,
                score: score as int,
                member: member as nat,
            },
            Command::PutCount { key, count } => Write::Put { key: key@, value: count as int },
            Command::PutStamp { key, stamp } => Write::Put { key: key@, value: stamp as int },
        }
    }
}

/// The writes that a list of commands stands for.
pub open spec fn writes_of(plan: Seq<Command>) -> Seq<Write> {
    Seq::new(plan.len(), |i: int| plan[i]@)
}

/// The writes that record one block, in the order in which they are
/// sent: the chain joins the registry, the five ordered associations get
/// the block's counts under its timestamp, and the five scalars are set.
pub open spec fn add_block_writes(
    chain_id: u64,
    timestamp: i64,
    successful_xfers: u64,
    total_xfers: u64,
    total_native_transfers: u64,
    total_x_chain_transfers: u64,
    tx_count: u64,
    height: u64,
) -> Seq<Write> {
    seq![
        Write::Register { set: registry(), element: decimal(chain_id as nat) },
        Write::Append {
            key: chain_key(chain_id, Field::Successful),
            score: timestamp as int,
            member: successful_xfers as nat,
        },
        Write::Append {
            key: chain_key(chain_id, Field::Total),
            score: timestamp as int,
            member: total_xfers as nat,
        },
        Write::Append {
            key: chain_key(chain_id, Field::LiveTps),
            score: timestamp as int,
            member: tx_count as nat,
        },
        Write::Append {
            key: chain_key(chain_id, Field::TotalNative),
            score: timestamp as int,
            member: total_native_transfers as nat,
        },
        Write::Append {
            key: chain_key(chain_id, Field::TotalCrossChain),
            score: timestamp as int,
            member: total_x_chain_transfers as nat,
        },
        Write::Put { key: chain_key(chain_id, Field::Tps), value: tx_count as int },
        Write::Put {
            key: chain_key(chain_id, Field::CrossChainTps),
            value: total_x_chain_transfers as int,
        },
        Write::Put {
            key: chain_key(chain_id, Field::NativeTps),
            value: total_native_transfers as int,
        },
        Write::Put { key: chain_key(chain_id, Field::Height), value: height as int },
        Write::Put { key: chain_key(chain_id, Field::Timestamp), value: timestamp as int },
    ]
}

fn append_command(chain_id: u64, field: Field, score: i64, member: u64) -> (command: Command)
    ensures
        command@ == (Write::Append {
            key: chain_key(chain_id, field),
            score: score as int,
            member: member as nat,
        }),
{
    Command::Append { key: chain_key_string(chain_id, field), score, member }
}

fn count_command(chain_id: u64, field: Field, value: u64) -> (command: Command)
    ensures
        command@ == (Write::Put { key: chain_key(chain_id, field), value: value as int }),
{
    Command::PutCount { key: chain_key_string(chain_id, field), count: value }
}

/// The commands that record one block. They are to be sent in order; the
/// first that fails ends the write, so that a reader may find the
/// earlier ones done and the later ones not.
pub fn add_block(
    chain_id: &u64,
    timestamp: i64,
    successful_xfers: u64,
    total_xfers: u64,
    total_native_transfers: u64,
    total_x_chain_transfers: u64,
    tx_count: u64,
    height: u64,
) -> (plan: Vec<Command>)
    ensures
        writes_of(plan@) == add_block_writes(
            *chain_id,
            timestamp,
            successful_xfers,
            total_xfers,
            total_native_transfers,
            total_x_chain_transfers,
            tx_count,
            height,
        ),
{
    let c: u64 = *chain_id;
    let mut plan: Vec<Command> = Vec::new();
    plan.push(Command::Register { set: String::from_str("chains"), element: decimal_string(c) });
    plan.push(append_command(c, Field::Successful, timestamp, successful_xfers));
    plan.push(append_command(c, Field::Total, timestamp, total_xfers));
    plan.push(append_command(c, Field::LiveTps, timestamp, tx_count));
    plan.push(append_command(c, Field::TotalNative, timestamp, total_native_transfers));
    plan.push(append_command(c, Field::TotalCrossChain, timestamp, total_x_chain_transfers));
    plan.push(count_command(c, Field::Tps, tx_count));
    plan.push(count_command(c, Field::CrossChainTps, total_x_chain_transfers));
    plan.push(count_command(c, Field::NativeTps, total_native_transfers));
    plan.push(count_command(c, Field::Height, height));
    plan.push(Command::PutStamp { key: chain_key_string(c, Field::Timestamp), stamp: timestamp });
    assert(writes_of(plan@) =~= add_block_writes(
        c,
        timestamp,
        successful_xfers,
        total_xfers,
        total_native_transfers,
        total_x_chain_transfers,
        tx_count,
        height,
    ));
    plan
}

/// A read of the entries of an ordered association whose scores lie
/// between `min` and `max`, both included, with their scores
/// (`ZRANGEBYSCORE key min max WITHSCORES`).
#[derive(Debug)]
pub struct RangeQuery {
    pub key: String,
    pub min: i64,
    pub max: i64,
}

/// What a range query asks for, as a mathematical value.
pub struct RangeRead {
    pub key: Seq<char>,
    pub min: int,
    pub max: int,
}

impl View for RangeQuery {
    type V = RangeRead;

    open spec fn view(&self) -> RangeRead {
        RangeRead { key: self.key@, min: self.min as int, max: self.max as int }
    }
}

/// `a - b`, held within the 64-bit signed range.
pub open spec fn clamped_sub(a: int, b: int) -> int {
    if a - b > i64::MAX {
        i64::MAX as int
    } else if a - b < i64::MIN {
        i64::MIN as int
    } else {
        a - b
    }
}

/// Subtraction that stops at the ends of the 64-bit signed range.
pub fn saturating_sub(a: i64, b: i64) -> (difference: i64)
    ensures
        difference == clamped_sub(a as int, b as int),
{
    match a.checked_sub(b) {
        Some(d) => d,
        None => if b > 0 {
            i64::MIN
        } else {
            i64::MAX
        },
    }
}

/// The read of one chain's ordered association `field` over the `window`
/// seconds that end at `anchor`.
pub open spec fn range_read(chain_id: u64, field: Field, window: int, anchor: int) -> RangeRead {
    RangeRead { key: chain_key(chain_id, field), min: clamped_sub(anchor, window), max: anchor }
}

fn range_query(chain_id: u64, field: Field, window: i64, anchor: i64) -> (query: RangeQuery)
    ensures
        query@ == range_read(chain_id, field, window as int, anchor as int),
{
    RangeQuery {
        key: chain_key_string(chain_id, field),
        min: saturating_sub(anchor, window),
        max: anchor,
    }
}

/// The window of the live series: an hour for stride one, ten minutes
/// for every other stride and where no stride is given.
pub open spec fn live_window(stride: Stride) -> int {
    if stride.stride == Some(1u64) {
        3600
    } else {
        600
    }
}

/// The ordered association that holds the live series of a class.
pub open spec fn live_field(tx_type: Type) -> Option<Field> {
    match tx_type.tx_type {
        Some(Tx::CrossChain) => Some(Field::TotalCrossChain),
        Some(Tx::Native) => Some(Field::TotalNative),
        Some(Tx::All) => Some(Field::LiveTps),
        None => None,
    }
}

/// The ordered association that holds the transfers of a class.
pub open spec fn transfers_field(tx_type: Type) -> Option<Field> {
    match tx_type.tx_type {
        Some(Tx::CrossChain) => Some(Field::TotalCrossChain),
        Some(Tx::Native) => Some(Field::TotalNative),
        Some(Tx::All) => Some(Field::Successful),
        None => None,
    }
}

/// The scalar that holds the latest count of a class.
pub open spec fn rate_field(tx_type: Type) -> Option<Field> {
    match tx_type.tx_type {
        Some(Tx::CrossChain) => Some(Field::CrossChainTps),
        Some(Tx::Native) => Some(Field::NativeTps),
        Some(Tx::All) => Some(Field::Tps),
        None => None,
    }
}

fn live_field_of(tx_type: Type) -> (field: Option<Field>)
    ensures
        field == live_field(tx_type),
{
    match tx_type.tx_type {
        Some(Tx::CrossChain) => Some(Field::TotalCrossChain),
        Some(Tx::Native) => Some(Field::TotalNative),
        Some(Tx::All) => Some(Field::LiveTps),
        None => None,
    }
}

fn transfers_field_of(tx_type: Type) -> (field: Option<Field>)
    ensures
        field == transfers_field(tx_type),
{
    match tx_type.tx_type {
        Some(Tx::CrossChain) => Some(Field::TotalCrossChain),
        Some(Tx::Native) => Some(Field::TotalNative),
        Some(Tx::All) => Some(Field::Successful),
        None => None,
    }
}

fn rate_field_of(tx_type: Type) -> (field: Option<Field>)
    ensures
        field == rate_field(tx_type),
{
    match tx_type.tx_type {
        Some(Tx::CrossChain) => Some(Field::CrossChainTps),
        Some(Tx::Native) => Some(Field::NativeTps),
        Some(Tx::All) => Some(Field::Tps),
        None => None,
    }
}

/// The scalar to read for a chain's latest height.
pub fn get_latest_height(chain_id: &u64) -> (key: String)
    ensures
        key@ == chain_key(*chain_id, Field::Height),
{
    chain_key_string(*chain_id, Field::Height)
}

/// The scalar to read for a chain's latest timestamp.
pub fn get_latest_timestamp(chain_id: &u64) -> (key: String)
    ensures
        key@ == chain_key(*chain_id, Field::Timestamp),
{
    chain_key_string(*chain_id, Field::Timestamp)
}

/// The scalar to read for a chain's latest count of a class. Without a
/// class there is nothing to read, and the count is zero.
pub fn get_latest_tps(chain_id: &u64, tx_type: Type) -> (key: Option<String>)
    ensures
        match key {
            Some(k) => rate_field(tx_type) is Some && k@ == chain_key(
                *chain_id,
                rate_field(tx_type)->0,
            ),
            None => rate_field(tx_type) is None,
        },
{
    match rate_field_of(tx_type) {
        Some(field) => Some(chain_key_string(*chain_id, field)),
        None => None,
    }
}

/// The read behind a chain's live series: the class's ordered
/// association over the stride's window, ending at `latest_timestamp`.
/// Without a class there is nothing to read, and the series is empty.
pub fn get_live_tps_query(
    chain_id: &u64,
    stride: Stride,
    tx_type: Type,
    latest_timestamp: i64,
) -> (query: Option<RangeQuery>)
    ensures
        match query {
            Some(q) => live_field(tx_type) is Some && q@ == range_read(
                *chain_id,
                live_field(tx_type)->0,
                live_window(stride),
                latest_timestamp as int,
            ),
            None => live_field(tx_type) is None,
        },
{
    let window: i64 = match stride.stride {
        Some(s) => if s == 1 {
            3600
        } else {
            600
        },
        None => 600,
    };
    match live_field_of(tx_type) {
        Some(field) => Some(range_query(*chain_id, field, window, latest_timestamp)),
        None => None,
    }
}

/// The read behind a chain's transfers over the `stride` seconds that end
/// at `latest_timestamp`. Without a class there is nothing to read, and
/// the sum is zero.
pub fn get_successful_xfers_query(
    chain_id: &u64,
    stride: i64,
    latest_timestamp: i64,
    tx_type: Type,
) -> (query: Option<RangeQuery>)
    ensures
        match query {
            Some(q) => transfers_field(tx_type) is Some && q@ == range_read(
                *chain_id,
                transfers_field(tx_type)->0,
                stride as int,
                latest_timestamp as int,
            ),
            None => transfers_field(tx_type) is None,
        },
{
    match transfers_field_of(tx_type) {
        Some(field) => Some(range_query(*chain_id, field, stride, latest_timestamp)),
        None => None,
    }
}

/// The reads behind the transfers of every chain over one window, one
/// per chain and in the chains' order; none without a class.
pub fn get_all_chains_success_xfers_queries(
    chain_ids: &Vec<u64>,
    stride: i64,
    latest_timestamp: i64,
    tx_type: Type,
) -> (queries: Vec<RangeQuery>)
    ensures
        match transfers_field(tx_type) {
            Some(field) => queries.len() == chain_ids.len() && forall|i: int|
                0 <= i < chain_ids.len() ==> (#[trigger] queries[i])@ == range_read(
                    chain_ids[i],
                    field,
                    stride as int,
                    latest_timestamp as int,
                ),
            None => queries.len() == 0,
        },
{
    let mut queries: Vec<RangeQuery> = Vec::new();
    match transfers_field_of(tx_type) {
        Some(field) => {
            let mut i: usize = 0;
            while i < chain_ids.len()
                invariant
                    i <= chain_ids.len(),
                    queries.len() == i,
                    forall|j: int|
                        0 <= j < i ==> (#[trigger] queries[j])@ == range_read(
                            chain_ids[j],
                            field,
                            stride as int,
                            latest_timestamp as int,
                        ),
                decreases chain_ids.len() - i,
            {
                queries.push(range_query(chain_ids[i], field, stride, latest_timestamp));
                i = i + 1;
            }
        },
        None => {},
    }
    queries
}

/// The scalars to read for the latest count of every chain, one per
/// chain and in the chains' order; none without a class.
pub fn get_all_chains_tps_keys(chain_ids: &Vec<u64>, tx_type: Type) -> (keys: Vec<String>)
    ensures
        match rate_field(tx_type) {
            Some(field) => keys.len() == chain_ids.len() && forall|i: int|
                0 <= i < chain_ids.len() ==> (#[trigger] keys[i])@ == chain_key(chain_ids[i], field),
            None => keys.len() == 0,
        },
{
    let mut keys: Vec<String> = Vec::new();
    match rate_field_of(tx_type) {
        Some(field) => {
            let mut i: usize = 0;
            while i < chain_ids.len()
                invariant
                    i <= chain_ids.len(),
                    keys.len() == i,
                    forall|j: int|
                        0 <= j < i ==> (#[trigger] keys[j])@ == chain_key(chain_ids[j], field),
                decreases chain_ids.len() - i,
            {
                keys.push(chain_key_string(chain_ids[i], field));
                i = i + 1;
            }
        },
        None => {},
    }
    keys
}

/// The reply to a range query comes as a flat list: member, score,
/// member, score. This is the list in pairs; a last text without a
/// partner is left out.
pub open spec fn paired(raw: Seq<Seq<char>>) -> Seq<(Seq<char>, Seq<char>)> {
    Seq::new(raw.len() / 2, |i: int| (raw[2 * i], raw[2 * i + 1]))
}

/// The texts of a reply.
pub open spec fn raw_texts(raw: Seq<String>) -> Seq<Seq<char>> {
    Seq::new(raw.len(), |i: int| raw[i]@)
}

/// Splits the flat reply to a range query into pairs of member and score.
pub fn pair_up(raw: &Vec<String>) -> (pairs: Vec<(String, String)>)
    ensures
        pairs.deep_view() == paired(raw_texts(raw@)),
{
    let mut pairs: Vec<(String, String)> = Vec::new();
    let half: usize = raw.len() / 2;
    let mut i: usize = 0;
    while i < half
        invariant
            half == raw.len() / 2,
            i <= half,
            pairs.len() == i,
            forall|j: int|
                0 <= j < i ==> (#[trigger] pairs[j]).0@ == raw[2 * j]@ && pairs[j].1@ == raw[2 * j
                    + 1]@,
        decreases half - i,
    {
        pairs.push((raw[2 * i].clone(), raw[2 * i + 1].clone()));
        i = i + 1;
    }
    assert(pairs.deep_view() =~= paired(raw_texts(raw@)));
    pairs
}

/// The count that a member stands for; a member that is no count is
/// left out of a series and adds nothing to a sum.
pub open spec fn member_count(member: Seq<char>) -> Option<u64> {
    parsed_unsigned(member, u64::MAX)
}

/// The samples that a reply holds: for every member that is a count, the
/// count, its score as a timestamp, and the timestamp's text.
pub open spec fn readings(scored: Seq<(Seq<char>, i64)>) -> Seq<Point>
    decreases scored.len(),
{
    if scored.len() == 0 {
        Seq::empty()
    } else {
        let head = readings(scored.drop_last());
        let last = scored.last();
        match member_count(last.0) {
            Some(count) => head.push((count, last.1, ist_text(last.1 as int))),
            None => head,
        }
    }
}

/// The texts of a series.
pub open spec fn texts(points: Seq<Point>) -> Seq<Seq<char>> {
    Seq::new(points.len(), |j: int| points[j].2)
}

/// A series in ascending order of its texts; samples with the same text
/// keep the order they came in.
pub open spec fn by_text(points: Seq<Point>) -> Seq<Point> {
    Seq::new(
        points.len(),
        |j: int| points[stable_order(texts(points), points.len() as int)[j]],
    )
}

/// A series put in order holds the same samples, each once, and its
/// texts ascend.
pub proof fn lemma_by_text_ascends(points: Seq<Point>)
    ensures
        by_text(points).len() == points.len(),
        forall|a: int, b: int|
            0 <= a < b < points.len() ==> lex_le(
                (#[trigger] by_text(points)[a]).2,
                (#[trigger] by_text(points)[b]).2,
            ),
        forall|i: int|
            0 <= i < points.len() ==> exists|j: int|
                0 <= j < points.len() && by_text(points)[j] == #[trigger] points[i],
{
    let n = points.len() as int;
    let order = stable_order(texts(points), n);
    lemma_stable_order(texts(points), n);
    assert forall|a: int, b: int| 0 <= a < b < n implies lex_le(
        (#[trigger] by_text(points)[a]).2,
        (#[trigger] by_text(points)[b]).2,
    ) by {
        assert(lex_le(texts(points)[order[a]], texts(points)[order[b]]));
    }
    assert forall|i: int| 0 <= i < n implies exists|j: int|
        0 <= j < n && by_text(points)[j] == #[trigger] points[i] by {
        crate::order::lemma_every_position_occurs(order, n, i);
        let j = choose|j: int| 0 <= j < n && order[j] == i;
        assert(by_text(points)[j] == points[i]);
    }
}

/// Every score can be rendered as a time.
pub open spec fn all_renderable(scored: Seq<(Seq<char>, i64)>) -> bool {
    forall|i: int| 0 <= i < scored.len() ==> renderable((#[trigger] scored[i]).1 as int)
}

/// Whether every score can be rendered as a time.
pub fn check_renderable(scored: &Vec<(String, i64)>) -> (ok: bool)
    ensures
        ok == all_renderable(scored.deep_view()),
{
    let mut i: usize = 0;
    while i < scored.len()
        invariant
            i <= scored.len(),
            forall|j: int| 0 <= j < i ==> renderable((#[trigger] scored.deep_view()[j]).1 as int),
        decreases scored.len() - i,
    {
        if !crate::timefmt::can_render(scored[i].1) {
            assert(scored.deep_view()[i as int].1 == scored[i as int].1);
            return false;
        }
        assert(scored.deep_view()[i as int].1 == scored[i as int].1);
        i = i + 1;
    }
    true
}

/// A chain's live series from the reply to its query: one sample per
/// member that is a count, in ascending order of the rendered time.
pub fn get_live_tps(scored: &Vec<(String, i64)>) -> (series: Vec<Entry>)
    requires
        all_renderable(scored.deep_view()),
    ensures
        series.deep_view() == by_text(readings(scored.deep_view())),
{
    let ghost model = scored.deep_view();
    let mut found: Vec<Entry> = Vec::new();
    let mut labels: Vec<String> = Vec::new();
    let mut i: usize = 0;
    while i < scored.len()
        invariant
            i <= scored.len(),
            model == scored.deep_view(),
            all_renderable(model),
            found.deep_view() == readings(model.subrange(0, i as int)),
            labels.len() == found.len(),
            forall|j: int| 0 <= j < found.len() ==> (#[trigger] labels[j])@ == found[j].2@,
        decreases scored.len() - i,
    {
        let timestamp: i64 = scored[i].1;
        proof {
            let upto = model.subrange(0, i + 1);
            assert(upto.drop_last() =~= model.subrange(0, i as int));
            assert(upto.last() == model[i as int]);
            assert(model[i as int].1 == timestamp);
            assert(model[i as int].0 == scored[i as int].0@);
        }
        match parse_unsigned(scored[i].0.as_str(), u64::MAX) {
            Some(value) => {
                let ist_day = unix_ms_to_ist(timestamp);
                let ghost before = found.deep_view();
                labels.push(ist_day.clone());
                found.push((value, timestamp, ist_day));
                assert(found.deep_view() =~= before.push(
                    (value, timestamp, ist_text(timestamp as int)),
                ));
            },
            None => {},
        }
        i = i + 1;
    }
    proof {
        assert(model.subrange(0, scored.len() as int) =~= model);
    }
    let ghost points = found.deep_view();
    let order = sorted_positions(&labels);
    proof {
        assert(crate::order::key_views(labels@) =~= texts(points));
    }
    let mut series: Vec<Entry> = Vec::new();
    let mut j: usize = 0;
    while j < order.len()
        invariant
            j <= order.len(),
            order.len() == found.len(),
            points == found.deep_view(),
            forall|k: int| 0 <= k < order.len() ==> #[trigger] order[k] < found.len(),
            crate::order::positions(order@) == stable_order(texts(points), points.len() as int),
            series.len() == j,
            forall|k: int| 0 <= k < j ==> (#[trigger] series[k]).deep_view() == by_text(points)[k],
        decreases order.len() - j,
    {
        let at: usize = order[j];
        proof {
            assert(crate::order::positions(order@)[j as int] == at);
            assert(points[at as int] == found[at as int].deep_view());
        }
        let sample = &found[at];
        series.push((sample.0, sample.1, sample.2.clone()));
        j = j + 1;
    }
    assert(series.deep_view() =~= by_text(points));
    series
}

/// The sum of the members of a reply that are counts.
pub open spec fn member_total(scored: Seq<(Seq<char>, i64)>) -> nat
    decreases scored.len(),
{
    if scored.len() == 0 {
        0
    } else {
        member_total(scored.drop_last()) + match member_count(scored.last().0) {
            Some(count) => count as nat,
            None => 0,
        }
    }
}

/// The sum of the members of a reply that are counts, or `None` where
/// the sum does not fit in 64 bits.
pub fn checked_successful_xfers(scored: &Vec<(String, i64)>) -> (sum: Option<u64>)
    ensures
        match sum {
            Some(total) => total == member_total(scored.deep_view()),
            None => member_total(scored.deep_view()) > u64::MAX,
        },
{
    let ghost model = scored.deep_view();
    let mut total: u64 = 0;
    let mut i: usize = 0;
    while i < scored.len()
        invariant
            i <= scored.len(),
            model == scored.deep_view(),
            total == member_total(model.subrange(0, i as int)),
        decreases scored.len() - i,
    {
        proof {
            let upto = model.subrange(0, i + 1);
            assert(upto.drop_last() =~= model.subrange(0, i as int));
            assert(upto.last() == model[i as int]);
            assert(model[i as int].0 == scored[i as int].0@);
        }
        let count: u64 = match parse_unsigned(scored[i].0.as_str(), u64::MAX) {
            Some(value) => value,
            None => 0,
        };
        match total.checked_add(count) {
            Some(next) => {
                total = next;
            },
            None => {
                proof {
                    lemma_member_total_grows(model, i + 1);
                }
                return None;
            },
        }
        i = i + 1;
    }
    proof {
        assert(model.subrange(0, scored.len() as int) =~= model);
    }
    Some(total)
}

/// The sum over a reply is no smaller than the sum over its start.
pub proof fn lemma_member_total_grows(scored: Seq<(Seq<char>, i64)>, k: int)
    requires
        0 <= k <= scored.len(),
    ensures
        member_total(scored.subrange(0, k)) <= member_total(scored),
    decreases scored.len(),
{
    if k == scored.len() {
        assert(scored.subrange(0, k) =~= scored);
    } else {
        assert(scored.drop_last().subrange(0, k) =~= scored.subrange(0, k));
        lemma_member_total_grows(scored.drop_last(), k);
    }
}

/// Counts that were written are summed as they were written: where the
/// members of a reply are the decimal texts of counts, as the store
/// keeps what `add_block` appends, the sum over the reply is the sum of
/// those counts.
pub proof fn lemma_written_members_are_summed(scored: Seq<(Seq<char>, i64)>, counts: Seq<u64>)
    requires
        scored.len() == counts.len(),
        forall|i: int|
            0 <= i < scored.len() ==> (#[trigger] scored[i]).0 == decimal(counts[i] as nat),
    ensures
        member_total(scored) == total(counts),
    decreases scored.len(),
{
    if scored.len() > 0 {
        let rest = scored.drop_last();
        let fewer = counts.drop_last();
        assert forall|i: int| 0 <= i < rest.len() implies (#[trigger] rest[i]).0 == decimal(
            fewer[i] as nat,
        ) by {
            assert(rest[i] == scored[i]);
        }
        lemma_written_members_are_summed(rest, fewer);
        let last = counts.last();
        assert(scored.last().0 == decimal(last as nat)) by {
            assert(scored[scored.len() - 1].0 == decimal(counts[scored.len() - 1] as nat));
        }
        crate::text::lemma_decimal_round_trip(last as nat);
        assert(member_count(scored.last().0) == Some(last));
    }
}

/// A chain's transfers from the reply to its query: the sum of the
/// members that are counts.
pub fn get_successful_xfers_in_range(scored: &Vec<(String, i64)>) -> (sum: u64)
    requires
        member_total(scored.deep_view()) <= u64::MAX,
    ensures
        sum == member_total(scored.deep_view()),
{
    match checked_successful_xfers(scored) {
        Some(total) => total,
        None => 0,
    }
}

/// The sum of a list of counts.
pub open spec fn total(values: Seq<u64>) -> nat
    decreases values.len(),
{
    if values.len() == 0 {
        0
    } else {
        total(values.drop_last()) + values.last() as nat
    }
}

/// The sum over a list is no smaller than the sum over its start.
pub proof fn lemma_total_grows(values: Seq<u64>, k: int)
    requires
        0 <= k <= values.len(),
    ensures
        total(values.subrange(0, k)) <= total(values),
    decreases values.len(),
{
    if k == values.len() {
        assert(values.subrange(0, k) =~= values);
    } else {
        assert(values.drop_last().subrange(0, k) =~= values.subrange(0, k));
        lemma_total_grows(values.drop_last(), k);
    }
}

/// The sum of a list of counts, or `None` where it does not fit in 64
/// bits.
pub fn checked_total(values: &Vec<u64>) -> (sum: Option<u64>)
    ensures
        match sum {
            Some(t) => t == total(values@),
            None => total(values@) > u64::MAX,
        },
{
    let mut sum: u64 = 0;
    let mut i: usize = 0;
    while i < values.len()
        invariant
            i <= values.len(),
            sum == total(values@.subrange(0, i as int)),
        decreases values.len() - i,
    {
        proof {
            let upto = values@.subrange(0, i + 1);
            assert(upto.drop_last() =~= values@.subrange(0, i as int));
            assert(upto.last() == values[i as int]);
        }
        match sum.checked_add(values[i]) {
            Some(next) => {
                sum = next;
            },
            None => {
                proof {
                    lemma_total_grows(values@, i + 1);
                }
                return None;
            },
        }
        i = i + 1;
    }
    proof {
        assert(values@.subrange(0, values.len() as int) =~= values@);
    }
    Some(sum)
}

/// The transfers of all chains over one window, from the sums of the
/// chains: their sum, which is zero where there is no chain.
pub fn get_all_chains_success_xfers_in_range(per_chain: &Vec<u64>) -> (sum: u64)
    requires
        total(per_chain@) <= u64::MAX,
    ensures
        sum == total(per_chain@),
        per_chain.len() == 0 ==> sum == 0,
{
    match checked_total(per_chain) {
        Some(t) => t,
        None => 0,
    }
}

/// The latest count of all chains, from the latest counts of the
/// chains: their sum, which is zero where there is no chain.
pub fn get_all_chains_tps_in_range(per_chain: &Vec<u64>) -> (sum: u64)
    requires
        total(per_chain@) <= u64::MAX,
    ensures
        sum == total(per_chain@),
        per_chain.len() == 0 ==> sum == 0,
{
    match checked_total(per_chain) {
        Some(t) => t,
        None => 0,
    }
}

/// The live series of all chains, from the live series of the chains:
/// the series aligned to the longest of them, which is empty where there
/// is no chain.
pub fn get_all_chains_live_tps_in_range(per_chain: Vec<Vec<Entry>>) -> (series: Vec<Entry>)
    requires
        fits(per_chain.deep_view()),
    ensures
        series.deep_view() == aligned(per_chain.deep_view()),
        per_chain.len() == 0 ==> series.len() == 0,
{
    let series = accumulate_along_longest_chain(per_chain);
    assert(series.deep_view().len() == series.len());
    series
}

} // verus!
