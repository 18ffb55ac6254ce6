//! The core of a multi-chain EVM indexer: the hex and time codec, the
//! key space of the analytics store with its writes, reads and
//! aggregations, the classification of transactions, the catch-up worker
//! as a state machine, and the rules of the read API. Nothing here does
//! I/O: the functions say what to send to a store or a node and what the
//! answers amount to, each with a machine-checked contract.

pub mod cache;
pub mod catchup;
pub mod codec;
pub mod config;
pub mod error;
pub mod indexer;
pub mod ledger;
pub mod models;
pub mod order;
pub mod processor;
pub mod provider;
pub mod routes;
pub mod series;
pub mod store;
pub mod text;
pub mod timefmt;
pub mod types;
