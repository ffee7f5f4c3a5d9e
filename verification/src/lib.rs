//! Collector for five-minute BTC prediction markets.
//!
//! The crate holds the rules of the collector: order books, the depth
//! synchronisation protocol, message processing, scheduling, order execution and
//! simulation. Reading sockets, files and clocks is left to the caller, who hands
//! in plain values and performs the actions that come back.

use vstd::prelude::*;

pub mod backtest;
pub mod binance;
pub mod binance_sync;
pub mod config;
pub mod decimal;
pub mod error;
pub mod executor;
pub mod fair_value;
pub mod float;
pub mod json;
pub mod json_read;
pub mod json_struct;
pub mod levels;
pub mod lstm_inference;
pub mod number;
pub mod poly_feed;
pub mod poly_gamma;
pub mod polymarket;
pub mod sim;
pub mod supervisor;
pub mod text;
pub mod types;
pub mod worker;
pub mod writer;

verus! {

} // verus!
