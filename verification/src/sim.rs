//! Trading strategies played against recorded markets.
//!
//! Prices and sizes are floating-point numbers, given by their bits.

use vstd::prelude::*;
use vstd::string::*;

use crate::text::same_text;
use crate::text::Text;

pub mod engine;
pub mod market_data;
pub mod order;
pub mod output;
pub mod position;
pub mod read_back;
pub mod strategies;
pub mod strategy;
pub mod time_order;

verus! {

/// How a resting order is filled by the trades of others.
#[derive(Clone, Copy, Debug, PartialEq, Eq, Structural)]
pub enum FillModel {
    Aggressive,
    Conservative,
    QueueAware,
}

/// The model that a text names; one that is aware of the queue where it names none.
pub open spec fn model_named(s: Text) -> FillModel {
    if s == "aggressive"@ {
        FillModel::Aggressive
    } else if s == "conservative"@ {
        FillModel::Conservative
    } else {
        FillModel::QueueAware
    }
}

impl FillModel {
    /// The model that a text names.
    pub fn from_str(s: &str) -> (m: FillModel)
        ensures
            m == model_named(s@),
    {
        if same_text(s, "aggressive") {
            FillModel::Aggressive
        } else if same_text(s, "conservative") {
            FillModel::Conservative
        } else {
            FillModel::QueueAware
        }
    }
}

/// The settings of a simulation.
#[derive(Clone, Copy, Debug, PartialEq, Eq, Structural)]
pub struct SimConfig {
    pub capital: u64,
    pub default_split_size: u64,
    pub min_latency_ms: u64,
    pub max_latency_ms: u64,
    pub hold_cooldown_ms: u64,
    pub order_size: u64,
    pub fill_model: FillModel,
    pub seed: u64,
}

impl SimConfig {
    /// Orders take between a shortest and a longest time, within reach of the clock.
    pub open spec fn wf(self) -> bool {
        self.min_latency_ms <= self.max_latency_ms <= order::LONGEST_LATENCY_MS
            && self.hold_cooldown_ms <= order::LONGEST_LATENCY_MS
    }
}

impl Default for SimConfig {
    /// The settings unless told otherwise: a capital of 1000, splits of 100, latencies of 300 to
    /// 500 milliseconds, a cooldown of 8 seconds, orders of 50, and the seed 42.
    fn default() -> (c: SimConfig)
        ensures
            c == (SimConfig {
                capital: 0x408F_4000_0000_0000,
                default_split_size: 0x4059_0000_0000_0000,
                min_latency_ms: 300,
                max_latency_ms: 500,
                hold_cooldown_ms: 8000,
                order_size: 0x4049_0000_0000_0000,
                fill_model: FillModel::QueueAware,
                seed: 42,
            }),
            c.wf(),
    {
        SimConfig {
            capital: 0x408F_4000_0000_0000,
            default_split_size: 0x4059_0000_0000_0000,
            min_latency_ms: 300,
            max_latency_ms: 500,
            hold_cooldown_ms: 8000,
            order_size: 0x4049_0000_0000_0000,
            fill_model: FillModel::QueueAware,
            seed: 42,
        }
    }
}

/// The models are named by their words, and every other word names the one that is aware of the
/// queue.
pub proof fn models_are_named(s: Text)
    ensures
        model_named(s) == FillModel::Aggressive <==> s == "aggressive"@,
        model_named(s) == FillModel::Conservative <==> s == "conservative"@,
{
    reveal_strlit("aggressive");
    reveal_strlit("conservative");
    assert("aggressive"@.len() != "conservative"@.len());
}

} // verus!
