//! The strategies that are played.

pub mod fair_value;
pub mod market_maker;
pub mod mean_revert;
pub mod monkey;
pub mod monkey_names;
pub mod trend;
