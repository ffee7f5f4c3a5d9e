//! Trading on a market while it is collected.

pub mod auth;
pub mod bridge;
pub mod bytes;
pub mod cli;
pub mod clob;
pub mod config;
pub mod ctf_ops;
pub mod fv_convergence;
pub mod gamma;
pub mod order_manager;
pub mod relayer;
pub mod risk;
pub mod runner;
pub mod state;
pub mod strategy;
