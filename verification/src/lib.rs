//! Event-driven historical backtester and hyperparameter optimizer for
//! futures-trading strategies.
//!
//! Monetary amounts, prices and ratios are held in fixed-point integers so
//! that every accounting step is exact and deterministic: money in cents,
//! prices and quantities scaled by `1e5`, ratio metrics scaled by `1e9`.

use vstd::prelude::*;

pub mod backtest;
pub mod codec;
pub mod commission;
pub mod data_handler;
pub mod events;
pub mod execution;
pub mod fixed;
pub mod index;
pub mod indicators;
pub mod instruments;
pub mod optimization;
pub mod params;
pub mod performance;
pub mod portfolio;
pub mod pos_sizers;
pub mod risks;
pub mod settings;
pub mod strategy;
pub mod text;
pub mod utils;

verus! {

} // verus!
