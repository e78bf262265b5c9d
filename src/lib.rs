//! Grid-trading signal engine, risk evaluator and backtest executor.
//!
//! Every real-valued quantity (prices, sizes, cash, percentages) is carried as
//! a fixed-point integer counting billionths of a unit; see [`units`].

pub mod units;
pub mod ladder;
pub mod config;
pub mod interfaces;
pub mod text;
pub mod grid;
pub mod backtesting;
pub mod risk;
pub mod mirroring;
pub mod errors;
pub mod endpoints;
pub mod key_manager;
pub mod events;
pub mod engine;
pub mod leaderboard;
pub mod keyed;
pub mod exchange;
