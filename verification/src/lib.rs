//! A single-instrument continuous double-auction market, simulated tick by tick.
//!
//! Prices and quantities are fixed-point integers, so that every rule of the
//! matching engine, of the two strategies and of the tick loop is stated over
//! exact arithmetic and proved.

pub mod types;
pub mod stamps;
pub mod order_book;
pub mod strategy;
pub mod engine;
pub mod stats;
pub mod chart;
