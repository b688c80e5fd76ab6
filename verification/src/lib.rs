//! Detection of price discrepancies between a centralized exchange's order
//! book and a concentrated-liquidity AMM pool, for a single trading pair.
//!
//! The numeric core works in exact fixed-point arithmetic throughout: prices,
//! quantities and amounts are decimal fixed-point values scaled by `10^18`
//! ("wad"), and pool prices use the Q96 square-root-price convention.

pub mod calc;
pub mod errors;
pub mod evaluator;
pub mod fmt;
pub mod laws;
pub mod models;
pub mod price;
pub mod state;
pub mod univ3;
pub mod wide;
