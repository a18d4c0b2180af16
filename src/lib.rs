//! A single-instrument limit order book that aggregates resting liquidity by
//! price level and matches incoming orders against the best opposite level.
pub mod book;
pub mod order;

pub use book::OrderBook;
pub use order::{Order, Side};
