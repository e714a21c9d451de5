//! Decoding of liquidity-pool event logs and the per-block aggregation of
//! decoded swaps into additive counters and write-once markers.

pub mod calendar;
pub mod events;
pub mod extract;
pub mod stores;
pub mod text;
