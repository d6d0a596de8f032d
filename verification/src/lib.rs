//! A bounded, per-symbol snapshot of market data, kept consistent under
//! concurrent updates.
//!
//! Prices are whole numbers of ticks, of whatever size the caller counts in,
//! and percentages are whole numbers of [`percent::PERCENT_SCALE`]-ths of one
//! percent, so every derived statistic is exact. Timestamps are whole seconds
//! since the Unix epoch.
//!
//! - [`state`]: what is kept for one symbol, and the two updates that change it.
//! - [`store`]: one state per tracked symbol.
//! - [`shared`]: the store behind a lock, for writers and readers at once.
//! - [`schedule`]: the update loops and what a pass does to the store.
//! - [`feed`]: what a reply of the market-data source means.
//! - [`replay`]: what a run of quotes does to a state.
//! - [`extrema`], [`percent`]: the arithmetic of the derived fields.
//! - [`panel`]: which symbols a display shows, and where.

pub mod extrema;
pub mod feed;
pub mod panel;
pub mod percent;
pub mod replay;
pub mod schedule;
pub mod shared;
pub mod state;
pub mod store;
