//! Hourly weather observation store: calendar arithmetic, schema lifecycle,
//! forecast-chain planning, gap detection and daily rollups.

pub mod calendar;
pub mod gaps;
pub mod rollup;
pub mod models;
pub mod store;
pub mod extensions;
pub mod views;
pub mod import;
