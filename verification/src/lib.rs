//! Decision logic of a two-venue spread trader: signal and spread engines, the
//! position state machine, sizing, entry filters, execution routing, emergency
//! flattening, backtest settlement and status reporting.
pub mod bt;
pub mod bt_grid;
pub mod config;
pub mod data_dump;
pub mod decimal;
pub mod double;
pub mod emergency_flatten;
pub mod emergency_handlers;
pub mod entry_dispatch;
pub mod entry_filter;
pub mod exit_dispatch;
pub mod live;
pub mod live_exec;
pub mod live_pnl;
pub mod live_status;
pub mod live_tick;
pub mod maker;
pub mod rounding;
pub mod s3_mirror;
pub mod signal;
pub mod sizing;
pub mod spread;
pub mod state;
pub mod status;
pub mod text;
pub mod time;
