//! Core engine of a live network-diagnostics dashboard.
//!
//! The library holds the verified logic: a ping monitor with rolling
//! statistics, a cooperative multi-port scanner, a staged download/upload
//! speed-test state machine, the session state driven by key presses,
//! the recent-targets history, and a strict JSON codec for the persisted
//! configuration. All network and terminal I/O lives outside, in the
//! host application, which feeds plain values in — durations in
//! microseconds, byte counts, connect outcomes — and reads plain values
//! back out.

pub mod app;
pub mod arith;
pub mod config;
pub mod json;
pub mod ping;
pub mod portscan;
pub mod speedtest;
pub mod stats;
pub mod storage;
pub mod theme;
