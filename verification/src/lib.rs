//! Liveness monitoring for validators on multiple blockchain networks.
//!
//! The library tracks, for each monitored chain, a bounded window of recently
//! observed blocks, derives the chain's block-production cadence and the
//! monitored validator's miss/hit counts from that window, plans the polling
//! schedule that fetches the next block, and keeps a hysteresis-based alarm
//! ledger that arms when consecutive misses cross a threshold and clears once
//! signing resumes.
//!
//! All network I/O (the per-endpoint request fan-out, the polling sleeps, and
//! alert delivery) lives outside this crate; callers hand the responses they
//! gathered to the functions here, which make every decision.

pub mod chain_monitor;
pub mod chain_state;
pub mod config;
pub mod fanout;
pub mod ident;
pub mod pager;
