//! Session tracking for a time-boxed run of timed rounds: a pausable clock,
//! an append-only ledger of scored attempts, the statistics derived from them,
//! and the checks around saving and restoring the ledger.

pub mod attempts_log;
pub mod commands;
pub mod decimal;
pub mod input;
pub mod ledger;
pub mod marathon_log;
pub mod persistence;
pub mod stats;
pub mod timekeeping;
pub mod timer;
