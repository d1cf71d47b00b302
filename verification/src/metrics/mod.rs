//! What is recorded of the session's fills.
pub mod live_metrics;
pub mod trade_log;
