//! Verified core of a two-sided market maker: order tracking, pacing, risk control, book
//! keeping and the decision steps of its live tasks.
pub mod account;
pub mod binance;
pub mod book;
pub mod config;
pub mod csv_text;
pub mod exec;
pub mod json;
pub mod lighter;
pub mod metrics;
pub mod num;
pub mod orchestrator;
pub mod risk;
pub mod shared;
pub mod strategy;
pub mod text;
pub mod timestamps;
pub mod types;
pub mod util;
