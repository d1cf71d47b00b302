//! The account: position, profit, and the state that survives a restart.
pub mod fill_accounting;
pub mod id_set;
pub mod persistence;
pub mod pnl_actor;
pub mod pnl_laws;
