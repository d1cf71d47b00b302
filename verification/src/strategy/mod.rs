//! The quoting strategy: rolling windows, the signal engine and the quote ladder.
pub mod quotes;
pub mod rolling;
pub mod vol_obi;
