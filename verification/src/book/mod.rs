//! Order books kept from snapshots and deltas.
pub mod local_book;
