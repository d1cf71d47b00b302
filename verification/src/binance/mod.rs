//! The reference exchange: its depth feed, and the alpha made of it.
pub mod book_ticker;
pub mod depth_client;
pub mod obi;
