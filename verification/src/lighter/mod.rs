//! The exchange's protocol: messages, nonces, replies and signing.
pub mod messages;
pub mod nonce;
pub mod rest;
pub mod signer;
pub mod tx_ws;
pub mod ws;
