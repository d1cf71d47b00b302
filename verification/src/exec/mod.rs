//! Order execution: tracking, pacing, signing and sending.
pub mod event_laws;
pub mod id_map;
pub mod instance_lock;
pub mod order_laws;
pub mod order_manager;
pub mod outcome_laws;
pub mod paced_send;
pub mod plan_laws;
pub mod rate_limit;
pub mod send_flow;
pub mod signing;
