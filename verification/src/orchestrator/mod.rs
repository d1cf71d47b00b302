//! Decisions of the tasks that run the market maker: the market-data task, the reconcile poller
//! and the live feeds.
pub mod cycle;
pub mod hot;
pub mod live;
pub mod poller;
