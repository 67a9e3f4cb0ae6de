//! State-synchronization core for a lending-protocol liquidation bot:
//! a crash-recoverable snapshot codec for the account cache, an adaptive
//! prefix-partition search for bulk account fetching, and the service
//! orchestrator's decision logic.

pub mod cache;
pub mod codec;
pub mod fetcher;
pub mod service;
pub mod snapshot;
