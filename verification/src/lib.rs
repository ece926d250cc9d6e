//! Decision logic of a matcher worker for a spot-order book: batch
//! validation by spread, wallet rotation, the requests sent to the
//! matching server and the reactions to its replies.

pub mod types;
pub mod config;
pub mod spread;
pub mod codec;
pub mod error;
pub mod order_processor;
pub mod session;
pub mod matcher_client;
