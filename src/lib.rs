//! A small greeting ledger: one greeting and one counter per identity, a
//! global counter, a configurable name-length limit and an admin who may
//! reset the counter, hand over the admin role and change the limit.
//!
//! The state lives in a two-tier key-value store (`storage`), the operations
//! that change it are in `contract`, and `laws` states the properties that
//! hold across sequences of operations.
pub mod contract;
pub mod error;
pub mod laws;
pub mod storage;

pub use contract::HelloContract;
pub use error::Error;
pub use storage::{Address, DataKey, Entry, Tier, Value};
