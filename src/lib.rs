//! Durable, encrypted, versioned session state for an external messaging
//! client, and the decisions that keep it in step with an object store.

pub mod version;
pub mod error;
pub mod codec;
pub mod store;
pub mod runner;
pub mod alert;
pub mod pager;
