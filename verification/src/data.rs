//! Storage: the key/record map and the engines built on it.

pub mod engine;
pub mod shared;
pub mod store;
pub mod thread_engine;
