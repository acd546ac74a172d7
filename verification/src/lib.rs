//! A verified core for a small Redis-like key-value server.
//!
//! The crate covers the protocol decoder, the command interpreter, the
//! storage engines and the wire encoder.  Network plumbing lives outside
//! the library and talks to it through plain values.

pub mod commands;
pub mod data;
pub mod datatypes;
pub mod multi_server;
pub mod parser;
pub mod protocol;
pub mod server;
pub mod single_server;
pub mod text;

pub use datatypes::DataType;
