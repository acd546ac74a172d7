//! The wire protocol: serializing values and decoding line streams.

pub mod serializer;
pub mod stream_parser;
