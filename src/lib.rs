//! A small server core for a subset of the RESP wire protocol: frame
//! decoding, command dispatch against an in-memory store, and reply encoding.
pub mod value;
pub mod number;
pub mod lines;
pub mod decode;
pub mod encode;
pub mod store;
pub mod command;
pub mod server;
pub mod laws;
