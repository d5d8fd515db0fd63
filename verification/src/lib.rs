//! A chain indexer core: block decoding, coin classification, an ordered
//! key/value store with composite-key indexes, an atomic batched-write
//! protocol, and the read-only query surface over it.

pub mod classify;
pub mod codec;
pub mod config;
pub mod laws;
pub mod queries;
pub mod store;
pub mod sync;
pub mod table;
pub mod writer;
pub mod types;
pub mod vm;
