//! A batching sink that moves records from a partitioned log into a durable
//! store, committing the log's offsets only after each batch is stored.

pub mod error;
pub mod tracker;
pub mod sink;
pub mod laws;
pub mod config;
pub mod record_stream;
pub mod pool;
