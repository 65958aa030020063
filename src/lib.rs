//! A client core for a distributed tabular store's binary wire protocol:
//! frame encoding and decoding, per-connection stream ids, pool selection,
//! reconnection backoff, retry decisions and schema metadata snapshots.
pub mod connection;
pub mod error;
pub mod frame;
pub mod pool;
pub mod retry;
pub mod schema;
pub mod session;
pub mod snapshot;
pub mod streams;
