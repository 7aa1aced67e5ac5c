//! A log-structured key-value engine: an append-only log of commands and an
//! in-memory index from each key to the span of its latest `Set` record.
//!
//! The library decides and accounts; it performs no I/O. A caller owns the
//! log on storage, hands its bytes in, whole or piece by piece, and appends
//! the records handed out.

pub mod command;
pub mod error;
pub mod history;
pub mod index;
pub mod json;
pub mod laws;
pub mod log;
pub mod pos;
pub mod store;

pub use command::{Command, CommandView};
pub use error::KvsError;
pub use index::Index;
pub use log::{RecordLog, Scanned, Tail};
pub use pos::CommandPos;
pub use store::{load, KvStore, Record, Recovery, StoreView};
