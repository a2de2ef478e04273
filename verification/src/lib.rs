//! Verified core of a semantic filesystem index: the shared data types, an
//! in-memory chunk and file store, and the column layout of the chunk and file
//! tables.

pub mod types;
pub mod ranking;
pub mod memory;
pub mod schema;
pub mod laws;
