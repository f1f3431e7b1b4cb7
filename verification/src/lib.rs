//! A transactional key-value persistence layer: typed domain records are
//! stored as opaque byte blobs under string keys in one sqlite table, and
//! every operation, single or batch, runs inside its own write-locking
//! (immediate) transaction that commits on success and rolls back whole on
//! failure.

pub mod codec;
pub mod domain;
pub mod errors;
pub mod laws;
pub mod model;
pub mod record;
pub mod sqlite;
pub mod store;
