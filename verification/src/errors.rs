//! Error taxonomy of the engine: storage (snapshot I/O and codec) failures,
//! index failures, query-parse failures, schema conflicts, and calls made
//! outside the `Ready` state.

use vstd::prelude::*;

verus! {

/// A failure while saving, loading, encoding or decoding the document
/// snapshot.
#[derive(Debug, PartialEq, Eq)]
pub struct StorageError {
    pub message: String,
}

/// A failure while registering a schema field.
#[derive(Debug, PartialEq, Eq)]
pub enum SchemaError {
    /// The name collides with one of the reserved fields (`id`, `content`),
    /// which are never redefined.
    Conflict,
}

/// Any failure surfaced by the engine's public operations.
#[derive(Debug, PartialEq, Eq)]
pub enum EngineError {
    /// The operation was called after `close`: the engine is no longer
    /// in the `Ready` state.
    InvalidState,
    /// Snapshot storage failed (unreadable or unwritable path, codec failure).
    Io(StorageError),
    /// The inverted index failed to open, add or commit.
    Index(String),
    /// The query text could not be parsed.
    Parse(String),
    /// A schema registration failed.
    Schema(SchemaError),
}

impl EngineError {
    /// A human-readable description of the error.
    pub fn message(&self) -> String {
        match self {
            EngineError::InvalidState => String::from_str("engine is closed"),
            EngineError::Io(e) => e.message.clone(),
            EngineError::Index(m) => m.clone(),
            EngineError::Parse(m) => m.clone(),
            EngineError::Schema(_) => String::from_str("reserved field cannot be redefined"),
        }
    }
}

} // verus!
