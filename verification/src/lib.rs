//! A small document search engine: callers add documents (an identifier,
//! free-text content, and string metadata) and retrieve them later by
//! querying their content or registered metadata fields.
//!
//! The crate keeps two stores in step: a keyed document store that is
//! snapshotted to durable storage after every mutation, and a full-text
//! inverted index (tantivy) that is committed after every add. The
//! orchestration that keeps the two consistent lives in [`engine`].

pub mod codec;
pub mod config;
pub mod document;
pub mod engine;
pub mod errors;
pub mod fulltext;
pub mod index;
pub mod persist;
pub mod query;
pub mod schema;
pub mod store;

pub use config::StorageConfig;
pub use document::Document;
pub use engine::SearchEngine;
pub use errors::{EngineError, SchemaError, StorageError};
pub use index::SearchIndex;
pub use store::DocumentStore;
