//! The storage configuration the engine consumes: where the document
//! snapshot lives and where the index directory lives.

use vstd::prelude::*;

verus! {

/// Paths to the engine's durable state. `data_file` is the snapshot file;
/// `index_path` is the index directory. Both parent directories must
/// exist.
#[derive(Debug, Clone)]
pub struct StorageConfig {
    pub data_file: String,
    pub index_path: String,
}

} // verus!
