//! Plain records stored beside entities and edges.

use vstd::prelude::*;

verus! {

/// An LLM-generated summary of an entity.
#[derive(Debug, Clone, PartialEq, Eq)]
pub struct Summary {
    pub entity_id: String,
    pub short_summary: String,
    pub detailed_summary: Option<String>,
    pub keywords: Vec<String>,
    pub updated_at: String,
    pub source_hash: Option<String>,
}

/// A task route: an entity that a task of the given name should start from.
#[derive(Debug, Clone, PartialEq, Eq)]
pub struct TaskRoute {
    pub task_name: String,
    pub entity_id: String,
    pub priority: i64,
}

/// What is known about one file of the repository.
#[derive(Debug, Clone, PartialEq, Eq)]
pub struct FileRecord {
    pub path: String,
    pub component_id: Option<String>,
    pub kind: String,
    pub hash: String,
    pub indexed: bool,
    pub ignore_reason: Option<String>,
}

/// Metadata of the embedding of an entity; the vector itself lives in the
/// vector index.
#[derive(Debug, Clone, PartialEq, Eq)]
pub struct EmbeddingRecord {
    pub entity_id: String,
    pub model: String,
    pub dimensions: i64,
    pub vector_ref: Option<String>,
    pub updated_at: String,
}

/// Row counts of the graph store.
#[derive(Debug, Clone, Copy, PartialEq, Eq, Structural)]
pub struct GraphStats {
    pub entities: u64,
    pub edges: u64,
    pub files: u64,
    pub summaries: u64,
    pub task_routes: u64,
    pub embeddings: u64,
}

} // verus!
