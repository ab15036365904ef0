//! The data model of the repository graph.

pub mod edge;
pub mod entity;
pub mod id;
pub mod records;

pub use edge::{Edge, EdgeKind};
pub use entity::{Entity, EntityKind};
pub use id::{component_id, doc_id, source_unit_id, symbol_id, test_id, ComponentId};
pub use records::{EmbeddingRecord, FileRecord, GraphStats, Summary, TaskRoute};
