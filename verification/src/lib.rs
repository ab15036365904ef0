//! Subject-to-file routing for coding agents: the verified core of the
//! repository graph model, query classification, retrieval and ranking.

pub mod text;
pub mod model;
pub mod digest;
pub mod classify;
pub mod retrieve;
pub mod expand;
pub mod numfmt;
pub mod rerank;
pub mod registry;
pub mod paths;
pub mod scan;
pub mod index;
pub mod walk;
pub mod calendar;
pub mod manifest;
pub mod style;
pub mod config;
pub mod store_config;
pub mod pipeline;
pub mod visualize;
pub mod layout;
pub mod diagram;
pub mod stats;
pub mod summarize;
pub mod watch;
pub mod plan;
