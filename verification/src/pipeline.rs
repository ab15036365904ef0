//! The query pipeline's own steps: which category a query is answered
//! under, and the tokens it is searched by.

use vstd::prelude::*;
use crate::classify::{classify_lowered_spec, TaskCategory};
use crate::retrieve::{tokenize_query, tokenize_spec};
use crate::text::lowercase;

verus! {

/// The query pipeline: classify, retrieve, expand, rerank, plan.
#[derive(Debug, Clone, Copy)]
pub struct QueryPipeline;

impl QueryPipeline {
    /// The category of a query, by its keywords.
    pub fn classify(query: &str) -> (res: TaskCategory)
        ensures
            res == classify_lowered_spec(lowercase(query@)),
    {
        TaskCategory::classify(query)
    }

    /// The search tokens of a query.
    pub fn tokenize(query: &str) -> (res: Vec<String>)
        ensures
            res@.map_values(|t: String| t@) == tokenize_spec(lowercase(query@)),
    {
        tokenize_query(query)
    }

    /// The category a query is answered under: the override when one is
    /// given, else the query's own.
    pub fn category_for(category_override: Option<TaskCategory>, query: &str) -> (res: TaskCategory)
        ensures
            res == match category_override {
                Some(c) => c,
                None => classify_lowered_spec(lowercase(query@)),
            },
    {
        match category_override {
            Some(c) => c,
            None => Self::classify(query),
        }
    }
}

} // verus!
