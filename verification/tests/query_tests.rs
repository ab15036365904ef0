use chizu::expand::{expand, Neighbor};
use chizu::model::edge::{Edge, EdgeKind};
use chizu::model::entity::{Entity, EntityKind};
use chizu::retrieve::{retrieve, tokenize_query, Candidate, RetrievalSource, Retrieved, RouteHit};

fn make_entity(id: &str, name: &str, kind: EntityKind, path: Option<&str>) -> Entity {
    Entity {
        id: id.to_string(),
        kind,
        name: name.to_string(),
        component_id: None,
        path: path.map(String::from),
        language: Some("rust".to_string()),
        line_start: Some(1),
        line_end: Some(50),
        visibility: Some("pub".to_string()),
        exported: true,
    }
}

/// The entities of the test graph with their summaries and keywords.
fn graph_entities() -> Vec<Retrieved> {
    let with = |e: Entity, short: &str, kws: &[&str]| Retrieved {
        entity: e,
        short_summary: short.to_string(),
        keywords: kws.iter().map(|s| s.to_string()).collect(),
    };
    vec![
        with(
            make_entity("symbol::Engine", "Engine", EntityKind::Symbol, Some("src/engine.rs")),
            "Core execution engine",
            &["engine", "execution", "core"],
        ),
        with(
            make_entity("symbol::Parser", "Parser", EntityKind::Symbol, Some("src/parser.rs")),
            "Parses source code into AST",
            &["parser", "ast", "syntax"],
        ),
        with(
            make_entity("component::store", "store", EntityKind::Component, Some("src/store/mod.rs")),
            "Persistence layer",
            &["store", "database", "persistence"],
        ),
        with(
            make_entity("symbol::Config", "Config", EntityKind::Symbol, Some("src/config.rs")),
            "Application configuration",
            &["config", "settings", "environment"],
        ),
        with(make_entity("doc::README", "README", EntityKind::Doc, Some("README.md")), "", &[]),
    ]
}

/// The task routes of the test graph, resolved for the given route names.
fn route_hits(names: &[&str]) -> Vec<RouteHit> {
    let routes = [("build", "symbol::Engine", 80), ("build", "component::store", 60), ("debug", "symbol::Parser", 90)];
    let mut hits = Vec::new();
    for name in names {
        for (task, id, priority) in routes.iter() {
            if task == name {
                let found = graph_entities().into_iter().find(|r| r.entity.id == *id).unwrap();
                hits.push(RouteHit { found, priority: *priority });
            }
        }
    }
    hits
}

fn run(names: &[&str], tokens: &Vec<String>) -> Vec<Candidate> {
    retrieve(route_hits(names), tokens, graph_entities(), vec![])
}

fn find<'a>(cands: &'a [Candidate], id: &str) -> Option<&'a Candidate> {
    cands.iter().find(|c| c.entity.id == id)
}

#[test]
fn retrieve_finds_task_route_candidates() {
    let tokens = tokenize_query("something unrelated");
    let candidates = run(&["build"], &tokens);
    assert!(find(&candidates, "symbol::Engine").is_some());
    assert!(find(&candidates, "component::store").is_some());
    let engine = find(&candidates, "symbol::Engine").unwrap();
    assert!(engine.sources.iter().any(|s| matches!(s, RetrievalSource::TaskRoute { priority: 80 })));
}

#[test]
fn retrieve_task_route_for_nonexistent_task_returns_nothing_extra() {
    let tokens: Vec<String> = vec![];
    let candidates = run(&["nonexistent"], &tokens);
    assert!(candidates.is_empty());
}

#[test]
fn retrieve_name_match() {
    let tokens = tokenize_query("Engine");
    let candidates = run(&[], &tokens);
    let engine = find(&candidates, "symbol::Engine").unwrap();
    assert!(engine.sources.iter().any(|s| matches!(s, RetrievalSource::NameMatch)));
}

#[test]
fn retrieve_path_match() {
    let tokens = tokenize_query("config");
    let candidates = run(&[], &tokens);
    let config = find(&candidates, "symbol::Config").unwrap();
    assert!(config.sources.iter().any(|s| matches!(s, RetrievalSource::PathMatch)));
}

#[test]
fn retrieve_keyword_match_from_summary() {
    let tokens = tokenize_query("persistence");
    let candidates = run(&[], &tokens);
    let store_cand = find(&candidates, "component::store").expect("should find store via keyword 'persistence'");
    assert!(store_cand.sources.iter().any(|s| matches!(s, RetrievalSource::KeywordMatch)));
}

#[test]
fn retrieve_merges_multiple_sources() {
    let tokens = tokenize_query("engine");
    let candidates = run(&["build"], &tokens);
    let engine = find(&candidates, "symbol::Engine").unwrap();
    assert!(engine.sources.iter().any(|s| matches!(s, RetrievalSource::TaskRoute { .. })), "should have task route source");
    assert!(engine.sources.iter().any(|s| matches!(s, RetrievalSource::NameMatch)), "should have name match source");
}

#[test]
fn retrieve_empty_tokens_no_keyword_matching() {
    let candidates = run(&[], &vec![]);
    assert!(candidates.is_empty());
}

#[test]
fn retrieve_populates_summary_and_keywords() {
    let tokens = tokenize_query("Engine");
    let candidates = run(&[], &tokens);
    let engine = find(&candidates, "symbol::Engine").unwrap();
    assert_eq!(engine.short_summary, "Core execution engine");
    assert!(engine.keywords.contains(&"engine".to_string()));
}

#[test]
fn retrieve_entity_without_summary_gets_empty() {
    let tokens = tokenize_query("README");
    let candidates = run(&[], &tokens);
    let readme = find(&candidates, "doc::README").unwrap();
    assert_eq!(readme.short_summary, "");
    assert!(readme.keywords.is_empty());
}

#[test]
fn retrieve_multiple_route_names() {
    let tokens: Vec<String> = vec![];
    let candidates = run(&["build", "debug"], &tokens);
    assert!(find(&candidates, "symbol::Engine").is_some());
    assert!(find(&candidates, "component::store").is_some());
    assert!(find(&candidates, "symbol::Parser").is_some());
}

#[test]
fn retrieve_candidates_are_distinct() {
    let tokens = tokenize_query("engine config store");
    let candidates = run(&["build", "build"], &tokens);
    let mut ids: Vec<&str> = candidates.iter().map(|c| c.entity.id.as_str()).collect();
    let n = ids.len();
    ids.sort();
    ids.dedup();
    assert_eq!(ids.len(), n);
    let engine = find(&candidates, "symbol::Engine").unwrap();
    assert_eq!(engine.sources.iter().filter(|s| matches!(s, RetrievalSource::TaskRoute { .. })).count(), 2);
}

// --- expansion ---

fn edge(src: &str, rel: EdgeKind, dst: &str) -> Edge {
    Edge { src_id: src.to_string(), rel, dst_id: dst.to_string(), provenance_path: None, provenance_line: None }
}

/// A --Contains--> F..K, A --Contains--> B, B --DependsOn--> C,
/// D --TestedBy--> A, A --OwnsTask--> E; the seed is A.
fn expand_graph() -> (Vec<String>, Vec<Vec<Edge>>, Vec<Vec<Edge>>, Vec<String>) {
    let mut out_a = Vec::new();
    for suffix in ["F", "G", "H", "I", "J", "K"] {
        out_a.push(edge("e::A", EdgeKind::Contains, &format!("e::{suffix}")));
    }
    out_a.push(edge("e::A", EdgeKind::Contains, "e::B"));
    out_a.push(edge("e::A", EdgeKind::OwnsTask, "e::E"));
    let in_a = vec![edge("e::D", EdgeKind::TestedBy, "e::A")];
    let existing: Vec<String> =
        ["e::A", "e::B", "e::C", "e::D", "e::E", "e::F", "e::G", "e::H", "e::I", "e::J", "e::K"]
            .iter()
            .map(|s| s.to_string())
            .collect();
    (vec!["e::A".to_string()], vec![out_a], vec![in_a], existing)
}

fn expand_with(cap: usize) -> Vec<Neighbor> {
    let (seeds, out, inc, existing) = expand_graph();
    expand(&seeds, &out, &inc, &existing, cap)
}

fn has(ns: &[Neighbor], id: &str) -> bool {
    ns.iter().any(|n| n.entity_id == id)
}

#[test]
fn expand_finds_outgoing_useful_edges() {
    let neighbors = expand_with(10);
    assert!(has(&neighbors, "e::B"), "B should be found via outgoing Contains");
    let b = neighbors.iter().find(|n| n.entity_id == "e::B").unwrap();
    assert_eq!(b.via, "e::A");
}

#[test]
fn expand_finds_incoming_useful_edges() {
    let neighbors = expand_with(10);
    assert!(has(&neighbors, "e::D"), "D should be found via incoming TestedBy");
}

#[test]
fn expand_skips_non_useful_edge_kinds() {
    let neighbors = expand_with(10);
    assert!(!has(&neighbors, "e::E"), "E should be skipped (OwnsTask not useful)");
}

#[test]
fn expand_skips_seeds() {
    let neighbors = expand_with(10);
    assert!(!has(&neighbors, "e::A"));
}

#[test]
fn expand_does_not_follow_two_hops() {
    let neighbors = expand_with(10);
    assert!(!has(&neighbors, "e::C"), "C should not be found (2 hops away)");
}

#[test]
fn expand_respects_max_neighbors_cap() {
    let neighbors = expand_with(3);
    assert_eq!(neighbors.len(), 3, "should be capped at 3 neighbors");
}

#[test]
fn expand_cap_one() {
    assert_eq!(expand_with(1).len(), 1);
}

#[test]
fn expand_cap_zero() {
    assert!(expand_with(0).is_empty());
}

#[test]
fn expand_deduplicates_across_seeds() {
    let seeds = vec!["e::A".to_string(), "e::B".to_string()];
    let out = vec![vec![edge("e::A", EdgeKind::Contains, "e::Shared")], vec![edge("e::B", EdgeKind::Contains, "e::Shared")]];
    let inc = vec![vec![], vec![]];
    let existing = vec!["e::A".to_string(), "e::B".to_string(), "e::Shared".to_string()];
    let neighbors = expand(&seeds, &out, &inc, &existing, 10);
    assert_eq!(neighbors.iter().filter(|n| n.entity_id == "e::Shared").count(), 1);
}

#[test]
fn expand_empty_seeds() {
    let neighbors = expand(&vec![], &vec![], &vec![], &vec![], 10);
    assert!(neighbors.is_empty());
}

#[test]
fn expand_context_via_is_seed_id() {
    for n in &expand_with(10) {
        assert_eq!(n.via, "e::A", "all neighbors should trace back to seed A");
    }
}

#[test]
fn expand_skips_missing_entities() {
    let seeds = vec!["e::A".to_string()];
    let out = vec![vec![edge("e::A", EdgeKind::Contains, "e::Gone"), edge("e::A", EdgeKind::Contains, "e::B")]];
    let inc = vec![vec![]];
    let existing = vec!["e::A".to_string(), "e::B".to_string()];
    let neighbors = expand(&seeds, &out, &inc, &existing, 1);
    assert_eq!(neighbors.len(), 1);
    assert_eq!(neighbors[0].entity_id, "e::B");
}
