use chizu::classify::TaskCategory;
use chizu::model::entity::{Entity, EntityKind};
use chizu::rerank::{
    candidate_signals, rank_order, Signals, W_EXPORTED, W_KEYWORD, W_KIND_PREF, W_NAME_MATCH, W_PATH_MATCH,
    W_TASK_ROUTE, W_VECTOR,
};
use chizu::retrieve::{Candidate, RetrievalSource};

const EPS: f64 = 1e-9;
const CONTEXT_DISCOUNT: f64 = 0.50;

fn w(x: u32) -> f64 {
    x as f64 / 100.0
}

struct ScoredEntry {
    candidate: Candidate,
    score: f64,
    reasons: Vec<String>,
    is_context: bool,
    context_via: Option<String>,
}

/// The weighted sum of the signals that the library computes, with the
/// weight constants.
fn score_of(s: &Signals, token_count: usize) -> (f64, Vec<String>) {
    let mut score = 0.0;
    let mut reasons = s.reasons_before_vector.clone();
    for p in &s.route_priorities {
        score += w(W_TASK_ROUTE) * ((*p as f64).min(100.0) / 100.0);
    }
    if s.keyword_source {
        score += w(W_KEYWORD);
    } else if s.keyword_overlap > 0 {
        score += w(W_KEYWORD) * (s.keyword_overlap as f64 / token_count.max(1) as f64);
    }
    if s.name_source || s.name_contains_term {
        score += w(W_NAME_MATCH);
    }
    for bits in &s.vector_distance_bits {
        let d = f32::from_bits(*bits);
        score += w(W_VECTOR) * (1.0 - (d as f64) / 2.0).max(0.0);
        reasons.push(format!("vector(dist={:.3})", d));
    }
    if s.kind_preferred {
        score += w(W_KIND_PREF);
    }
    if s.exported {
        score += w(W_EXPORTED);
    }
    if s.path_source || s.path_contains_term {
        score += w(W_PATH_MATCH);
    }
    reasons.extend(s.reasons_after_vector.iter().cloned());
    (score, reasons)
}

fn rerank(
    seeds: Vec<Candidate>,
    neighbors: Vec<(Candidate, String)>,
    category: &TaskCategory,
    query_tokens: &[String],
    limit: usize,
) -> Vec<ScoredEntry> {
    let tokens: Vec<String> = query_tokens.to_vec();
    let mut entries = Vec::new();
    for candidate in seeds {
        let (score, reasons) = score_of(&candidate_signals(&candidate, category, &tokens), tokens.len());
        entries.push(ScoredEntry { candidate, score, reasons, is_context: false, context_via: None });
    }
    for (candidate, via) in neighbors {
        let (score, reasons) = score_of(&candidate_signals(&candidate, category, &tokens), tokens.len());
        entries.push(ScoredEntry {
            candidate,
            score: score * CONTEXT_DISCOUNT,
            reasons,
            is_context: true,
            context_via: Some(via),
        });
    }
    let keys: Vec<u64> = entries.iter().map(|e| e.score.to_bits()).collect();
    let ids: Vec<String> = entries.iter().map(|e| e.candidate.entity.id.clone()).collect();
    let order = rank_order(&keys, &ids, limit);
    let mut slots: Vec<Option<ScoredEntry>> = entries.into_iter().map(Some).collect();
    order.into_iter().map(|i| slots[i].take().unwrap()).collect()
}

fn make_entity(id: &str, name: &str, kind: EntityKind, path: Option<&str>, exported: bool) -> Entity {
    Entity {
        id: id.to_string(),
        kind,
        name: name.to_string(),
        component_id: None,
        path: path.map(String::from),
        language: Some("rust".to_string()),
        line_start: Some(1),
        line_end: Some(50),
        visibility: if exported { Some("pub".to_string()) } else { None },
        exported,
    }
}

fn make_candidate(entity: Entity, sources: Vec<RetrievalSource>, keywords: Vec<&str>) -> Candidate {
    Candidate {
        entity,
        sources,
        short_summary: String::new(),
        keywords: keywords.into_iter().map(String::from).collect(),
    }
}

fn distance(d: f32) -> RetrievalSource {
    RetrievalSource::VectorSearch { distance_bits: d.to_bits() }
}

#[test]
fn score_task_route_signal() {
    let entity = make_entity("e::A", "Unrelated", EntityKind::Repo, None, false);
    let candidate = make_candidate(entity, vec![RetrievalSource::TaskRoute { priority: 100 }], vec![]);
    let result = rerank(vec![candidate], vec![], &TaskCategory::General, &[], 10);
    assert!((result[0].score - w(W_TASK_ROUTE)).abs() < EPS);
    assert!(result[0].reasons.iter().any(|r| r.contains("task_route")));
}

#[test]
fn score_task_route_capped_at_100() {
    let entity = make_entity("e::A", "X", EntityKind::Repo, None, false);
    let candidate = make_candidate(entity, vec![RetrievalSource::TaskRoute { priority: 200 }], vec![]);
    let result = rerank(vec![candidate], vec![], &TaskCategory::General, &[], 10);
    assert!((result[0].score - w(W_TASK_ROUTE)).abs() < EPS);
}

#[test]
fn score_task_route_partial_priority() {
    let entity = make_entity("e::A", "X", EntityKind::Repo, None, false);
    let candidate = make_candidate(entity, vec![RetrievalSource::TaskRoute { priority: 50 }], vec![]);
    let result = rerank(vec![candidate], vec![], &TaskCategory::General, &[], 10);
    assert!((result[0].score - w(W_TASK_ROUTE) * 0.5).abs() < EPS);
}

#[test]
fn score_keyword_match_source() {
    let entity = make_entity("e::A", "X", EntityKind::Repo, None, false);
    let candidate = make_candidate(entity, vec![RetrievalSource::KeywordMatch], vec![]);
    let result = rerank(vec![candidate], vec![], &TaskCategory::General, &[], 10);
    assert!((result[0].score - w(W_KEYWORD)).abs() < EPS);
    assert!(result[0].reasons.contains(&"keyword_match".to_string()));
}

#[test]
fn score_keyword_overlap_fraction() {
    let entity = make_entity("e::A", "X", EntityKind::Repo, None, false);
    let candidate = make_candidate(entity, vec![], vec!["engine", "store", "other"]);
    let tokens = vec!["engine".to_string(), "parser".to_string()];
    let result = rerank(vec![candidate], vec![], &TaskCategory::General, &tokens, 10);
    assert!((result[0].score - w(W_KEYWORD) * 0.5).abs() < EPS);
    assert!(result[0].reasons.iter().any(|r| r.contains("keyword_overlap(1/2)")));
}

#[test]
fn score_keyword_overlap_all_match() {
    let entity = make_entity("e::A", "X", EntityKind::Repo, None, false);
    let candidate = make_candidate(entity, vec![], vec!["engine", "parser"]);
    let tokens = vec!["engine".to_string(), "parser".to_string()];
    let result = rerank(vec![candidate], vec![], &TaskCategory::General, &tokens, 10);
    assert!((result[0].score - w(W_KEYWORD)).abs() < EPS);
}

#[test]
fn score_name_match_source() {
    let entity = make_entity("e::A", "X", EntityKind::Repo, None, false);
    let candidate = make_candidate(entity, vec![RetrievalSource::NameMatch], vec![]);
    let result = rerank(vec![candidate], vec![], &TaskCategory::General, &[], 10);
    assert!((result[0].score - w(W_NAME_MATCH)).abs() < EPS);
    assert!(result[0].reasons.contains(&"name_match".to_string()));
}

#[test]
fn score_name_contains_term_fallback() {
    let entity = make_entity("e::A", "EngineCore", EntityKind::Repo, None, false);
    let candidate = make_candidate(entity, vec![], vec![]);
    let tokens = vec!["engine".to_string()];
    let result = rerank(vec![candidate], vec![], &TaskCategory::General, &tokens, 10);
    assert!((result[0].score - w(W_NAME_MATCH)).abs() < EPS);
    assert!(result[0].reasons.contains(&"name_contains_term".to_string()));
}

#[test]
fn score_vector_similarity() {
    let entity = make_entity("e::A", "X", EntityKind::Repo, None, false);
    let candidate = make_candidate(entity, vec![distance(0.4)], vec![]);
    let result = rerank(vec![candidate], vec![], &TaskCategory::General, &[], 10);
    let expected = w(W_VECTOR) * 0.8;
    assert!((result[0].score - expected).abs() < EPS);
    assert!(result[0].reasons.iter().any(|r| r.contains("vector")));
}

#[test]
fn score_vector_large_distance_clamped() {
    let entity = make_entity("e::A", "X", EntityKind::Repo, None, false);
    let candidate = make_candidate(entity, vec![distance(3.0)], vec![]);
    let result = rerank(vec![candidate], vec![], &TaskCategory::General, &[], 10);
    assert!(result[0].score.abs() < EPS);
}

#[test]
fn score_vector_zero_distance() {
    let entity = make_entity("e::A", "X", EntityKind::Repo, None, false);
    let candidate = make_candidate(entity, vec![distance(0.0)], vec![]);
    let result = rerank(vec![candidate], vec![], &TaskCategory::General, &[], 10);
    assert!((result[0].score - w(W_VECTOR)).abs() < EPS);
}

#[test]
fn score_kind_preference() {
    let entity = make_entity("e::A", "X", EntityKind::Symbol, None, false);
    let candidate = make_candidate(entity, vec![], vec![]);
    let result = rerank(vec![candidate], vec![], &TaskCategory::Understand, &[], 10);
    assert!((result[0].score - w(W_KIND_PREF)).abs() < EPS);
    assert!(result[0].reasons.contains(&"kind_preferred".to_string()));
}

#[test]
fn score_kind_not_preferred() {
    let entity = make_entity("e::A", "X", EntityKind::Bench, None, false);
    let candidate = make_candidate(entity, vec![], vec![]);
    let result = rerank(vec![candidate], vec![], &TaskCategory::Understand, &[], 10);
    assert!(result[0].score.abs() < EPS);
    assert!(!result[0].reasons.contains(&"kind_preferred".to_string()));
}

#[test]
fn score_exported_bonus() {
    let entity = make_entity("e::A", "X", EntityKind::Repo, None, true);
    let candidate = make_candidate(entity, vec![], vec![]);
    let result = rerank(vec![candidate], vec![], &TaskCategory::General, &[], 10);
    assert!((result[0].score - w(W_EXPORTED)).abs() < EPS);
    assert!(result[0].reasons.contains(&"exported".to_string()));
}

#[test]
fn score_not_exported() {
    let entity = make_entity("e::A", "X", EntityKind::Repo, None, false);
    let candidate = make_candidate(entity, vec![], vec![]);
    let result = rerank(vec![candidate], vec![], &TaskCategory::General, &[], 10);
    assert!(result[0].score.abs() < EPS);
}

#[test]
fn score_path_match_source() {
    let entity = make_entity("e::A", "X", EntityKind::Repo, None, false);
    let candidate = make_candidate(entity, vec![RetrievalSource::PathMatch], vec![]);
    let result = rerank(vec![candidate], vec![], &TaskCategory::General, &[], 10);
    assert!((result[0].score - w(W_PATH_MATCH)).abs() < EPS);
    assert!(result[0].reasons.contains(&"path_match".to_string()));
}

#[test]
fn score_path_contains_term_fallback() {
    let entity = make_entity("e::A", "X", EntityKind::Repo, Some("src/engine/core.rs"), false);
    let candidate = make_candidate(entity, vec![], vec![]);
    let tokens = vec!["engine".to_string()];
    let result = rerank(vec![candidate], vec![], &TaskCategory::General, &tokens, 10);
    assert!((result[0].score - w(W_PATH_MATCH)).abs() < EPS);
    assert!(result[0].reasons.contains(&"path_contains_term".to_string()));
}

#[test]
fn score_no_path_no_path_bonus() {
    let entity = make_entity("e::A", "X", EntityKind::Repo, None, false);
    let candidate = make_candidate(entity, vec![], vec![]);
    let tokens = vec!["engine".to_string()];
    let result = rerank(vec![candidate], vec![], &TaskCategory::General, &tokens, 10);
    assert!(!result[0].reasons.iter().any(|r| r.contains("path")));
}

#[test]
fn score_all_signals_combined() {
    let entity = make_entity("e::A", "Engine", EntityKind::Symbol, Some("src/engine.rs"), true);
    let candidate = make_candidate(
        entity,
        vec![
            RetrievalSource::TaskRoute { priority: 100 },
            RetrievalSource::KeywordMatch,
            RetrievalSource::NameMatch,
            distance(0.0),
            RetrievalSource::PathMatch,
        ],
        vec![],
    );
    let result = rerank(vec![candidate], vec![], &TaskCategory::Understand, &[], 10);
    assert!((result[0].score - 1.0).abs() < EPS);
}

#[test]
fn context_discount_applied_to_neighbors() {
    let entity = make_entity("e::A", "Engine", EntityKind::Repo, None, true);
    let candidate = make_candidate(entity, vec![RetrievalSource::NameMatch], vec![]);
    let tokens: Vec<String> = vec![];
    let result = rerank(vec![], vec![(candidate, "e::Seed".to_string())], &TaskCategory::General, &tokens, 10);
    let expected = (w(W_NAME_MATCH) + w(W_EXPORTED)) * CONTEXT_DISCOUNT;
    assert!((result[0].score - expected).abs() < EPS);
    assert!(result[0].is_context);
    assert_eq!(result[0].context_via.as_deref(), Some("e::Seed"));
}

#[test]
fn seeds_not_discounted() {
    let entity = make_entity("e::A", "Engine", EntityKind::Repo, None, true);
    let candidate = make_candidate(entity, vec![RetrievalSource::NameMatch], vec![]);
    let result = rerank(vec![candidate], vec![], &TaskCategory::General, &[], 10);
    let expected = w(W_NAME_MATCH) + w(W_EXPORTED);
    assert!((result[0].score - expected).abs() < EPS);
    assert!(!result[0].is_context);
    assert!(result[0].context_via.is_none());
}

#[test]
fn rerank_sorts_descending() {
    let high = make_candidate(
        make_entity("e::H", "H", EntityKind::Repo, None, true),
        vec![RetrievalSource::KeywordMatch, RetrievalSource::NameMatch],
        vec![],
    );
    let low = make_candidate(make_entity("e::L", "L", EntityKind::Repo, None, false), vec![], vec![]);
    let result = rerank(vec![low, high], vec![], &TaskCategory::General, &[], 10);
    assert!(result[0].score >= result[1].score);
    assert_eq!(result[0].candidate.entity.id, "e::H");
}

#[test]
fn rerank_dedup_keeps_higher_score() {
    let seed_entity = make_entity("e::A", "Engine", EntityKind::Symbol, None, true);
    let neighbor_entity = seed_entity.clone();
    let seed = make_candidate(seed_entity, vec![RetrievalSource::NameMatch], vec![]);
    let neighbor = make_candidate(neighbor_entity, vec![RetrievalSource::NameMatch], vec![]);
    let result = rerank(vec![seed], vec![(neighbor, "e::X".to_string())], &TaskCategory::General, &[], 10);
    assert_eq!(result.len(), 1);
    assert!(!result[0].is_context);
}

#[test]
fn rerank_respects_limit() {
    let candidates: Vec<Candidate> = (0..10)
        .map(|i| make_candidate(make_entity(&format!("e::{i}"), &format!("E{i}"), EntityKind::Repo, None, false), vec![], vec![]))
        .collect();
    let result = rerank(candidates, vec![], &TaskCategory::General, &[], 3);
    assert_eq!(result.len(), 3);
}

#[test]
fn rerank_limit_larger_than_entries() {
    let candidates = vec![make_candidate(make_entity("e::A", "A", EntityKind::Repo, None, false), vec![], vec![])];
    let result = rerank(candidates, vec![], &TaskCategory::General, &[], 100);
    assert_eq!(result.len(), 1);
}

#[test]
fn rerank_empty_inputs() {
    let result = rerank(vec![], vec![], &TaskCategory::General, &[], 10);
    assert!(result.is_empty());
}

#[test]
fn rank_order_keeps_ties_in_input_order() {
    let keys = vec![5u64, 9, 5, 9, 1];
    let ids: Vec<String> = ["a", "b", "c", "d", "e"].iter().map(|s| s.to_string()).collect();
    assert_eq!(rank_order(&keys, &ids, 10), vec![1, 3, 0, 2, 4]);
}

#[test]
fn rank_order_drops_repeated_ids_after_the_first() {
    let keys = vec![3u64, 7, 5];
    let ids: Vec<String> = ["x", "y", "x"].iter().map(|s| s.to_string()).collect();
    assert_eq!(rank_order(&keys, &ids, 10), vec![1, 2]);
    assert_eq!(rank_order(&keys, &ids, 1), vec![1]);
    assert_eq!(rank_order(&keys, &ids, 0), Vec::<usize>::new());
}

#[test]
fn signals_reasons_in_scoring_order() {
    let entity = make_entity("e::A", "Engine", EntityKind::Symbol, Some("src/engine.rs"), true);
    let candidate = make_candidate(
        entity,
        vec![RetrievalSource::TaskRoute { priority: 7 }, RetrievalSource::NameMatch, distance(0.5)],
        vec![],
    );
    let tokens = vec!["engine".to_string()];
    let s = candidate_signals(&candidate, &TaskCategory::Understand, &tokens);
    assert_eq!(s.route_priorities, vec![7]);
    assert_eq!(s.vector_distance_bits, vec![0.5f32.to_bits()]);
    assert_eq!(s.reasons_before_vector, vec!["task_route(priority=7)".to_string(), "name_match".to_string()]);
    assert_eq!(
        s.reasons_after_vector,
        vec!["kind_preferred".to_string(), "exported".to_string(), "path_contains_term".to_string()]
    );
}
