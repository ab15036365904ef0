use chizu::diagram::{default_diagram_kinds, edges_into, kind_label_of, select_diagram_entities, DiagramWalk};
use chizu::model::edge::{Edge, EdgeKind};
use chizu::model::entity::{Entity, EntityKind};

fn entity(id: &str, kind: EntityKind) -> Entity {
    Entity {
        id: id.to_string(),
        kind,
        name: id.to_string(),
        component_id: None,
        path: None,
        language: None,
        line_start: None,
        line_end: None,
        visibility: None,
        exported: false,
    }
}

fn edge(src: &str, dst: &str) -> Edge {
    Edge {
        src_id: src.to_string(),
        rel: EdgeKind::Contains,
        dst_id: dst.to_string(),
        provenance_path: None,
        provenance_line: None,
    }
}

fn strings(v: &[&str]) -> Vec<String> {
    v.iter().map(|s| s.to_string()).collect()
}

#[test]
fn kind_labels_are_lowercased_variant_names() {
    assert_eq!(kind_label_of(&EntityKind::SourceUnit), "sourceunit");
    assert_eq!(kind_label_of(&EntityKind::InfraRoot), "infraroot");
    assert_eq!(kind_label_of(&EntityKind::Repo), "repo");
    assert_eq!(default_diagram_kinds(), strings(&["repo", "directory", "component", "sourceunit"]));
}

#[test]
fn default_selection_shows_repo_directories_components_and_source_units() {
    let entities = vec![
        entity("repo::.", EntityKind::Repo),
        entity("symbol::a", EntityKind::Symbol),
        entity("dir::src", EntityKind::Directory),
        entity("source_unit::a.rs", EntityKind::SourceUnit),
        entity("component::cargo::.", EntityKind::Component),
    ];
    assert_eq!(select_diagram_entities(&entities, &vec![], &vec![], 100), vec![0, 2, 3, 4]);
}

#[test]
fn selection_by_kind_ignores_case_and_honours_exclusions_and_limit() {
    let entities = vec![
        entity("a", EntityKind::Symbol),
        entity("b", EntityKind::Test),
        entity("c", EntityKind::Symbol),
        entity("d", EntityKind::Doc),
        entity("e", EntityKind::Symbol),
    ];
    let kinds = strings(&["SYMBOL", "Test"]);
    assert_eq!(select_diagram_entities(&entities, &kinds, &vec![], 100), vec![0, 1, 2, 4]);
    assert_eq!(select_diagram_entities(&entities, &kinds, &strings(&["test"]), 100), vec![0, 2, 4]);
    assert_eq!(select_diagram_entities(&entities, &kinds, &vec![], 2), vec![0, 1]);
}

#[test]
fn edges_into_keeps_edges_ending_at_shown_ids() {
    let ids = strings(&["a", "b"]);
    let edges = vec![edge("a", "b"), edge("a", "x"), edge("b", "a")];
    assert_eq!(edges_into(&ids, &edges), vec![0, 2]);
}

/// Runs the walk over an in-memory graph the way the command does.
fn walk(root: &str, depth: usize, max_nodes: usize, entities: &[&str], edges: &[(&str, &str)]) -> (Vec<String>, Vec<(String, String)>) {
    let mut w = DiagramWalk::new(root);
    let mut found = Vec::new();
    let mut taken = Vec::new();
    while let Some((id, d)) = w.next(depth) {
        let exists = entities.contains(&id.as_str());
        let outgoing: Vec<(&str, &str)> = if exists { edges.iter().copied().filter(|e| e.0 == id).collect() } else { vec![] };
        let incoming: Vec<(&str, &str)> = if exists { edges.iter().copied().filter(|e| e.1 == id).collect() } else { vec![] };
        let targets: Vec<String> = outgoing.iter().map(|e| e.1.to_string()).collect();
        let sources: Vec<String> = incoming.iter().map(|e| e.0.to_string()).collect();
        let (recorded, o, i) = w.visit(d, exists, &targets, &sources, max_nodes);
        if recorded {
            found.push(id.clone());
        }
        for k in o {
            taken.push((outgoing[k].0.to_string(), outgoing[k].1.to_string()));
        }
        for k in i {
            taken.push((incoming[k].0.to_string(), incoming[k].1.to_string()));
        }
    }
    (found, taken)
}

#[test]
fn walk_visits_breadth_first_in_both_directions() {
    let entities = ["r", "a", "b", "c", "p"];
    let edges = [("r", "a"), ("r", "b"), ("a", "c"), ("p", "r")];
    let (found, taken) = walk("r", 2, 100, &entities, &edges);
    assert_eq!(found, strings(&["r", "a", "b", "p", "c"]));
    assert_eq!(taken.len(), 4);
    assert_eq!(taken[2], ("p".to_string(), "r".to_string()));
}

#[test]
fn walk_stops_at_the_depth() {
    let entities = ["r", "a", "c"];
    let edges = [("r", "a"), ("a", "c")];
    let (found, _) = walk("r", 0, 100, &entities, &edges);
    assert_eq!(found, strings(&["r"]));
    let (found, _) = walk("r", 1, 100, &entities, &edges);
    assert_eq!(found, strings(&["r", "a"]));
}

#[test]
fn walk_never_finds_more_than_max_nodes_entities() {
    let entities = ["r", "a", "b", "c"];
    let edges = [("r", "a"), ("r", "b"), ("r", "c")];
    let (found, taken) = walk("r", 5, 1, &entities, &edges);
    assert_eq!(found, strings(&["r"]));
    assert!(taken.is_empty());
    let (found, taken) = walk("r", 5, 2, &entities, &edges);
    assert_eq!(found, strings(&["r", "a"]));
    assert_eq!(taken.len(), 3);
    let (found, _) = walk("r", 5, 10, &entities, &edges);
    assert_eq!(found, strings(&["r", "a", "b", "c"]));
}

#[test]
fn walk_counts_found_entities_not_queued_ids() {
    let entities = ["r", "y"];
    let edges = [("r", "x"), ("r", "y")];
    let (found, taken) = walk("r", 5, 2, &entities, &edges);
    assert_eq!(found, strings(&["r", "y"]));
    assert_eq!(taken.len(), 2);
}

#[test]
fn walk_skips_missing_entities() {
    let entities = ["a"];
    let (found, taken) = walk("missing", 3, 10, &entities, &[("missing", "a")]);
    assert!(found.is_empty());
    assert!(taken.is_empty());
}
