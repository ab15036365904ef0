use chizu::plan::{render_plan, PlanLine};

struct Plan {
    query: String,
    category: String,
    items: Vec<PlanLine>,
    candidates_considered: usize,
    used_vector_search: bool,
}

impl Plan {
    fn display(&self) -> String {
        render_plan(&self.query, &self.category, self.candidates_considered, self.used_vector_search, &self.items)
    }
}

fn make_item(
    name: &str,
    kind: &str,
    path: Option<&str>,
    line_start: Option<i64>,
    score: f64,
    is_context: bool,
    context_via: Option<&str>,
) -> PlanLine {
    PlanLine {
        name: name.to_string(),
        kind: kind.to_string(),
        path: path.map(String::from),
        line_start,
        short_summary: format!("Summary of {name}"),
        score_text: format!("{:.3}", score),
        reasons: vec!["name_match".to_string(), "exported".to_string()],
        is_context,
        context_via: context_via.map(String::from),
    }
}

fn make_plan() -> Plan {
    Plan {
        query: "how does auth work".to_string(),
        category: "understand".to_string(),
        items: vec![
            make_item("AuthService", "symbol", Some("src/auth.rs"), Some(10), 0.85, false, None),
            make_item("Token", "symbol", Some("src/token.rs"), Some(5), 0.60, false, None),
            make_item("Config", "symbol", Some("src/config.rs"), None, 0.30, true, Some("entity::AuthService")),
        ],
        candidates_considered: 42,
        used_vector_search: true,
    }
}

#[test]
fn display_contains_query() {
    let out = make_plan().display();
    assert!(out.contains("how does auth work"));
}

#[test]
fn display_contains_category() {
    let out = make_plan().display();
    assert!(out.contains("Category: understand"));
}

#[test]
fn display_contains_candidates_count() {
    let out = make_plan().display();
    assert!(out.contains("Candidates considered: 42"));
}

#[test]
fn display_vector_search_yes() {
    let out = make_plan().display();
    assert!(out.contains("Vector search: yes"));
}

#[test]
fn display_vector_search_no() {
    let mut plan = make_plan();
    plan.used_vector_search = false;
    let out = plan.display();
    assert!(out.contains("Vector search: no"));
}

#[test]
fn display_contains_results_count() {
    let out = make_plan().display();
    assert!(out.contains("Results: 3"));
}

#[test]
fn display_numbered_items_have_rank() {
    let out = make_plan().display();
    assert!(out.contains("1. [symbol] AuthService"));
    assert!(out.contains("2. [symbol] Token"));
}

#[test]
fn display_context_items_marked_ctx() {
    let out = make_plan().display();
    assert!(out.contains("ctx. [symbol] Config"));
}

#[test]
fn display_shows_location_with_line() {
    let out = make_plan().display();
    assert!(out.contains("src/auth.rs:10"));
}

#[test]
fn display_shows_location_without_line() {
    let out = make_plan().display();
    assert!(out.contains("src/config.rs"));
}

#[test]
fn display_shows_summary() {
    let out = make_plan().display();
    assert!(out.contains("Summary of AuthService"));
}

#[test]
fn display_shows_reasons() {
    let out = make_plan().display();
    assert!(out.contains("reasons: name_match, exported"));
}

#[test]
fn display_shows_context_via() {
    let out = make_plan().display();
    assert!(out.contains("context via: entity::AuthService"));
}

#[test]
fn display_shows_score() {
    let out = make_plan().display();
    assert!(out.contains("score: 0.850"));
}

#[test]
fn display_empty_plan() {
    let plan = Plan {
        query: "nothing".to_string(),
        category: "general".to_string(),
        items: vec![],
        candidates_considered: 0,
        used_vector_search: false,
    };
    let out = plan.display();
    assert!(out.contains("Results: 0"));
    assert!(!out.contains("1."));
}

#[test]
fn display_item_no_path_no_location_line() {
    let item = PlanLine {
        name: "X".to_string(),
        kind: "symbol".to_string(),
        path: None,
        line_start: None,
        short_summary: String::new(),
        score_text: format!("{:.3}", 0.1),
        reasons: vec![],
        is_context: false,
        context_via: None,
    };
    let plan = Plan {
        query: "q".to_string(),
        category: "general".to_string(),
        items: vec![item],
        candidates_considered: 1,
        used_vector_search: false,
    };
    let out = plan.display();
    assert!(out.contains("[symbol] X"));
}

#[test]
fn display_item_empty_summary_not_shown() {
    let item = PlanLine {
        name: "Y".to_string(),
        kind: "component".to_string(),
        path: Some("lib.rs".to_string()),
        line_start: None,
        short_summary: String::new(),
        score_text: format!("{:.3}", 0.5),
        reasons: vec!["exported".to_string()],
        is_context: false,
        context_via: None,
    };
    let plan = Plan {
        query: "q".to_string(),
        category: "general".to_string(),
        items: vec![item],
        candidates_considered: 1,
        used_vector_search: false,
    };
    let out = plan.display();
    let lines: Vec<&str> = out.lines().collect();
    let lib_line = lines.iter().position(|l| l.contains("lib.rs")).unwrap();
    assert!(lines[lib_line + 1].contains("reasons:"));
}

#[test]
fn display_full_text_of_one_item() {
    let plan = Plan {
        query: "q".to_string(),
        category: "debug".to_string(),
        items: vec![make_item("A", "symbol", Some("a.rs"), Some(3), 0.25, false, None)],
        candidates_considered: 7,
        used_vector_search: false,
    };
    assert_eq!(
        plan.display(),
        "Reading plan for: \"q\"\nCategory: debug\nCandidates considered: 7 | Vector search: no\nResults: 1\n\n   1. [symbol] A (score: 0.250)\n      a.rs:3\n      Summary of A\n      reasons: name_match, exported\n\n"
    );
}
