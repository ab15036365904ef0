use chizu::config::{
    default_api_key, default_base_url, default_embedding_api_key, default_embedding_base_url,
    default_embedding_batch_size, default_embedding_dimensions, default_embedding_enabled,
    default_embedding_model, default_embedding_provider, default_embedding_timeout, default_exclude_patterns,
    default_max_tokens, default_model, default_parallel_workers, default_query_limit, default_retry_attempts,
    default_timeout, EmbeddingConfig, IndexConfig,
};
use chizu::model::edge::EdgeKind;
use chizu::model::entity::EntityKind;
use chizu::stats::IndexStats;
use chizu::store_config;
use chizu::style::{LineType, ScandinavianTheme};
use chizu::summarize::{entities_of_kind, summary_is_current, SummarizeStats};
use chizu::model::records::Summary;
use chizu::visualize::{edges_to_draw, LayoutType, VizEdge, VizNode};

#[test]
fn theme_styles() {
    let theme = ScandinavianTheme::default();
    assert_eq!(theme.canvas, "#fafafa");
    let s = theme.entity_style(&EntityKind::Symbol);
    assert_eq!(s.border, "#94a3b8");
    assert_eq!(s.text, theme.text_primary);
    let s = theme.entity_style(&EntityKind::Test);
    assert_eq!((s.border.as_str(), s.fill.as_str(), s.text.as_str()), ("#22c55e", "#f0fdf4", "#166534"));
    let e = theme.edge_style(&EdgeKind::Deploys);
    assert_eq!(e.color, "#a855f7");
    assert_eq!(e.width_tenths, 15);
    assert_eq!(e.line_type, LineType::Solid);
    assert_eq!(theme.edge_style(&EdgeKind::Mentions).line_type, LineType::Dotted);
}

#[test]
fn config_defaults() {
    assert_eq!(default_exclude_patterns().len(), 5);
    assert_eq!(default_parallel_workers(), 4);
    assert_eq!(default_query_limit(), 15);
    assert_eq!(default_base_url(), "http://localhost:11434/v1");
    assert_eq!(default_api_key(), "");
    assert_eq!(default_model(), "gpt-4o-mini");
    assert_eq!(default_timeout(), 60);
    assert_eq!(default_retry_attempts(), 3);
    assert_eq!(default_max_tokens(), 512);
    assert!(!default_embedding_enabled());
    assert_eq!(default_embedding_provider(), "ollama");
    assert_eq!(default_embedding_base_url(), "http://localhost:11434/v1");
    assert_eq!(default_embedding_model(), "nomic-embed-text");
    assert_eq!(default_embedding_dimensions(), 768);
    assert_eq!(default_embedding_batch_size(), 32);
    assert_eq!(default_embedding_timeout(), 120);
    assert_eq!(default_embedding_api_key(), "");
    let ic = IndexConfig::default();
    assert_eq!(ic.parallel_workers, 4);
    assert_eq!(ic.exclude_patterns[4], "**/*.db.usearch");
    let ec = EmbeddingConfig::default();
    assert_eq!(ec.dimensions, 768);
    let sc = store_config::IndexConfig::default();
    assert_eq!(sc.exclude_patterns.len(), 6);
    assert_eq!(sc.parallel_workers, None);
    let providers = store_config::default_providers();
    assert_eq!(providers.len(), 1);
    assert_eq!(providers[0].0, "ollama");
    assert_eq!(providers[0].1.timeout_secs, 120);
    assert_eq!(store_config::EmbeddingConfig::default().model, Some("nomic-embed-text-v2-moe:latest".to_string()));
}

#[test]
fn stats_reports() {
    let mut s = IndexStats::new();
    s.crates_found = 2;
    s.edges_created = 17;
    let text = s.to_string();
    assert!(text.starts_with("crates:        2\nfiles:         0\n"));
    assert!(text.ends_with("routes:        0\nedges:         17"));
    assert_eq!(text.lines().count(), 22);
    let mut t = SummarizeStats::new();
    t.source_units_summarized = 3;
    t.errors = 1;
    assert_eq!(t.to_string(), "source_units: 3 summarized, 0 skipped\ncomponents: 0 summarized\nerrors: 1");
}

#[test]
fn summary_staleness() {
    let s = Summary {
        entity_id: "file::a".to_string(),
        short_summary: "x".to_string(),
        detailed_summary: None,
        keywords: vec![],
        updated_at: "2026-01-01T00:00:00Z".to_string(),
        source_hash: Some("h".to_string()),
    };
    assert!(summary_is_current(false, &Some(s.clone()), &Some("h".to_string())));
    assert!(!summary_is_current(true, &Some(s.clone()), &Some("h".to_string())));
    assert!(!summary_is_current(false, &Some(s), &None));
    assert!(!summary_is_current(false, &None, &Some("h".to_string())));
}

#[test]
fn layouts_and_drawn_edges() {
    assert_eq!(LayoutType::parse("Radial"), Ok(LayoutType::Radial));
    assert_eq!("force".parse::<LayoutType>(), Ok(LayoutType::ForceDirected));
    assert_eq!(LayoutType::parse("grid"), Err("Unknown layout type: grid".to_string()));
    let node = |id: &str| VizNode { id: id.to_string(), name: id.to_string(), kind: EntityKind::Symbol, component: None };
    let edge = |a: &str, b: &str| VizEdge { source: a.to_string(), target: b.to_string(), kind: EdgeKind::Defines };
    let nodes = vec![node("a"), node("b")];
    let edges = vec![edge("a", "b"), edge("a", "c"), edge("b", "a")];
    assert_eq!(edges_to_draw(&nodes, &edges), vec![0, 2]);
    let _ = entities_of_kind(&vec![], EntityKind::Component);
}
