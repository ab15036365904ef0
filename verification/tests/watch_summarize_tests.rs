use chizu::model::edge::{Edge, EdgeKind};
use chizu::model::records::Summary;
use chizu::summarize::{
    backoff_secs, chat_step, edge_targets, summarize_step, work_fits, ChatStep, SummarizeAction, SummarizeEvent,
    SummarizePhase, SummarizeState, SummarizeWork, BASE_BACKOFF_SECS, MAX_RETRIES,
};
use chizu::watch::{event_triggers_reindex, is_relevant_change, watch_step, WatchAction, WatchEvent, WatchPhase};

#[test]
fn relevant_changes_are_sources_manifests_and_docs() {
    assert!(is_relevant_change("src/main.rs"));
    assert!(is_relevant_change("Cargo.toml"));
    assert!(is_relevant_change("docs/guide.md"));
    assert!(is_relevant_change("infra/main.tf"));
    assert!(is_relevant_change("site/src/pages/index.astro"));
    assert!(is_relevant_change("deploy/Dockerfile"));
    assert!(is_relevant_change("deploy/api.Dockerfile"));
    assert!(is_relevant_change(".github/workflows/ci.yml"));
}

#[test]
fn ignored_changes_are_build_outputs_vcs_deps_and_databases() {
    assert!(!is_relevant_change("target/debug/build.rs"));
    assert!(!is_relevant_change("web/node_modules/pkg/index.md"));
    assert!(!is_relevant_change(".git/config.toml"));
    assert!(!is_relevant_change(".chizu/graph.db"));
    assert!(!is_relevant_change("src/image.png"));
    assert!(!is_relevant_change("README"));
}

#[test]
fn an_event_reindexes_when_one_path_is_relevant() {
    let paths = vec!["target/x.rs".to_string(), "notes.txt".to_string()];
    assert!(!event_triggers_reindex(&paths));
    let paths = vec!["notes.txt".to_string(), "src/lib.rs".to_string()];
    assert!(event_triggers_reindex(&paths));
    assert!(!event_triggers_reindex(&Vec::new()));
}

#[test]
fn chat_succeeds_on_200() {
    assert_eq!(chat_step(0, 200), ChatStep::Done);
    assert_eq!(chat_step(MAX_RETRIES, 200), ChatStep::Done);
}

#[test]
fn chat_retries_rate_limits_and_server_errors_until_retries_run_out() {
    assert_eq!(chat_step(0, 429), ChatStep::Retry);
    assert_eq!(chat_step(2, 503), ChatStep::Retry);
    assert_eq!(chat_step(MAX_RETRIES, 429), ChatStep::Fail);
    assert_eq!(chat_step(MAX_RETRIES, 500), ChatStep::Fail);
}

#[test]
fn chat_fails_at_once_on_client_errors() {
    assert_eq!(chat_step(0, 400), ChatStep::Fail);
    assert_eq!(chat_step(0, 404), ChatStep::Fail);
}

#[test]
fn a_chat_request_is_sent_at_most_four_times() {
    let mut attempts = 0;
    let mut attempt = 0;
    loop {
        attempts += 1;
        match chat_step(attempt, 500) {
            ChatStep::Retry => attempt += 1,
            _ => break,
        }
    }
    assert_eq!(attempts, MAX_RETRIES + 1);
}

#[test]
fn backoff_grows_linearly() {
    assert_eq!(backoff_secs(0), 0);
    assert_eq!(backoff_secs(1), BASE_BACKOFF_SECS);
    assert_eq!(backoff_secs(3), 3 * BASE_BACKOFF_SECS);
}

fn edge(src: &str, rel: EdgeKind, dst: &str) -> Edge {
    Edge {
        src_id: src.to_string(),
        rel,
        dst_id: dst.to_string(),
        provenance_path: None,
        provenance_line: None,
    }
}

#[test]
fn edge_targets_keeps_the_two_relations_in_order() {
    let edges = vec![
        edge("c", EdgeKind::Contains, "a"),
        edge("c", EdgeKind::DependsOn, "b"),
        edge("c", EdgeKind::Defines, "d"),
        edge("c", EdgeKind::Contains, "e"),
    ];
    assert_eq!(
        edge_targets(&edges, EdgeKind::Contains, EdgeKind::Defines),
        vec!["a".to_string(), "d".to_string(), "e".to_string()]
    );
}

#[test]
fn watch_settles_a_burst_of_changes_into_one_reindex() {
    let relevant = WatchEvent::Changed(vec!["src/lib.rs".to_string()]);
    let noise = WatchEvent::Changed(vec!["target/debug/x.rs".to_string()]);
    assert_eq!(watch_step(WatchPhase::Waiting, &noise), (WatchPhase::Waiting, WatchAction::Wait));
    assert_eq!(watch_step(WatchPhase::Waiting, &relevant), (WatchPhase::Settling, WatchAction::StartSettling));
    assert_eq!(watch_step(WatchPhase::Settling, &noise), (WatchPhase::Settling, WatchAction::KeepSettling));
    assert_eq!(watch_step(WatchPhase::Settling, &relevant), (WatchPhase::Settling, WatchAction::KeepSettling));
    assert_eq!(watch_step(WatchPhase::Settling, &WatchEvent::Settled), (WatchPhase::Waiting, WatchAction::Reindex));
    assert_eq!(watch_step(WatchPhase::Waiting, &WatchEvent::Settled), (WatchPhase::Waiting, WatchAction::Wait));
}

#[test]
fn watch_stops_when_the_watcher_closes() {
    assert_eq!(watch_step(WatchPhase::Waiting, &WatchEvent::Closed).1, WatchAction::Stop);
    assert_eq!(watch_step(WatchPhase::Settling, &WatchEvent::Closed).1, WatchAction::Stop);
}

fn summary_with_hash(hash: &str) -> Summary {
    Summary {
        entity_id: "source_unit::a.rs".to_string(),
        short_summary: "s".to_string(),
        detailed_summary: None,
        keywords: vec![],
        updated_at: "2024-01-01T00:00:00Z".to_string(),
        source_hash: Some(hash.to_string()),
    }
}

#[test]
fn a_summarize_run_visits_units_then_their_component() {
    let work = SummarizeWork { units_with_path: vec![vec![true, false, true], vec![]] };
    assert!(work_fits(&work));
    let s = SummarizeState::new(false);
    let (s, a) = summarize_step(&work, &s, SummarizeEvent::Begin);
    assert_eq!(a, SummarizeAction::CheckUnit { component: 0, unit: 0 });
    let (s, a) = summarize_step(
        &work,
        &s,
        SummarizeEvent::UnitChecked { existing: Some(summary_with_hash("h")), current_hash: Some("h".to_string()) },
    );
    // current: skipped, and the unit without a path is passed over
    assert_eq!(a, SummarizeAction::CheckUnit { component: 0, unit: 2 });
    let (s, a) = summarize_step(&work, &s, SummarizeEvent::UnitChecked { existing: None, current_hash: None });
    assert_eq!(a, SummarizeAction::SummarizeUnit { component: 0, unit: 2 });
    let (s2, a2) = summarize_step(&work, &s, SummarizeEvent::Begin);
    assert_eq!(a2, SummarizeAction::Ignored);
    assert_eq!(s2, s);
    let (s, a) = summarize_step(&work, &s, SummarizeEvent::Finished { ok: true });
    assert_eq!(a, SummarizeAction::SummarizeComponent { component: 0 });
    let (s, a) = summarize_step(&work, &s, SummarizeEvent::Finished { ok: false });
    assert_eq!(a, SummarizeAction::SummarizeComponent { component: 1 });
    let (s, a) = summarize_step(&work, &s, SummarizeEvent::Finished { ok: true });
    assert_eq!(a, SummarizeAction::Done);
    assert_eq!(s.phase, SummarizePhase::Done);
    assert_eq!(s.stats.source_units_skipped, 1);
    assert_eq!(s.stats.source_units_summarized, 1);
    assert_eq!(s.stats.components_summarized, 1);
    assert_eq!(s.stats.errors, 1);
}

#[test]
fn forced_runs_summarize_current_units_again() {
    let work = SummarizeWork { units_with_path: vec![vec![true]] };
    let s = SummarizeState::new(true);
    let (s, _) = summarize_step(&work, &s, SummarizeEvent::Begin);
    let (_, a) = summarize_step(
        &work,
        &s,
        SummarizeEvent::UnitChecked { existing: Some(summary_with_hash("h")), current_hash: Some("h".to_string()) },
    );
    assert_eq!(a, SummarizeAction::SummarizeUnit { component: 0, unit: 0 });
}
