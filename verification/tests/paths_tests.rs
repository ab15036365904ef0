use chizu::paths::{normalize_path, resolve_ts_import, ts_import_candidates};

#[test]
fn normalize_path_handles_parent() {
    assert_eq!(normalize_path("src/sub/../utils.ts"), Some("src/utils.ts".to_string()));
}

#[test]
fn normalize_path_handles_current_dir() {
    assert_eq!(normalize_path("src/./utils.ts"), Some("src/utils.ts".to_string()));
}

#[test]
fn normalize_path_detects_traversal_outside_root() {
    assert_eq!(normalize_path("src/../../foo"), None);
}

#[test]
fn normalize_path_detects_deep_traversal() {
    assert_eq!(normalize_path("a/b/c/../../../../../../foo"), None);
}

#[test]
fn normalize_path_keeps_root_and_drops_empty_parts() {
    assert_eq!(normalize_path("/a//b/./c/"), Some("/a/b/c".to_string()));
    assert_eq!(normalize_path("./a"), Some("a".to_string()));
    assert_eq!(normalize_path("a/.."), Some("".to_string()));
    assert_eq!(normalize_path(".."), None);
}

#[test]
fn ts_import_outside_root_is_rejected() {
    let importing_file = "src/a/b/c/main.ts";
    let import_path = "../../../../../../foo";
    let result = resolve_ts_import(import_path, importing_file, &vec![]);
    assert!(result.is_none(), "Import outside repo root should be rejected");
}

#[test]
fn resolve_ts_import_skips_bare_imports() {
    let files = vec!["react".to_string(), "src/react.ts".to_string()];
    assert_eq!(resolve_ts_import("react", "src/app.ts", &files), None);
    assert_eq!(resolve_ts_import("@scope/pkg", "src/app.ts", &files), None);
}

#[test]
fn resolve_ts_import_probe_order() {
    let files = vec!["src/utils.tsx".to_string(), "src/utils.ts".to_string()];
    assert_eq!(resolve_ts_import("./utils", "src/app.ts", &files), Some("src/utils.ts".to_string()));
    let files = vec!["src/components/index.ts".to_string()];
    assert_eq!(resolve_ts_import("./components", "src/app.ts", &files), Some("src/components/index.ts".to_string()));
    let files = vec!["lib/shared.ts".to_string()];
    assert_eq!(resolve_ts_import("../lib/shared", "src/app.ts", &files), Some("lib/shared.ts".to_string()));
    let files = vec!["src/data.js".to_string()];
    assert_eq!(resolve_ts_import("./data.js", "src/app.ts", &files), Some("src/data.js".to_string()));
    assert_eq!(resolve_ts_import("./nonexistent", "src/app.ts", &files), None);
}

#[test]
fn ts_import_candidates_in_probe_order() {
    let c = ts_import_candidates("./utils", "src/app.ts").unwrap();
    assert_eq!(
        c,
        vec![
            "src/utils", "src/utils.ts", "src/utils.tsx", "src/utils.js", "src/utils.jsx",
            "src/utils/index.ts", "src/utils/index.tsx",
        ]
    );
    assert_eq!(ts_import_candidates("zod", "src/app.ts"), None);
}

#[test]
fn normalizing_twice_changes_nothing() {
    for p in ["a/./b/../c", "/x/../y/./z/", "./a//b", "/..", "a/b/.."] {
        let once = normalize_path(p).unwrap();
        assert_eq!(normalize_path(&once), Some(once.clone()));
    }
    assert_eq!(normalize_path("/x/../y/./z/"), Some("/y/z".to_string()));
    assert_eq!(normalize_path("/.."), Some(String::new()));
}
