use chizu::model::edge::EdgeKind;
use chizu::model::entity::{Entity, EntityKind};
use chizu::model::records::FileRecord;
use chizu::registry::{ComponentRegistry, ComponentRoot};
use chizu::walk::{
    classify_file, contains_edge, deleted_files, directory_entity, directory_component, doc_title, entities_at_path, find_symbol_by_name,
    infra_root_current, infra_root_name, needs_reindex, orphaned_components, package_dependency_edges,
    relative_dir, should_skip_dir, skip_walk_dir, workspace_edges, FileKind,
};

fn root(eco: &str, path: &str, name: &str) -> ComponentRoot {
    ComponentRoot {
        id: format!("component::{eco}::{path}"),
        ecosystem: eco.to_string(),
        root_path: path.to_string(),
        display_name: name.to_string(),
        workspace_globs: None,
    }
}

fn entity(id: &str, kind: EntityKind, name: &str, path: Option<&str>) -> Entity {
    Entity {
        id: id.to_string(),
        kind,
        name: name.to_string(),
        component_id: None,
        path: path.map(|p| p.to_string()),
        language: None,
        line_start: None,
        line_end: None,
        visibility: None,
        exported: false,
    }
}

#[test]
fn skipped_directories() {
    assert!(should_skip_dir(".git"));
    assert!(should_skip_dir("node_modules"));
    assert!(!should_skip_dir("src"));
    assert!(!should_skip_dir("out"));
    assert!(skip_walk_dir(".hidden"));
    assert!(skip_walk_dir("out"));
    assert!(!skip_walk_dir("venv"));
}

#[test]
fn file_kinds() {
    assert_eq!(classify_file("package.json"), FileKind::PackageJson);
    assert_eq!(classify_file("lib.rs"), FileKind::Rust);
    assert_eq!(classify_file("app.tsx"), FileKind::TypeScript);
    assert_eq!(classify_file("Card.astro"), FileKind::Astro);
    assert_eq!(classify_file("README.md"), FileKind::Markdown);
    assert_eq!(classify_file("main.tf"), FileKind::Terraform);
    assert_eq!(classify_file("api.Dockerfile"), FileKind::Containerized);
    assert_eq!(classify_file("docker-compose.yaml"), FileKind::Containerized);
    assert_eq!(classify_file("docker-compose.json"), FileKind::Unsupported);
    assert_eq!(classify_file("Dockerfile.rs"), FileKind::Rust);
    assert_eq!(FileKind::Terraform.language(), Some("hcl"));
    assert_eq!(FileKind::Markdown.language(), None);
}

#[test]
fn reindex_decisions() {
    let rec = FileRecord {
        path: "a.rs".to_string(),
        component_id: Some("c".to_string()),
        kind: "rust".to_string(),
        hash: "blake3:1".to_string(),
        indexed: true,
        ignore_reason: None,
    };
    assert!(needs_reindex(&None, "blake3:1", &None));
    assert!(!needs_reindex(&Some(rec.clone()), "blake3:1", &Some("c".to_string())));
    assert!(needs_reindex(&Some(rec.clone()), "blake3:2", &Some("c".to_string())));
    assert!(needs_reindex(&Some(rec), "blake3:1", &None));
}

#[test]
fn components_of_directories() {
    let mut reg = ComponentRegistry::new();
    reg.insert(root("cargo", "crates/a", "a"));
    assert_eq!(
        directory_component(&reg, "crates/a", true, &Some("component::cargo::.".to_string())),
        Some("component::cargo::crates/a".to_string())
    );
    assert_eq!(
        directory_component(&reg, "crates/a", false, &Some("component::cargo::.".to_string())),
        Some("component::cargo::.".to_string())
    );
    assert_eq!(directory_component(&reg, "crates/b", true, &None), None);
    assert_eq!(relative_dir(""), ".");
    assert_eq!(relative_dir("src"), "src");
}

#[test]
fn package_dependencies_resolve_local_names() {
    let mut reg = ComponentRegistry::new();
    reg.insert(root("npm", "packages/a", "pkg-a"));
    reg.insert(root("cargo", "crates/x", "express"));
    let deps = vec!["pkg-a".to_string(), "express".to_string()];
    let edges = package_dependency_edges(&reg, &Some("component::npm::.".to_string()), &deps, "package.json");
    assert_eq!(edges.len(), 2);
    assert_eq!(edges[0].dst_id, "component::npm::packages/a");
    assert_eq!(edges[1].dst_id, "external::npm::express");
    assert_eq!(edges[0].rel, EdgeKind::DependsOn);
    assert!(package_dependency_edges(&reg, &None, &deps, "package.json").is_empty());
    let ws = workspace_edges(
        &reg,
        &Some("component::npm::.".to_string()),
        &vec!["packages/a".to_string(), "packages/none".to_string()],
        "package.json",
    );
    assert_eq!(ws.len(), 1);
    assert_eq!(ws[0].rel, EdgeKind::Contains);
    assert_eq!(ws[0].dst_id, "component::npm::packages/a");
}

#[test]
fn leftovers() {
    let es = vec![
        entity("file::a.rs", EntityKind::SourceUnit, "a.rs", Some("a.rs")),
        entity("symbol::a.rs::f", EntityKind::Symbol, "f", Some("a.rs")),
        entity("component::npm::gone", EntityKind::Component, "gone", Some("gone")),
        entity("component::cargo::crates/a", EntityKind::Component, "a", Some("crates/a")),
        entity("symbol::b.rs::f", EntityKind::Symbol, "f", Some("b.rs")),
    ];
    assert_eq!(entities_at_path(&es, "a.rs"), vec!["file::a.rs".to_string(), "symbol::a.rs::f".to_string()]);
    let mut reg = ComponentRegistry::new();
    reg.insert(root("cargo", "crates/a", "a"));
    assert_eq!(orphaned_components(&es, &reg), vec!["component::npm::gone".to_string()]);
    assert_eq!(find_symbol_by_name(&es, "f"), Some("symbol::a.rs::f".to_string()));
    assert_eq!(find_symbol_by_name(&es, "a.rs"), None);
    let rec = |p: &str| FileRecord {
        path: p.to_string(),
        component_id: None,
        kind: "rust".to_string(),
        hash: String::new(),
        indexed: true,
        ignore_reason: None,
    };
    assert_eq!(deleted_files(&vec![rec("a.rs"), rec("b.rs")], &vec!["a.rs".to_string()]), vec!["b.rs".to_string()]);
}

#[test]
fn titles_and_infra_names() {
    assert_eq!(doc_title("---\ntitle: Guide\n---\n", &Some("guide.md".to_string())), "Guide");
    assert_eq!(doc_title("plain", &Some("notes.md".to_string())), "notes");
    assert_eq!(doc_title("plain", &None), "untitled");
    assert_eq!(infra_root_name(""), "root");
    assert_eq!(infra_root_name("infra/prod"), "infra/prod");
    let mut e = entity("infra::x", EntityKind::InfraRoot, "x", Some("x"));
    e.component_id = Some("c".to_string());
    assert!(infra_root_current(&Some(e.clone()), &Some("c".to_string())));
    assert!(!infra_root_current(&Some(e), &None));
    assert!(!infra_root_current(&None, &None));
}

#[test]
fn directories_are_entities_contained_by_their_parent() {
    let d = directory_entity("crates/core", "core");
    assert_eq!(d.id, "dir::crates/core");
    assert_eq!(d.kind, EntityKind::Directory);
    assert_eq!(d.name, "core");
    assert_eq!(d.path, Some("crates/core".to_string()));
    assert_eq!(d.component_id, None);
    assert!(!d.exported);
    let e = contains_edge("dir::crates", "dir::crates/core", "crates/core");
    assert_eq!(e.src_id, "dir::crates");
    assert_eq!(e.rel, EdgeKind::Contains);
    assert_eq!(e.dst_id, "dir::crates/core");
    assert_eq!(e.provenance_path, Some("crates/core".to_string()));
    assert_eq!(e.provenance_line, None);
}
