use chizu::manifest::{cargo_manifest_root, discover_component_roots, npm_component_root, parse_mise};

#[test]
fn parse_basic_mise_toml() {
    let content = r#"
[tasks]
build = "cargo build"
test = "cargo test"

[tasks.lint]
run = "cargo clippy"
"#;
    let config = parse_mise(content).unwrap();
    let names: Vec<_> = config.tasks.iter().map(|t| t.name.as_str()).collect();
    assert!(names.contains(&"build"));
    assert!(names.contains(&"test"));
    assert!(names.contains(&"lint"));
}

#[test]
fn parse_hidden_mise_toml() {
    let content = "[tasks]\nfmt = \"cargo fmt\"\n";
    let config = parse_mise(content).unwrap();
    let names: Vec<_> = config.tasks.iter().map(|t| t.name.as_str()).collect();
    assert!(names.contains(&"fmt"));
}

#[test]
fn nested_task_groups_are_prefixed() {
    let content = "[tasks.db]\nmigrate = \"x\"\n[tasks.db.seed]\ncmd = \"y\"\n[tasks.other]\nfoo = 1\n";
    let config = parse_mise(content).unwrap();
    let names: Vec<_> = config.tasks.iter().map(|t| t.name.clone()).collect();
    assert_eq!(names, vec!["db:migrate".to_string(), "db:seed".to_string()]);
}

#[test]
fn invalid_mise_toml_is_an_error() {
    let err = parse_mise("[tasks\n").unwrap_err();
    assert!(err.starts_with("mise.toml: "));
    assert!(parse_mise("name = 1\n").unwrap().tasks.is_empty());
}

#[test]
fn cargo_manifests_name_components() {
    let r = cargo_manifest_root("[package]\nname = \"crate-a\"\n", "crates/crate-a").unwrap();
    assert_eq!(r.id, "component::cargo::crates/crate-a");
    assert_eq!(r.display_name, "crate-a");
    assert_eq!(r.ecosystem, "cargo");
    assert_eq!(r.workspace_globs, None);
    let r = cargo_manifest_root("[workspace]\nmembers = [\"crates/*\", 3]\n", ".").unwrap();
    assert_eq!(r.display_name, "unknown");
    assert_eq!(r.workspace_globs, Some(vec!["crates/*".to_string()]));
    assert!(cargo_manifest_root("not toml [", ".").is_none());
}

#[test]
fn discovered_roots_come_from_the_manifests_that_parse() {
    let manifests = vec![
        (".".to_string(), "[workspace]\nmembers = [\"crates/*\"]\n".to_string()),
        ("crates/a".to_string(), "[package]\nname = \"a\"\n".to_string()),
        ("crates/b".to_string(), "this is [ not toml".to_string()),
    ];
    let reg = discover_component_roots(&manifests);
    assert_eq!(reg.len(), 2);
    assert_eq!(reg.get_by_path(".").unwrap().id, "component::cargo::.");
    assert_eq!(reg.get_by_path("crates/a").unwrap().display_name, "a");
    assert!(reg.get_by_path("crates/b").is_none());
    assert_eq!(reg.resolve_name("a", "cargo"), Some(&"component::cargo::crates/a".to_string()));
    assert_eq!(reg.resolve_name("a", "npm"), None);
    assert_eq!(reg.find_for_file("crates/a/src/lib.rs").unwrap().id, "component::cargo::crates/a");
}

#[test]
fn npm_root_is_named_by_its_package_and_keeps_its_workspaces() {
    let globs = Some(vec!["packages/*".to_string(), "apps/*".to_string()]);
    let r = npm_component_root("web", "web", &Some("@acme/web".to_string()), &globs);
    assert_eq!(r.id, "component::npm::web");
    assert_eq!(r.ecosystem, "npm");
    assert_eq!(r.root_path, "web");
    assert_eq!(r.display_name, "@acme/web");
    assert_eq!(r.workspace_globs, globs);
}

#[test]
fn npm_root_without_a_name_takes_the_directory_name() {
    let r = npm_component_root("tools/cli", "cli", &None, &None);
    assert_eq!(r.id, "component::npm::tools/cli");
    assert_eq!(r.display_name, "cli");
    assert_eq!(r.workspace_globs, None);
}
