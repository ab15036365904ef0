use chizu::registry::{ComponentRegistry, ComponentRoot};

fn root(eco: &str, path: &str, name: &str) -> ComponentRoot {
    ComponentRoot {
        id: format!("component::{eco}::{path}"),
        ecosystem: eco.to_string(),
        root_path: path.to_string(),
        display_name: name.to_string(),
        workspace_globs: None,
    }
}

#[test]
fn find_for_file_picks_nearest_enclosing_root() {
    let mut reg = ComponentRegistry::new();
    reg.insert(root("cargo", ".", "root"));
    reg.insert(root("cargo", "crates/core", "core"));
    reg.insert(root("npm", "web", "web"));
    assert_eq!(reg.find_for_file("crates/core/src/lib.rs").unwrap().display_name, "core");
    assert_eq!(reg.find_for_file("web/index.ts").unwrap().display_name, "web");
    assert_eq!(reg.find_for_file("src/main.rs").unwrap().display_name, "root");
    assert!(reg.find_for_file("component::cargo::x").is_none());
    assert_eq!(reg.len(), 3);
}

#[test]
fn resolve_name_is_scoped_by_ecosystem() {
    let mut reg = ComponentRegistry::new();
    reg.insert(root("npm", "packages/utils", "utils"));
    reg.insert(root("cargo", "crates/utils", "utils"));
    assert_eq!(reg.resolve_name("utils", "npm"), Some(&"component::npm::packages/utils".to_string()));
    assert_eq!(reg.resolve_name("utils", "cargo"), Some(&"component::cargo::crates/utils".to_string()));
    assert_eq!(reg.resolve_name("utils", "pip"), None);
}

#[test]
fn insert_replaces_same_path_and_keeps_ids_sorted() {
    let mut reg = ComponentRegistry::new();
    reg.insert(root("npm", "b", "b"));
    reg.insert(root("npm", "a", "a"));
    reg.insert(root("cargo", "b", "b2"));
    let ids: Vec<String> = reg.all_ids().into_iter().cloned().collect();
    assert_eq!(ids, vec!["component::npm::a".to_string(), "component::cargo::b".to_string()]);
    assert_eq!(reg.get_by_path("b").unwrap().display_name, "b2");
    assert!(reg.get_by_path("c").is_none());
    // the display alias of the replaced root stays
    assert_eq!(reg.resolve_name("b", "npm"), Some(&"component::npm::b".to_string()));
}

#[test]
fn a_root_only_encloses_files_inside_its_directory() {
    let mut reg = ComponentRegistry::new();
    reg.insert(root("cargo", "crates/a", "a"));
    assert!(reg.find_for_file("crates/ab/x.rs").is_none());
    assert_eq!(reg.find_for_file("crates/a/x.rs").unwrap().display_name, "a");
    reg.insert(root("cargo", ".", "root"));
    assert_eq!(reg.find_for_file("crates/ab/x.rs").unwrap().display_name, "root");
}

#[test]
fn the_repository_root_is_taken_only_when_no_other_root_encloses_the_file() {
    let mut reg = ComponentRegistry::new();
    reg.insert(root("cargo", ".", "root"));
    reg.insert(root("cargo", "-foo", "foo"));
    reg.insert(root("cargo", "-foo/bar", "bar"));
    assert_eq!(reg.find_for_file("-foo/x.rs").unwrap().display_name, "foo");
    assert_eq!(reg.find_for_file("-foo/bar/y.rs").unwrap().display_name, "bar");
    assert_eq!(reg.find_for_file("src/z.rs").unwrap().display_name, "root");
}
