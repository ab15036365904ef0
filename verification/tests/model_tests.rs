use chizu::model::edge::EdgeKind;
use chizu::model::entity::EntityKind;
use chizu::model::id::{component_id, doc_id, source_unit_id, symbol_id, test_id, ComponentId};
use chizu::digest::{entity_id_to_usearch_key, hash_to_i64, content_hash, hex_digest};

#[test]
fn test_component_id_new() {
    let id = ComponentId::new("cargo", "crates/core");
    assert_eq!(id.0, "component::cargo::crates/core");
}

#[test]
fn test_component_id_parse() {
    let id = ComponentId::parse("component::npm::packages/web").unwrap();
    assert_eq!(id.0, "component::npm::packages/web");
    assert!(ComponentId::parse("invalid").is_none());
}

#[test]
fn test_component_id_ecosystem() {
    let id = ComponentId::new("cargo", "crates/core");
    assert_eq!(id.ecosystem(), Some("cargo"));
}

#[test]
fn test_component_id_path() {
    let id = ComponentId::new("cargo", "crates/core");
    assert_eq!(id.path(), Some("crates/core"));
}

#[test]
fn test_component_id_display() {
    let id = ComponentId::new("npm", ".");
    assert_eq!(id.to_string(), "component::npm::.");
}

#[test]
fn test_symbol_id() {
    assert_eq!(symbol_id("src/main.rs", "main"), "symbol::src/main.rs::main");
}

#[test]
fn test_source_unit_id() {
    assert_eq!(source_unit_id("src/lib.rs"), "source_unit::src/lib.rs");
}

#[test]
fn test_component_id_func() {
    assert_eq!(component_id("cargo", "crates/core"), "component::cargo::crates/core");
}

#[test]
fn test_hash_to_i64() {
    let hash = blake3::hash(b"test");
    let key = hash_to_i64(hash.as_bytes());
    assert_ne!(key, 0);
}

#[test]
fn test_entity_id_to_usearch_key() {
    let key1 = entity_id_to_usearch_key("symbol::src/main.rs::main");
    let key2 = entity_id_to_usearch_key("symbol::src/main.rs::main");
    let key3 = entity_id_to_usearch_key("symbol::src/lib.rs::foo");
    assert_eq!(key1, key2);
    assert_ne!(key1, key3);
}

#[test]
fn usearch_key_is_first_eight_hash_bytes_little_endian() {
    let hash = blake3::hash(b"symbol::a::b");
    let b = hash.as_bytes();
    let expected = i64::from_le_bytes([b[0], b[1], b[2], b[3], b[4], b[5], b[6], b[7]]);
    assert_eq!(entity_id_to_usearch_key("symbol::a::b"), expected);
}

#[test]
fn content_hash_is_prefixed_blake3_hex() {
    let expected = format!("blake3:{}", blake3::hash(b"hello").to_hex());
    assert_eq!(content_hash("hello"), expected);
    assert_eq!(hex_digest(b"hello"), blake3::hash(b"hello").to_hex().to_string());
}

#[test]
fn component_id_ecosystem_and_path_of_parsed_text() {
    let id = ComponentId::parse("component::npm::packages/web").unwrap();
    assert_eq!(id.ecosystem(), Some("npm"));
    assert_eq!(id.path(), Some("packages/web"));
    let bare = ComponentId("component::cargo".to_string());
    assert_eq!(bare.ecosystem(), Some("cargo"));
    assert_eq!(bare.path(), None);
    let other = ComponentId("symbol::x".to_string());
    assert_eq!(other.ecosystem(), None);
}

#[test]
fn other_id_formats() {
    assert_eq!(test_id("tests/a.rs", "works"), "test::tests/a.rs::works");
    assert_eq!(doc_id("README.md"), "doc::README.md");
}

#[test]
fn edge_kind_round_trip() {
    let kinds = [
        EdgeKind::Contains,
        EdgeKind::Defines,
        EdgeKind::DependsOn,
        EdgeKind::Reexports,
        EdgeKind::DocumentedBy,
        EdgeKind::TestedBy,
        EdgeKind::BenchmarkedBy,
        EdgeKind::RelatedTo,
        EdgeKind::ConfiguredBy,
        EdgeKind::Builds,
        EdgeKind::Deploys,
        EdgeKind::Implements,
        EdgeKind::OwnsTask,
        EdgeKind::DeclaresFeature,
        EdgeKind::FeatureEnables,
        EdgeKind::Mentions,
    ];
    for kind in &kinds {
        let s = kind.as_str();
        let parsed = EdgeKind::parse(s).unwrap();
        assert_eq!(*kind, parsed);
    }
}

#[test]
fn edge_kind_parse_invalid() {
    assert!(EdgeKind::parse("nope").is_none());
}

#[test]
fn entity_kind_round_trip() {
    let kinds = [
        EntityKind::Repo,
        EntityKind::Directory,
        EntityKind::Component,
        EntityKind::SourceUnit,
        EntityKind::Symbol,
        EntityKind::Doc,
        EntityKind::Test,
        EntityKind::Bench,
        EntityKind::Task,
        EntityKind::Containerized,
        EntityKind::InfraRoot,
        EntityKind::Command,
        EntityKind::Feature,
        EntityKind::ContentPage,
        EntityKind::Template,
        EntityKind::Site,
        EntityKind::Migration,
        EntityKind::Spec,
        EntityKind::Workflow,
        EntityKind::AgentConfig,
    ];
    for kind in &kinds {
        let s = kind.as_str();
        let parsed = EntityKind::parse(s).unwrap();
        assert_eq!(*kind, parsed);
    }
}

#[test]
fn entity_kind_parse_invalid() {
    assert!(EntityKind::parse("bogus").is_none());
}

#[test]
fn kind_names_are_snake_case() {
    assert_eq!(EntityKind::SourceUnit.as_str(), "source_unit");
    assert_eq!(EntityKind::AgentConfig.to_string(), "agent_config");
    assert_eq!(EdgeKind::OwnsTask.as_str(), "owns_task");
    assert_eq!(EdgeKind::Renders.as_str(), "renders");
    assert_eq!(EdgeKind::parse("depends_on"), Some(EdgeKind::DependsOn));
    assert_eq!(EntityKind::parse("Repo"), None);
}
