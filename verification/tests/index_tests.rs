use chizu::index::{
    astro_file_graph, extension_of, file_entity_id, rust_file_graph, source_unit_entity, stem_of,
    terraform_file_graph, ts_file_graph, RustParse, RustReexport, RustSymbol, TsImport, TsParse, TsSymbol,
};
use chizu::model::edge::EdgeKind;
use chizu::model::entity::EntityKind;
use chizu::scan::scan_terraform;

fn sym(name: &str, vis: &str, test: bool, bench: bool, tr: Option<&str>) -> RustSymbol {
    RustSymbol {
        name: name.to_string(),
        visibility: vis.to_string(),
        line_start: 3,
        line_end: 5,
        is_test: test,
        is_bench: bench,
        trait_name: tr.map(|t| t.to_string()),
    }
}

#[test]
fn rust_graph_entities_and_edges() {
    let parse = RustParse {
        symbols: vec![
            sym("hello", "pub", false, false, None),
            sym("it_works", "", true, false, None),
            sym("bench_foo", "", false, true, None),
            sym("impl Greet for MyStruct", "", false, false, Some("Greet")),
        ],
        uses: vec![RustReexport { path: "crate::foo::Bar".to_string(), visibility: "pub".to_string(), line: 1 }],
    };
    let comp = Some("component::cargo::my-crate".to_string());
    let g = rust_file_graph("my-crate/src/lib.rs", &comp, &parse);
    assert_eq!(g.entities.len(), 5);
    assert_eq!(g.entities[0].id, "symbol::my-crate/src/lib.rs::hello");
    assert_eq!(g.entities[0].kind, EntityKind::Symbol);
    assert!(g.entities[0].exported);
    assert_eq!(g.entities[0].component_id, comp);
    assert_eq!(g.entities[1].kind, EntityKind::Test);
    assert_eq!(g.entities[2].kind, EntityKind::Bench);
    assert_eq!(g.entities[4].name, "crate::foo::Bar");
    assert_eq!(g.entities[4].component_id, comp);
    let rels: Vec<EdgeKind> = g.edges.iter().map(|e| e.rel).collect();
    assert_eq!(
        rels,
        vec![
            EdgeKind::Defines,
            EdgeKind::Defines,
            EdgeKind::TestedBy,
            EdgeKind::Defines,
            EdgeKind::BenchmarkedBy,
            EdgeKind::Defines,
            EdgeKind::Implements,
            EdgeKind::Reexports,
        ]
    );
    assert_eq!(g.edges[0].src_id, "file::my-crate/src/lib.rs");
    assert_eq!(g.edges[6].src_id, "symbol::my-crate/src/lib.rs::impl Greet for MyStruct");
    assert_eq!(g.edges[6].dst_id, "symbol::my-crate/src/lib.rs::Greet");
    assert_eq!(g.edges[7].dst_id, "symbol::my-crate/src/lib.rs::crate::foo::Bar");
    assert_eq!(g.edges[7].provenance_line, Some(1));
}

#[test]
fn ts_graph_resolves_imports_among_files() {
    let parse = TsParse {
        symbols: vec![TsSymbol { name: "helper".to_string(), exported: true, line_start: 1, line_end: 1 }],
        imports: vec![
            TsImport { path: "./utils".to_string(), line: 1 },
            TsImport { path: "react".to_string(), line: 2 },
        ],
        exports: vec!["./types".to_string()],
    };
    let files = vec!["src/utils.ts".to_string(), "src/types.ts".to_string()];
    let g = ts_file_graph("src/app.ts", &None, &parse, &files);
    assert_eq!(g.entities.len(), 1);
    assert_eq!(g.entities[0].visibility, Some("pub".to_string()));
    assert_eq!(g.edges.len(), 3);
    assert_eq!(g.edges[1].rel, EdgeKind::DependsOn);
    assert_eq!(g.edges[1].dst_id, file_entity_id("src/utils.ts"));
    assert_eq!(g.edges[2].rel, EdgeKind::Reexports);
    assert_eq!(g.edges[2].dst_id, "file::src/types.ts");
    assert_eq!(g.edges[2].provenance_line, None);
}

#[test]
fn astro_and_terraform_graphs() {
    let g = astro_file_graph("site/Card.astro", &None, &Some("Card.astro".to_string()));
    assert_eq!(g.entities[0].id, "symbol::site/Card.astro::Card");
    assert_eq!(g.entities[0].kind, EntityKind::Template);
    let scan = scan_terraform("resource \"aws_s3_bucket\" \"data\" {}\n");
    let g = terraform_file_graph("infra/main.tf", &None, &scan);
    assert_eq!(g.entities[0].id, "file::infra/main.tf::aws_s3_bucket::data");
    assert_eq!(g.entities[0].name, "aws_s3_bucket.data");
    assert_eq!(g.edges[0].dst_id, "file::infra/main.tf::aws_s3_bucket::data");
}

#[test]
fn stems_and_extensions() {
    assert_eq!(stem_of("Card.astro"), "Card");
    assert_eq!(stem_of("archive.tar.gz"), "archive.tar");
    assert_eq!(stem_of(".bashrc"), ".bashrc");
    assert_eq!(extension_of("main.rs"), Some("rs".to_string()));
    assert_eq!(extension_of(".gitignore"), None);
    assert_eq!(extension_of("Makefile"), None);
}

#[test]
fn source_unit_named_by_file() {
    let e = source_unit_entity("src/lib.rs", &Some("lib.rs".to_string()), "rust", &None);
    assert_eq!(e.id, "file::src/lib.rs");
    assert_eq!(e.name, "lib.rs");
    assert_eq!(e.kind, EntityKind::SourceUnit);
    assert!(!e.exported);
    let e = source_unit_entity("odd", &None, "hcl", &None);
    assert_eq!(e.name, "odd");
}
