//! What indexing one file adds to the repository graph: the entities and
//! edges for a parsed Rust, TypeScript, Astro or Terraform file, computed
//! from the parser's output as plain values.

use vstd::prelude::*;
use crate::model::edge::{edge_views, Edge, EdgeKind, EdgeView};
use crate::model::entity::{entity_views, opt_view, Entity, EntityKind, EntityView};
use crate::model::id::symbol_id;
use crate::paths::{import_candidates, first_present, string_views, resolve_ts_import};
use crate::scan::TerraformScan;
use crate::text::{owned, push_str, str_eq};

verus! {

// ---------------------------------------------------------------------------
// Identifiers
// ---------------------------------------------------------------------------

/// `file::{path}`: the id of the source unit of a file.
pub open spec fn file_id_text(path: Seq<char>) -> Seq<char> {
    "file::"@ + path
}

/// `symbol::{path}::{name}`: the id of a symbol defined in a file.
pub open spec fn symbol_text(path: Seq<char>, name: Seq<char>) -> Seq<char> {
    "symbol::"@ + path + "::"@ + name
}

/// The id of the source unit of the file at `path`.
pub fn file_entity_id(path: &str) -> (res: String)
    ensures
        res@ == file_id_text(path@),
{
    let mut res = owned("file::");
    push_str(&mut res, path);
    res
}

fn copy_opt(o: &Option<String>) -> (res: Option<String>)
    ensures
        opt_view(res) == opt_view(*o),
{
    match o {
        Some(s) => Some(owned(s.as_str())),
        None => None,
    }
}

fn some_str(s: &str) -> (res: Option<String>)
    ensures
        opt_view(res) == Some(s@),
{
    Some(owned(s))
}

/// The last `.` of a name, if any.
pub open spec fn last_dot(name: Seq<char>) -> Option<int>
    decreases name.len(),
{
    if name.len() == 0 {
        None
    } else if name.last() == '.' {
        Some(name.len() - 1)
    } else {
        last_dot(name.drop_last())
    }
}

pub proof fn lemma_last_dot(name: Seq<char>)
    ensures
        match last_dot(name) {
            Some(i) => 0 <= i < name.len() && name[i] == '.' && forall|j: int| i < j < name.len() ==> name[j] != '.',
            None => forall|j: int| 0 <= j < name.len() ==> name[j] != '.',
        },
    decreases name.len(),
{
    if name.len() > 0 && name.last() != '.' {
        lemma_last_dot(name.drop_last());
        assert forall|j: int| 0 <= j < name.len() - 1 implies name.drop_last()[j] == name[j] by {}
    }
}

/// The stem of a file name: without its extension (the part after the last
/// `.`, unless that `.` starts the name).
pub open spec fn file_stem(name: Seq<char>) -> Seq<char> {
    match last_dot(name) {
        Some(i) => if i > 0 {
            name.take(i)
        } else {
            name
        },
        None => name,
    }
}

/// The extension of a file name (see `file_stem`).
pub open spec fn file_extension(name: Seq<char>) -> Option<Seq<char>> {
    match last_dot(name) {
        Some(i) => if i > 0 {
            Some(name.skip(i + 1))
        } else {
            None
        },
        None => None,
    }
}

fn last_dot_exec(v: &Vec<char>) -> (res: Option<usize>)
    ensures
        match last_dot(v@) {
            Some(i) => res matches Some(r) && r == i,
            None => res is None,
        },
{
    let mut i: usize = v.len();
    assert(v@.take(v@.len() as int) == v@);
    while i > 0
        invariant
            i <= v.len(),
            last_dot(v@) == last_dot(v@.take(i as int)),
        decreases i,
    {
        assert(v@.take(i as int).drop_last() == v@.take(i - 1));
        assert(v@.take(i as int).last() == v@[i - 1]);
        if v[i - 1] == '.' {
            return Some(i - 1);
        }
        i -= 1;
    }
    None
}

/// The stem of a file name (see `file_stem`).
pub fn stem_of(name: &str) -> (res: String)
    ensures
        res@ == file_stem(name@),
{
    let v = crate::text::chars_of(name);
    proof {
        lemma_last_dot(v@);
    }
    match last_dot_exec(&v) {
        Some(i) => if i > 0 {
            crate::text::string_of_range(&v, 0, i)
        } else {
            owned(name)
        },
        None => owned(name),
    }
}

/// The extension of a file name (see `file_extension`).
pub fn extension_of(name: &str) -> (res: Option<String>)
    ensures
        opt_view(res) == file_extension(name@),
{
    let v = crate::text::chars_of(name);
    proof {
        lemma_last_dot(v@);
    }
    match last_dot_exec(&v) {
        Some(i) => if i > 0 {
            Some(crate::text::string_of_range(&v, i + 1, v.len()))
        } else {
            None
        },
        None => None,
    }
}

// ---------------------------------------------------------------------------
// Parser output
// ---------------------------------------------------------------------------

/// A symbol found in a Rust file.
#[derive(Debug, Clone, PartialEq, Eq)]
pub struct RustSymbol {
    pub name: String,
    pub visibility: String,
    pub line_start: usize,
    pub line_end: usize,
    pub is_test: bool,
    pub is_bench: bool,
    /// For an `impl Trait for Type` item, the trait.
    pub trait_name: Option<String>,
}

/// A `use` item of a Rust file that re-exports a path.
#[derive(Debug, Clone, PartialEq, Eq)]
pub struct RustReexport {
    pub path: String,
    pub visibility: String,
    pub line: usize,
}

/// What the Rust parser finds in a file.
#[derive(Debug, Clone, PartialEq, Eq)]
pub struct RustParse {
    pub symbols: Vec<RustSymbol>,
    pub uses: Vec<RustReexport>,
}

/// A symbol found in a TypeScript file.
#[derive(Debug, Clone, PartialEq, Eq)]
pub struct TsSymbol {
    pub name: String,
    pub exported: bool,
    pub line_start: usize,
    pub line_end: usize,
}

/// An import of a TypeScript file.
#[derive(Debug, Clone, PartialEq, Eq)]
pub struct TsImport {
    pub path: String,
    pub line: usize,
}

/// What the TypeScript parser finds in a file.
#[derive(Debug, Clone, PartialEq, Eq)]
pub struct TsParse {
    pub symbols: Vec<TsSymbol>,
    pub imports: Vec<TsImport>,
    /// The module paths of `export ... from` items.
    pub exports: Vec<String>,
}

/// The entities and edges that indexing a file adds, in the order they are
/// stored.
#[derive(Debug, Clone, PartialEq, Eq)]
pub struct FileGraph {
    pub entities: Vec<Entity>,
    pub edges: Vec<Edge>,
}

// ---------------------------------------------------------------------------
// Source units
// ---------------------------------------------------------------------------

/// The source unit of a file: named by its file name, or by its path when
/// it has none.
pub open spec fn source_unit_view(
    path: Seq<char>,
    file_name: Option<Seq<char>>,
    language: Seq<char>,
    component_id: Option<Seq<char>>,
) -> EntityView {
    EntityView {
        id: file_id_text(path),
        kind: EntityKind::SourceUnit,
        name: match file_name {
            Some(n) => n,
            None => path,
        },
        component_id,
        path: Some(path),
        language: Some(language),
        line_start: None,
        line_end: None,
        visibility: None,
        exported: false,
    }
}

/// The source unit entity of the file at `path`.
pub fn source_unit_entity(
    path: &str,
    file_name: &Option<String>,
    language: &str,
    component_id: &Option<String>,
) -> (res: Entity)
    ensures
        res@ == source_unit_view(path@, opt_view(*file_name), language@, opt_view(*component_id)),
{
    let name = match file_name {
        Some(n) => owned(n.as_str()),
        None => owned(path),
    };
    Entity {
        id: file_entity_id(path),
        kind: EntityKind::SourceUnit,
        name,
        component_id: copy_opt(component_id),
        path: some_str(path),
        language: some_str(language),
        line_start: None,
        line_end: None,
        visibility: None,
        exported: false,
    }
}

// ---------------------------------------------------------------------------
// Rust
// ---------------------------------------------------------------------------

/// Tests and benchmarks get kinds of their own.
pub open spec fn rust_symbol_kind(s: RustSymbol) -> EntityKind {
    if s.is_test {
        EntityKind::Test
    } else if s.is_bench {
        EntityKind::Bench
    } else {
        EntityKind::Symbol
    }
}

pub open spec fn rust_symbol_entity(path: Seq<char>, component_id: Option<Seq<char>>, s: RustSymbol) -> EntityView {
    EntityView {
        id: symbol_text(path, s.name@),
        kind: rust_symbol_kind(s),
        name: s.name@,
        component_id,
        path: Some(path),
        language: Some("rust"@),
        line_start: Some(s.line_start as i64),
        line_end: Some(s.line_end as i64),
        visibility: Some(s.visibility@),
        exported: s.visibility@ == "pub"@,
    }
}

/// The edges of one symbol: the file defines it; a test also tests the
/// file and a benchmark benchmarks it; an impl of a trait implements the
/// trait's symbol in the same file.
pub open spec fn rust_symbol_edges(path: Seq<char>, s: RustSymbol) -> Seq<EdgeView> {
    let su = file_id_text(path);
    let sid = symbol_text(path, s.name@);
    let line = Some(s.line_start as i64);
    let edge = |rel: EdgeKind| EdgeView { src_id: su, rel, dst_id: sid, provenance_path: Some(path), provenance_line: line };
    seq![edge(EdgeKind::Defines)] + (if rust_symbol_kind(s) == EntityKind::Test {
        seq![edge(EdgeKind::TestedBy)]
    } else {
        Seq::empty()
    }) + (if rust_symbol_kind(s) == EntityKind::Bench {
        seq![edge(EdgeKind::BenchmarkedBy)]
    } else {
        Seq::empty()
    }) + match s.trait_name {
        Some(t) => seq![
            EdgeView {
                src_id: sid,
                rel: EdgeKind::Implements,
                dst_id: symbol_text(path, t@),
                provenance_path: Some(path),
                provenance_line: line,
            },
        ],
        None => Seq::empty(),
    }
}

pub open spec fn rust_symbols_edges(path: Seq<char>, syms: Seq<RustSymbol>) -> Seq<EdgeView>
    decreases syms.len(),
{
    if syms.len() == 0 {
        Seq::empty()
    } else {
        rust_symbols_edges(path, syms.drop_last()) + rust_symbol_edges(path, syms.last())
    }
}

pub open spec fn reexport_entity(path: Seq<char>, component_id: Option<Seq<char>>, r: RustReexport) -> EntityView {
    EntityView {
        id: symbol_text(path, r.path@),
        kind: EntityKind::Symbol,
        name: r.path@,
        component_id,
        path: Some(path),
        language: Some("rust"@),
        line_start: Some(r.line as i64),
        line_end: Some(r.line as i64),
        visibility: Some(r.visibility@),
        exported: r.visibility@ == "pub"@,
    }
}

pub open spec fn reexport_edge(path: Seq<char>, r: RustReexport) -> EdgeView {
    EdgeView {
        src_id: file_id_text(path),
        rel: EdgeKind::Reexports,
        dst_id: symbol_text(path, r.path@),
        provenance_path: Some(path),
        provenance_line: Some(r.line as i64),
    }
}

/// The entities of a parsed Rust file: its symbols, then its re-exports.
pub open spec fn rust_graph_entities(path: Seq<char>, component_id: Option<Seq<char>>, parse: RustParse) -> Seq<EntityView> {
    parse.symbols@.map_values(|s: RustSymbol| rust_symbol_entity(path, component_id, s))
        + parse.uses@.map_values(|r: RustReexport| reexport_entity(path, component_id, r))
}

/// The edges of a parsed Rust file: those of each symbol, then one per
/// re-export.
pub open spec fn rust_graph_edges(path: Seq<char>, parse: RustParse) -> Seq<EdgeView> {
    rust_symbols_edges(path, parse.symbols@) + parse.uses@.map_values(|r: RustReexport| reexport_edge(path, r))
}

fn make_edge(src: &str, rel: EdgeKind, dst: &str, prov: &str, line: Option<i64>) -> (res: Edge)
    ensures
        res@ == (EdgeView {
            src_id: src@,
            rel,
            dst_id: dst@,
            provenance_path: Some(prov@),
            provenance_line: line,
        }),
{
    Edge { src_id: owned(src), rel, dst_id: owned(dst), provenance_path: some_str(prov), provenance_line: line }
}

fn push_rust_symbol_edges(edges: &mut Vec<Edge>, path: &str, s: &RustSymbol)
    ensures
        edge_views(final(edges)@) == edge_views(old(edges)@) + rust_symbol_edges(path@, *s),
{
    let ghost start = edge_views(edges@);
    let su = file_entity_id(path);
    let sid = symbol_id(path, s.name.as_str());
    let line = Some(s.line_start as i64);
    let ghost edge = |rel: EdgeKind| EdgeView { src_id: su@, rel, dst_id: sid@, provenance_path: Some(path@), provenance_line: line };
    edges.push(make_edge(su.as_str(), EdgeKind::Defines, sid.as_str(), path, line));
    let ghost a = start.push(edge(EdgeKind::Defines));
    assert(edge_views(edges@) == a);
    if s.is_test {
        edges.push(make_edge(su.as_str(), EdgeKind::TestedBy, sid.as_str(), path, line));
    }
    let ghost b = a + (if rust_symbol_kind(*s) == EntityKind::Test {
        seq![edge(EdgeKind::TestedBy)]
    } else {
        Seq::empty()
    });
    assert(edge_views(edges@) == b);
    if !s.is_test && s.is_bench {
        edges.push(make_edge(su.as_str(), EdgeKind::BenchmarkedBy, sid.as_str(), path, line));
    }
    let ghost c = b + (if rust_symbol_kind(*s) == EntityKind::Bench {
        seq![edge(EdgeKind::BenchmarkedBy)]
    } else {
        Seq::empty()
    });
    assert(edge_views(edges@) == c);
    match &s.trait_name {
        Some(t) => {
            let tid = symbol_id(path, t.as_str());
            edges.push(make_edge(sid.as_str(), EdgeKind::Implements, tid.as_str(), path, line));
        },
        None => {},
    }
    assert(edge_views(edges@) == start + rust_symbol_edges(path@, *s));
}

fn pub_visibility(v: &str) -> (res: bool)
    ensures
        res == (v@ == "pub"@),
{
    str_eq(v, "pub")
}

/// The entities and edges that a parsed Rust file adds (see
/// `rust_graph_entities` and `rust_graph_edges`).
pub fn rust_file_graph(path: &str, component_id: &Option<String>, parse: &RustParse) -> (res: FileGraph)
    ensures
        entity_views(res.entities@) == rust_graph_entities(path@, opt_view(*component_id), *parse),
        edge_views(res.edges@) == rust_graph_edges(path@, *parse),
{
    let ghost comp = opt_view(*component_id);
    let mut entities: Vec<Entity> = Vec::new();
    let mut edges: Vec<Edge> = Vec::new();
    let syms = &parse.symbols;
    let mut i: usize = 0;
    assert(syms@.take(0) == Seq::<RustSymbol>::empty());
    while i < syms.len()
        invariant
            i <= syms@.len(),
            syms == &parse.symbols,
            comp == opt_view(*component_id),
            entity_views(entities@) == syms@.take(i as int).map_values(|s: RustSymbol| rust_symbol_entity(path@, comp, s)),
            edge_views(edges@) == rust_symbols_edges(path@, syms@.take(i as int)),
        decreases syms.len() - i,
    {
        let s = &syms[i];
        assert(syms@.take(i + 1).drop_last() == syms@.take(i as int));
        assert(syms@.take(i + 1).last() == *s);
        let kind = if s.is_test {
            EntityKind::Test
        } else if s.is_bench {
            EntityKind::Bench
        } else {
            EntityKind::Symbol
        };
        let e = Entity {
            id: symbol_id(path, s.name.as_str()),
            kind,
            name: owned(s.name.as_str()),
            component_id: copy_opt(component_id),
            path: some_str(path),
            language: some_str("rust"),
            line_start: Some(s.line_start as i64),
            line_end: Some(s.line_end as i64),
            visibility: some_str(s.visibility.as_str()),
            exported: pub_visibility(s.visibility.as_str()),
        };
        let ghost before = entity_views(entities@);
        entities.push(e);
        assert(entity_views(entities@) == before.push(rust_symbol_entity(path@, comp, *s)));
        push_rust_symbol_edges(&mut edges, path, s);
        i += 1;
        assert(syms@.take(i as int).map_values(|s: RustSymbol| rust_symbol_entity(path@, comp, s))
            == syms@.take(i - 1).map_values(|s: RustSymbol| rust_symbol_entity(path@, comp, s)).push(
            rust_symbol_entity(path@, comp, syms@[i - 1]),
        ));
    }
    assert(syms@.take(syms@.len() as int) == syms@);
    let ghost sym_entities = entity_views(entities@);
    let ghost sym_edges = edge_views(edges@);
    let uses = &parse.uses;
    let mut k: usize = 0;
    assert(uses@.take(0) == Seq::<RustReexport>::empty());
    while k < uses.len()
        invariant
            k <= uses@.len(),
            uses == &parse.uses,
            comp == opt_view(*component_id),
            entity_views(entities@) == sym_entities + uses@.take(k as int).map_values(|r: RustReexport| reexport_entity(path@, comp, r)),
            edge_views(edges@) == sym_edges + uses@.take(k as int).map_values(|r: RustReexport| reexport_edge(path@, r)),
        decreases uses.len() - k,
    {
        let r = &uses[k];
        let rid = symbol_id(path, r.path.as_str());
        let e = Entity {
            id: symbol_id(path, r.path.as_str()),
            kind: EntityKind::Symbol,
            name: owned(r.path.as_str()),
            component_id: copy_opt(component_id),
            path: some_str(path),
            language: some_str("rust"),
            line_start: Some(r.line as i64),
            line_end: Some(r.line as i64),
            visibility: some_str(r.visibility.as_str()),
            exported: pub_visibility(r.visibility.as_str()),
        };
        let su = file_entity_id(path);
        let ghost be = entity_views(entities@);
        let ghost bd = edge_views(edges@);
        entities.push(e);
        edges.push(make_edge(su.as_str(), EdgeKind::Reexports, rid.as_str(), path, Some(r.line as i64)));
        assert(entity_views(entities@) == be.push(reexport_entity(path@, comp, *r)));
        assert(edge_views(edges@) == bd.push(reexport_edge(path@, *r)));
        k += 1;
        assert(uses@.take(k as int).map_values(|r: RustReexport| reexport_entity(path@, comp, r))
            == uses@.take(k - 1).map_values(|r: RustReexport| reexport_entity(path@, comp, r)).push(reexport_entity(path@, comp, uses@[k - 1])));
        assert(uses@.take(k as int).map_values(|r: RustReexport| reexport_edge(path@, r))
            == uses@.take(k - 1).map_values(|r: RustReexport| reexport_edge(path@, r)).push(reexport_edge(path@, uses@[k - 1])));
    }
    assert(uses@.take(uses@.len() as int) == uses@);
    FileGraph { entities, edges }
}

// ---------------------------------------------------------------------------
// TypeScript
// ---------------------------------------------------------------------------

pub open spec fn ts_symbol_entity(path: Seq<char>, component_id: Option<Seq<char>>, s: TsSymbol) -> EntityView {
    EntityView {
        id: symbol_text(path, s.name@),
        kind: EntityKind::Symbol,
        name: s.name@,
        component_id,
        path: Some(path),
        language: Some("typescript"@),
        line_start: Some(s.line_start as i64),
        line_end: Some(s.line_end as i64),
        visibility: if s.exported {
            Some("pub"@)
        } else {
            None
        },
        exported: s.exported,
    }
}

pub open spec fn ts_define_edge(path: Seq<char>, s: TsSymbol) -> EdgeView {
    EdgeView {
        src_id: file_id_text(path),
        rel: EdgeKind::Defines,
        dst_id: symbol_text(path, s.name@),
        provenance_path: Some(path),
        provenance_line: Some(s.line_start as i64),
    }
}

/// The file a relative import resolves to among the existing files.
pub open spec fn resolved_import(import_path: Seq<char>, importing_file: Seq<char>, files: Seq<Seq<char>>) -> Option<Seq<char>> {
    match import_candidates(import_path, importing_file) {
        None => None,
        Some(cs) => match first_present(cs, files) {
            None => None,
            Some(i) => Some(cs[i]),
        },
    }
}

/// A `DependsOn` edge to the file of each import that resolves.
pub open spec fn ts_import_edges(path: Seq<char>, imports: Seq<TsImport>, files: Seq<Seq<char>>) -> Seq<EdgeView>
    decreases imports.len(),
{
    if imports.len() == 0 {
        Seq::empty()
    } else {
        let init = ts_import_edges(path, imports.drop_last(), files);
        let imp = imports.last();
        match resolved_import(imp.path@, path, files) {
            Some(t) => init.push(
                EdgeView {
                    src_id: file_id_text(path),
                    rel: EdgeKind::DependsOn,
                    dst_id: file_id_text(t),
                    provenance_path: Some(path),
                    provenance_line: Some(imp.line as i64),
                },
            ),
            None => init,
        }
    }
}

/// A `Reexports` edge to the file of each re-exported module that resolves.
pub open spec fn ts_export_edges(path: Seq<char>, exports: Seq<Seq<char>>, files: Seq<Seq<char>>) -> Seq<EdgeView>
    decreases exports.len(),
{
    if exports.len() == 0 {
        Seq::empty()
    } else {
        let init = ts_export_edges(path, exports.drop_last(), files);
        match resolved_import(exports.last(), path, files) {
            Some(t) => init.push(
                EdgeView {
                    src_id: file_id_text(path),
                    rel: EdgeKind::Reexports,
                    dst_id: file_id_text(t),
                    provenance_path: Some(path),
                    provenance_line: None,
                },
            ),
            None => init,
        }
    }
}

/// The entities of a parsed TypeScript file: its symbols.
pub open spec fn ts_graph_entities(path: Seq<char>, component_id: Option<Seq<char>>, parse: TsParse) -> Seq<EntityView> {
    parse.symbols@.map_values(|s: TsSymbol| ts_symbol_entity(path, component_id, s))
}

/// The edges of a parsed TypeScript file: one `Defines` per symbol, then
/// the resolved imports, then the resolved re-exports.
pub open spec fn ts_graph_edges(path: Seq<char>, parse: TsParse, files: Seq<Seq<char>>) -> Seq<EdgeView> {
    parse.symbols@.map_values(|s: TsSymbol| ts_define_edge(path, s)) + ts_import_edges(path, parse.imports@, files)
        + ts_export_edges(path, string_views(parse.exports@), files)
}

fn push_resolved_edge(
    edges: &mut Vec<Edge>,
    path: &str,
    target: &Option<String>,
    rel: EdgeKind,
    line: Option<i64>,
)
    ensures
        edge_views(final(edges)@) == match opt_view(*target) {
            Some(t) => edge_views(old(edges)@).push(
                EdgeView {
                    src_id: file_id_text(path@),
                    rel,
                    dst_id: file_id_text(t),
                    provenance_path: Some(path@),
                    provenance_line: line,
                },
            ),
            None => edge_views(old(edges)@),
        },
{
    match target {
        Some(t) => {
            let src = file_entity_id(path);
            let dst = file_entity_id(t.as_str());
            edges.push(make_edge(src.as_str(), rel, dst.as_str(), path, line));
        },
        None => {},
    }
}

fn resolve_exec(import_path: &str, importing_file: &str, files: &Vec<String>) -> (res: Option<String>)
    ensures
        opt_view(res) == resolved_import(import_path@, importing_file@, string_views(files@)),
{
    resolve_ts_import(import_path, importing_file, files)
}

/// The entities and edges that a parsed TypeScript file adds, with its
/// relative imports resolved among the existing files (see
/// `ts_graph_entities` and `ts_graph_edges`).
pub fn ts_file_graph(
    path: &str,
    component_id: &Option<String>,
    parse: &TsParse,
    existing_files: &Vec<String>,
) -> (res: FileGraph)
    ensures
        entity_views(res.entities@) == ts_graph_entities(path@, opt_view(*component_id), *parse),
        edge_views(res.edges@) == ts_graph_edges(path@, *parse, string_views(existing_files@)),
{
    let ghost comp = opt_view(*component_id);
    let ghost files = string_views(existing_files@);
    let mut entities: Vec<Entity> = Vec::new();
    let mut edges: Vec<Edge> = Vec::new();
    let syms = &parse.symbols;
    let mut i: usize = 0;
    while i < syms.len()
        invariant
            i <= syms@.len(),
            syms == &parse.symbols,
            comp == opt_view(*component_id),
            entity_views(entities@) == syms@.take(i as int).map_values(|s: TsSymbol| ts_symbol_entity(path@, comp, s)),
            edge_views(edges@) == syms@.take(i as int).map_values(|s: TsSymbol| ts_define_edge(path@, s)),
        decreases syms.len() - i,
    {
        let s = &syms[i];
        let vis = if s.exported {
            some_str("pub")
        } else {
            None
        };
        let e = Entity {
            id: symbol_id(path, s.name.as_str()),
            kind: EntityKind::Symbol,
            name: owned(s.name.as_str()),
            component_id: copy_opt(component_id),
            path: some_str(path),
            language: some_str("typescript"),
            line_start: Some(s.line_start as i64),
            line_end: Some(s.line_end as i64),
            visibility: vis,
            exported: s.exported,
        };
        let su = file_entity_id(path);
        let sid = symbol_id(path, s.name.as_str());
        let ghost be = entity_views(entities@);
        let ghost bd = edge_views(edges@);
        entities.push(e);
        edges.push(make_edge(su.as_str(), EdgeKind::Defines, sid.as_str(), path, Some(s.line_start as i64)));
        assert(entity_views(entities@) == be.push(ts_symbol_entity(path@, comp, *s)));
        assert(edge_views(edges@) == bd.push(ts_define_edge(path@, *s)));
        i += 1;
        assert(syms@.take(i as int).map_values(|s: TsSymbol| ts_symbol_entity(path@, comp, s))
            == syms@.take(i - 1).map_values(|s: TsSymbol| ts_symbol_entity(path@, comp, s)).push(ts_symbol_entity(path@, comp, syms@[i - 1])));
        assert(syms@.take(i as int).map_values(|s: TsSymbol| ts_define_edge(path@, s))
            == syms@.take(i - 1).map_values(|s: TsSymbol| ts_define_edge(path@, s)).push(ts_define_edge(path@, syms@[i - 1])));
    }
    assert(syms@.take(syms@.len() as int) == syms@);
    let ghost defines = edge_views(edges@);
    let imports = &parse.imports;
    let mut k: usize = 0;
    assert(imports@.take(0) == Seq::<TsImport>::empty());
    while k < imports.len()
        invariant
            k <= imports@.len(),
            imports == &parse.imports,
            files == string_views(existing_files@),
            edge_views(edges@) == defines + ts_import_edges(path@, imports@.take(k as int), files),
        decreases imports.len() - k,
    {
        let imp = &imports[k];
        assert(imports@.take(k + 1).drop_last() == imports@.take(k as int));
        assert(imports@.take(k + 1).last() == *imp);
        let target = resolve_exec(imp.path.as_str(), path, existing_files);
        push_resolved_edge(&mut edges, path, &target, EdgeKind::DependsOn, Some(imp.line as i64));
        k += 1;
    }
    assert(imports@.take(imports@.len() as int) == imports@);
    let ghost with_imports = edge_views(edges@);
    let exports = &parse.exports;
    let ghost ex = string_views(exports@);
    let mut m: usize = 0;
    assert(ex.take(0) == Seq::<Seq<char>>::empty());
    while m < exports.len()
        invariant
            m <= exports@.len(),
            exports == &parse.exports,
            ex == string_views(exports@),
            files == string_views(existing_files@),
            edge_views(edges@) == with_imports + ts_export_edges(path@, ex.take(m as int), files),
        decreases exports.len() - m,
    {
        assert(ex.take(m + 1).drop_last() == ex.take(m as int));
        assert(ex.take(m + 1).last() == exports@[m as int]@);
        let target = resolve_exec(exports[m].as_str(), path, existing_files);
        push_resolved_edge(&mut edges, path, &target, EdgeKind::Reexports, None);
        m += 1;
    }
    assert(ex.take(exports@.len() as int) == ex);
    FileGraph { entities, edges }
}

// ---------------------------------------------------------------------------
// Astro and Terraform
// ---------------------------------------------------------------------------

/// The name of an Astro component: the stem of its file name.
pub open spec fn astro_component_name(file_name: Option<Seq<char>>) -> Seq<char> {
    match file_name {
        Some(n) => file_stem(n),
        None => "component"@,
    }
}

/// An Astro file defines one template, named after the file.
pub open spec fn astro_graph_entities(path: Seq<char>, component_id: Option<Seq<char>>, file_name: Option<Seq<char>>) -> Seq<EntityView> {
    let name = astro_component_name(file_name);
    seq![
        EntityView {
            id: symbol_text(path, name),
            kind: EntityKind::Template,
            name,
            component_id,
            path: Some(path),
            language: Some("astro"@),
            line_start: None,
            line_end: None,
            visibility: Some("pub"@),
            exported: true,
        },
    ]
}

pub open spec fn astro_graph_edges(path: Seq<char>, file_name: Option<Seq<char>>) -> Seq<EdgeView> {
    seq![
        EdgeView {
            src_id: file_id_text(path),
            rel: EdgeKind::Defines,
            dst_id: symbol_text(path, astro_component_name(file_name)),
            provenance_path: Some(path),
            provenance_line: None,
        },
    ]
}

/// The entities and edges that a parsed Astro file adds.
pub fn astro_file_graph(path: &str, component_id: &Option<String>, file_name: &Option<String>) -> (res: FileGraph)
    ensures
        entity_views(res.entities@) == astro_graph_entities(path@, opt_view(*component_id), opt_view(*file_name)),
        edge_views(res.edges@) == astro_graph_edges(path@, opt_view(*file_name)),
{
    proof {
        reveal_strlit("component");
    }
    let name = match file_name {
        Some(n) => stem_of(n.as_str()),
        None => owned("component"),
    };
    let sid = symbol_id(path, name.as_str());
    let su = file_entity_id(path);
    let e = Entity {
        id: symbol_id(path, name.as_str()),
        kind: EntityKind::Template,
        name,
        component_id: copy_opt(component_id),
        path: some_str(path),
        language: some_str("astro"),
        line_start: None,
        line_end: None,
        visibility: some_str("pub"),
        exported: true,
    };
    let mut entities: Vec<Entity> = Vec::new();
    entities.push(e);
    let mut edges: Vec<Edge> = Vec::new();
    edges.push(make_edge(su.as_str(), EdgeKind::Defines, sid.as_str(), path, None));
    assert(entity_views(entities@) == astro_graph_entities(path@, opt_view(*component_id), opt_view(*file_name)));
    assert(edge_views(edges@) == astro_graph_edges(path@, opt_view(*file_name)));
    FileGraph { entities, edges }
}

/// The id of a Terraform resource: `{source unit}::{type}::{name}`.
pub open spec fn resource_id_text(path: Seq<char>, rtype: Seq<char>, name: Seq<char>) -> Seq<char> {
    file_id_text(path) + "::"@ + rtype + "::"@ + name
}

pub open spec fn resource_entity(path: Seq<char>, component_id: Option<Seq<char>>, r: (Seq<char>, Seq<char>)) -> EntityView {
    EntityView {
        id: resource_id_text(path, r.0, r.1),
        kind: EntityKind::Symbol,
        name: r.0 + "."@ + r.1,
        component_id,
        path: Some(path),
        language: Some("hcl"@),
        line_start: None,
        line_end: None,
        visibility: Some("pub"@),
        exported: true,
    }
}

pub open spec fn resource_edge(path: Seq<char>, r: (Seq<char>, Seq<char>)) -> EdgeView {
    EdgeView {
        src_id: file_id_text(path),
        rel: EdgeKind::Defines,
        dst_id: resource_id_text(path, r.0, r.1),
        provenance_path: Some(path),
        provenance_line: None,
    }
}

/// The entities and edges that the resources of a scanned Terraform file
/// add: one symbol per resource, defined by the file.
pub fn terraform_file_graph(path: &str, component_id: &Option<String>, scan: &TerraformScan) -> (res: FileGraph)
    ensures
        entity_views(res.entities@) == crate::scan::resource_views(scan.resources@).map_values(
            |r: (Seq<char>, Seq<char>)| resource_entity(path@, opt_view(*component_id), r),
        ),
        edge_views(res.edges@) == crate::scan::resource_views(scan.resources@).map_values(
            |r: (Seq<char>, Seq<char>)| resource_edge(path@, r),
        ),
{
    let ghost comp = opt_view(*component_id);
    let ghost rs = crate::scan::resource_views(scan.resources@);
    let mut entities: Vec<Entity> = Vec::new();
    let mut edges: Vec<Edge> = Vec::new();
    let mut i: usize = 0;
    while i < scan.resources.len()
        invariant
            i <= scan.resources@.len(),
            comp == opt_view(*component_id),
            rs == crate::scan::resource_views(scan.resources@),
            entity_views(entities@) == rs.take(i as int).map_values(|r: (Seq<char>, Seq<char>)| resource_entity(path@, comp, r)),
            edge_views(edges@) == rs.take(i as int).map_values(|r: (Seq<char>, Seq<char>)| resource_edge(path@, r)),
        decreases scan.resources.len() - i,
    {
        let r = &scan.resources[i];
        assert(rs[i as int] == (r.resource_type@, r.name@));
        let mut id = file_entity_id(path);
        push_str(&mut id, "::");
        push_str(&mut id, r.resource_type.as_str());
        push_str(&mut id, "::");
        push_str(&mut id, r.name.as_str());
        let mut name = owned(r.resource_type.as_str());
        push_str(&mut name, ".");
        push_str(&mut name, r.name.as_str());
        let su = file_entity_id(path);
        let ghost be = entity_views(entities@);
        let ghost bd = edge_views(edges@);
        edges.push(make_edge(su.as_str(), EdgeKind::Defines, id.as_str(), path, None));
        entities.push(Entity {
            id,
            kind: EntityKind::Symbol,
            name,
            component_id: copy_opt(component_id),
            path: some_str(path),
            language: some_str("hcl"),
            line_start: None,
            line_end: None,
            visibility: some_str("pub"),
            exported: true,
        });
        assert(entity_views(entities@) == be.push(resource_entity(path@, comp, rs[i as int])));
        assert(edge_views(edges@) == bd.push(resource_edge(path@, rs[i as int])));
        i += 1;
        assert(rs.take(i as int).map_values(|r: (Seq<char>, Seq<char>)| resource_entity(path@, comp, r))
            == rs.take(i - 1).map_values(|r: (Seq<char>, Seq<char>)| resource_entity(path@, comp, r)).push(resource_entity(path@, comp, rs[i - 1])));
        assert(rs.take(i as int).map_values(|r: (Seq<char>, Seq<char>)| resource_edge(path@, r))
            == rs.take(i - 1).map_values(|r: (Seq<char>, Seq<char>)| resource_edge(path@, r)).push(resource_edge(path@, rs[i - 1])));
    }
    assert(rs.take(scan.resources@.len() as int) == rs);
    FileGraph { entities, edges }
}

} // verus!
