//! The decisions of a walk over the repository: which directories are
//! skipped, what kind of file each file is, which component a directory
//! belongs to, when a file must be indexed again, and what is left over
//! from files and components that are gone.

use vstd::prelude::*;
use crate::index::{file_extension, file_stem, stem_of, extension_of};
use crate::model::edge::{edge_views, Edge, EdgeKind, EdgeView};
use crate::model::entity::{opt_view, Entity, EntityKind, EntityView};
use crate::model::records::FileRecord;
use crate::paths::{contains_string, string_views};
use crate::registry::{lookup_name, lookup_path, ComponentRegistry, ComponentRoot};
use crate::scan::{frontmatter_title, parse_frontmatter_title};
use crate::text::{chars_of, contains_seq, ends_with, owned, push_str, starts_with, str_eq};

verus! {

// ---------------------------------------------------------------------------
// Directories
// ---------------------------------------------------------------------------

/// Directories that the discovery of component roots does not enter.
pub open spec fn skipped_in_discovery(name: Seq<char>) -> bool {
    ||| name == ".git"@
    ||| name == ".chizu"@
    ||| name == "target"@
    ||| name == "node_modules"@
    ||| name == "dist"@
    ||| name == "build"@
    ||| name == ".venv"@
    ||| name == "venv"@
    ||| name == "__pycache__"@
    ||| name == ".pytest_cache"@
    ||| name == ".mypy_cache"@
    ||| name == ".idea"@
    ||| name == ".vscode"@
    ||| name == ".github"@
    ||| name == ".ci"@
    ||| name == "coverage"@
    ||| name == ".next"@
}

/// Whether the discovery of component roots skips a directory.
pub fn should_skip_dir(name: &str) -> (res: bool)
    ensures
        res == skipped_in_discovery(name@),
{
    str_eq(name, ".git") || str_eq(name, ".chizu") || str_eq(name, "target") || str_eq(name, "node_modules")
        || str_eq(name, "dist") || str_eq(name, "build") || str_eq(name, ".venv") || str_eq(name, "venv")
        || str_eq(name, "__pycache__") || str_eq(name, ".pytest_cache") || str_eq(name, ".mypy_cache")
        || str_eq(name, ".idea") || str_eq(name, ".vscode") || str_eq(name, ".github") || str_eq(name, ".ci")
        || str_eq(name, "coverage") || str_eq(name, ".next")
}

/// Directories that the indexing walk does not enter: hidden ones and
/// build or output directories.
pub open spec fn skipped_in_walk(name: Seq<char>) -> bool {
    ||| starts_with(name, "."@)
    ||| name == "target"@
    ||| name == "node_modules"@
    ||| name == "dist"@
    ||| name == "build"@
    ||| name == "out"@
    ||| name == "coverage"@
    ||| name == "__pycache__"@
}

/// Whether the indexing walk skips a directory.
pub fn skip_walk_dir(name: &str) -> (res: bool)
    ensures
        res == skipped_in_walk(name@),
{
    let v = chars_of(name);
    let dot = chars_of(".");
    crate::text::starts_with_chars(&v, &dot) || str_eq(name, "target") || str_eq(name, "node_modules")
        || str_eq(name, "dist") || str_eq(name, "build") || str_eq(name, "out") || str_eq(name, "coverage")
        || str_eq(name, "__pycache__")
}

/// A repository-relative directory as displayed: `.` for the root.
pub open spec fn dir_display(rel: Seq<char>) -> Seq<char> {
    if rel.len() == 0 {
        "."@
    } else {
        rel
    }
}

/// The display of a repository-relative directory (see `dir_display`).
pub fn relative_dir(rel: &str) -> (res: String)
    ensures
        res@ == dir_display(rel@),
{
    proof {
        reveal_strlit(".");
    }
    if chars_of(rel).len() == 0 {
        owned(".")
    } else {
        owned(rel)
    }
}

/// The component a directory belongs to: its own when it holds a manifest
/// and is a registered root, else the one it inherits.
pub open spec fn directory_component_spec(
    roots: Seq<ComponentRoot>,
    dir: Seq<char>,
    has_manifest: bool,
    inherited: Option<Seq<char>>,
) -> Option<Seq<char>> {
    if has_manifest {
        match lookup_path(roots, dir) {
            Some(r) => Some(r.id@),
            None => inherited,
        }
    } else {
        inherited
    }
}

/// The component a directory belongs to (see `directory_component_spec`).
pub fn directory_component(
    registry: &ComponentRegistry,
    dir: &str,
    has_manifest: bool,
    inherited: &Option<String>,
) -> (res: Option<String>)
    ensures
        opt_view(res) == directory_component_spec(registry.roots(), dir@, has_manifest, opt_view(*inherited)),
{
    let own = if has_manifest {
        registry.get_by_path(dir)
    } else {
        None
    };
    match own {
        Some(r) => Some(owned(r.id.as_str())),
        None => match inherited {
            Some(c) => Some(owned(c.as_str())),
            None => None,
        },
    }
}

/// The entity of a component root found at `dir`.
pub open spec fn component_entity_view(root: ComponentRoot, dir: Seq<char>) -> EntityView {
    EntityView {
        id: root.id@,
        kind: EntityKind::Component,
        name: root.display_name@,
        component_id: None,
        path: Some(dir),
        language: Some(root.ecosystem@),
        line_start: None,
        line_end: None,
        visibility: Some("pub"@),
        exported: true,
    }
}

/// The id of the directory entity at `dir`: `dir::{dir}`.
pub open spec fn dir_id_text(dir: Seq<char>) -> Seq<char> {
    "dir::"@ + dir
}

/// The entity of a directory below the repository root: it is named
/// `name` (its last path component) and belongs to no component.
pub open spec fn directory_entity_view(dir: Seq<char>, name: Seq<char>) -> EntityView {
    EntityView {
        id: dir_id_text(dir),
        kind: EntityKind::Directory,
        name,
        component_id: None,
        path: Some(dir),
        language: None,
        line_start: None,
        line_end: None,
        visibility: None,
        exported: false,
    }
}

/// The entity of a directory (see `directory_entity_view`).
pub fn directory_entity(dir_rel: &str, name: &str) -> (res: Entity)
    ensures
        res@ == directory_entity_view(dir_rel@, name@),
{
    let mut id = owned("dir::");
    push_str(&mut id, dir_rel);
    Entity {
        id,
        kind: EntityKind::Directory,
        name: owned(name),
        component_id: None,
        path: Some(owned(dir_rel)),
        language: None,
        line_start: None,
        line_end: None,
        visibility: None,
        exported: false,
    }
}

/// The edge by which `parent` (the repository or a directory) contains
/// `child` (a directory or a file), recorded at the child's path.
pub open spec fn contains_edge_view(parent: Seq<char>, child: Seq<char>, child_path: Seq<char>) -> EdgeView {
    EdgeView {
        src_id: parent,
        rel: EdgeKind::Contains,
        dst_id: child,
        provenance_path: Some(child_path),
        provenance_line: None,
    }
}

/// The containment edge from a parent to a child (see
/// `contains_edge_view`).
pub fn contains_edge(parent: &str, child: &str, child_path: &str) -> (res: Edge)
    ensures
        res@ == contains_edge_view(parent@, child@, child_path@),
{
    Edge {
        src_id: owned(parent),
        rel: EdgeKind::Contains,
        dst_id: owned(child),
        provenance_path: Some(owned(child_path)),
        provenance_line: None,
    }
}

/// The entity of a component root found at `dir`, named by its manifest.
pub fn component_entity(root: &ComponentRoot, dir: &str) -> (res: Entity)
    ensures
        res@ == component_entity_view(*root, dir@),
{
    Entity {
        id: owned(root.id.as_str()),
        kind: EntityKind::Component,
        name: owned(root.display_name.as_str()),
        component_id: None,
        path: Some(owned(dir)),
        language: Some(owned(root.ecosystem.as_str())),
        line_start: None,
        line_end: None,
        visibility: Some(owned("pub")),
        exported: true,
    }
}

// ---------------------------------------------------------------------------
// Files
// ---------------------------------------------------------------------------

/// How a file is indexed.
#[derive(Debug, Clone, Copy, PartialEq, Eq, Structural)]
pub enum FileKind {
    PackageJson,
    Rust,
    TypeScript,
    Astro,
    Markdown,
    Terraform,
    Containerized,
    Unsupported,
}

/// What kind of file a file name denotes: `package.json` first, then by
/// extension, then container files by name.
pub open spec fn file_kind_of(name: Seq<char>) -> FileKind {
    if name == "package.json"@ {
        FileKind::PackageJson
    } else {
        match file_extension(name) {
            Some(e) => if e == "rs"@ {
                FileKind::Rust
            } else if e == "ts"@ || e == "tsx"@ {
                FileKind::TypeScript
            } else if e == "astro"@ {
                FileKind::Astro
            } else if e == "md"@ {
                FileKind::Markdown
            } else if e == "tf"@ || e == "hcl"@ {
                FileKind::Terraform
            } else {
                container_kind(name)
            },
            None => container_kind(name),
        }
    }
}

/// A Dockerfile or a docker-compose YAML file is containerised.
pub open spec fn container_kind(name: Seq<char>) -> FileKind {
    if contains_seq(name, "Dockerfile"@) || (starts_with(name, "docker-compose"@) && (ends_with(name, ".yml"@)
        || ends_with(name, ".yaml"@))) {
        FileKind::Containerized
    } else {
        FileKind::Unsupported
    }
}

fn container_kind_exec(name: &str) -> (res: FileKind)
    ensures
        res == container_kind(name@),
{
    let v = chars_of(name);
    let docker = chars_of("Dockerfile");
    let compose = chars_of("docker-compose");
    let yml = chars_of(".yml");
    let yaml = chars_of(".yaml");
    if crate::text::contains_chars(&v, &docker) || (crate::text::starts_with_chars(&v, &compose) && (
    crate::text::ends_with_chars(&v, &yml) || crate::text::ends_with_chars(&v, &yaml))) {
        FileKind::Containerized
    } else {
        FileKind::Unsupported
    }
}

/// What kind of file a file name denotes (see `file_kind_of`).
pub fn classify_file(name: &str) -> (res: FileKind)
    ensures
        res == file_kind_of(name@),
{
    if str_eq(name, "package.json") {
        return FileKind::PackageJson;
    }
    match extension_of(name) {
        Some(e) => {
            let e = e.as_str();
            if str_eq(e, "rs") {
                FileKind::Rust
            } else if str_eq(e, "ts") || str_eq(e, "tsx") {
                FileKind::TypeScript
            } else if str_eq(e, "astro") {
                FileKind::Astro
            } else if str_eq(e, "md") {
                FileKind::Markdown
            } else if str_eq(e, "tf") || str_eq(e, "hcl") {
                FileKind::Terraform
            } else {
                container_kind_exec(name)
            }
        },
        None => container_kind_exec(name),
    }
}

impl FileKind {
    /// The language recorded for a source file of this kind.
    pub open spec fn language_spec(self) -> Option<Seq<char>> {
        match self {
            FileKind::Rust => Some("rust"@),
            FileKind::TypeScript => Some("typescript"@),
            FileKind::Astro => Some("astro"@),
            FileKind::Terraform => Some("hcl"@),
            _ => None,
        }
    }

    /// The language recorded for a source file of this kind.
    pub fn language(&self) -> (res: Option<&'static str>)
        ensures
            match res {
                Some(s) => self.language_spec() == Some(s@),
                None => self.language_spec() is None,
            },
    {
        proof {
            reveal_strlit("rust");
            reveal_strlit("typescript");
            reveal_strlit("astro");
            reveal_strlit("hcl");
        }
        match self {
            FileKind::Rust => Some("rust"),
            FileKind::TypeScript => Some("typescript"),
            FileKind::Astro => Some("astro"),
            FileKind::Terraform => Some("hcl"),
            _ => None,
        }
    }
}

/// Whether a file must be indexed again: it has no record yet, or its
/// content hash or its component changed since it was recorded.
pub open spec fn needs_reindex_spec(existing: Option<FileRecord>, hash: Seq<char>, component_id: Option<Seq<char>>) -> bool {
    match existing {
        None => true,
        Some(r) => r.hash@ != hash || opt_view(r.component_id) != component_id,
    }
}

fn opt_str_eq(a: &Option<String>, b: &Option<String>) -> (res: bool)
    ensures
        res == (opt_view(*a) == opt_view(*b)),
{
    match (a, b) {
        (Some(x), Some(y)) => str_eq(x.as_str(), y.as_str()),
        (None, None) => true,
        _ => false,
    }
}

/// Whether a file must be indexed again (see `needs_reindex_spec`).
pub fn needs_reindex(existing: &Option<FileRecord>, hash: &str, component_id: &Option<String>) -> (res: bool)
    ensures
        res == needs_reindex_spec(*existing, hash@, opt_view(*component_id)),
{
    match existing {
        None => true,
        Some(r) => !str_eq(r.hash.as_str(), hash) || !opt_str_eq(&r.component_id, component_id),
    }
}

/// The title of a document: from its front matter, else its file stem,
/// else `untitled`.
pub open spec fn doc_title_spec(content: Seq<char>, file_name: Option<Seq<char>>) -> Seq<char> {
    match frontmatter_title(content) {
        Some(t) => t,
        None => match file_name {
            Some(n) => file_stem(n),
            None => "untitled"@,
        },
    }
}

/// The title of a document (see `doc_title_spec`).
pub fn doc_title(content: &str, file_name: &Option<String>) -> (res: String)
    ensures
        res@ == doc_title_spec(content@, opt_view(*file_name)),
{
    proof {
        reveal_strlit("untitled");
    }
    match parse_frontmatter_title(content) {
        Some(t) => t,
        None => match file_name {
            Some(n) => stem_of(n.as_str()),
            None => owned("untitled"),
        },
    }
}

/// The name of the infrastructure root of a directory: `root` for the
/// repository root.
pub open spec fn infra_root_name_spec(rel_dir: Seq<char>) -> Seq<char> {
    if rel_dir.len() == 0 {
        "root"@
    } else {
        rel_dir
    }
}

/// The name of the infrastructure root of a directory.
pub fn infra_root_name(rel_dir: &str) -> (res: String)
    ensures
        res@ == infra_root_name_spec(rel_dir@),
{
    proof {
        reveal_strlit("root");
    }
    if chars_of(rel_dir).len() == 0 {
        owned("root")
    } else {
        owned(rel_dir)
    }
}

/// Whether a stored infrastructure root is current: it exists and has the
/// same component.
pub fn infra_root_current(existing: &Option<Entity>, component_id: &Option<String>) -> (res: bool)
    ensures
        res == (existing matches Some(e) && opt_view(e.component_id) == opt_view(*component_id)),
{
    match existing {
        Some(e) => opt_str_eq(&e.component_id, component_id),
        None => false,
    }
}

// ---------------------------------------------------------------------------
// Package manifests
// ---------------------------------------------------------------------------

/// The component a dependency names: a component of the repository with
/// that npm name, else the external package.
pub open spec fn dependency_target(aliases: Seq<(String, String, String)>, dep: Seq<char>) -> Seq<char> {
    match lookup_name(aliases, "npm"@, dep) {
        Some(id) => id@,
        None => "external::npm::"@ + dep,
    }
}

pub open spec fn dependency_edge(
    aliases: Seq<(String, String, String)>,
    component: Seq<char>,
    dep: Seq<char>,
    manifest: Seq<char>,
) -> EdgeView {
    EdgeView {
        src_id: component,
        rel: EdgeKind::DependsOn,
        dst_id: dependency_target(aliases, dep),
        provenance_path: Some(manifest),
        provenance_line: None,
    }
}

/// The `DependsOn` edges of a package manifest: one per dependency, from
/// the manifest's component; none when the manifest has no component.
pub fn package_dependency_edges(
    registry: &ComponentRegistry,
    component_id: &Option<String>,
    deps: &Vec<String>,
    manifest: &str,
) -> (res: Vec<Edge>)
    ensures
        edge_views(res@) == match opt_view(*component_id) {
            None => Seq::empty(),
            Some(c) => string_views(deps@).map_values(|d: Seq<char>| dependency_edge(registry.aliases(), c, d, manifest@)),
        },
{
    proof {
        reveal_strlit("npm");
        reveal_strlit("external::npm::");
    }
    let mut res: Vec<Edge> = Vec::new();
    let comp = match component_id {
        None => {
            assert(edge_views(res@) == Seq::<EdgeView>::empty());
            return res;
        },
        Some(c) => c,
    };
    let ghost ds = string_views(deps@);
    let mut i: usize = 0;
    while i < deps.len()
        invariant
            i <= deps@.len(),
            ds == string_views(deps@),
            opt_view(*component_id) == Some(comp@),
            edge_views(res@) == ds.take(i as int).map_values(|d: Seq<char>| dependency_edge(registry.aliases(), comp@, d, manifest@)),
        decreases deps.len() - i,
    {
        let dep = deps[i].as_str();
        assert(ds[i as int] == dep@);
        let target = match registry.resolve_name(dep, "npm") {
            Some(id) => owned(id.as_str()),
            None => {
                let mut t = owned("external::npm::");
                push_str(&mut t, dep);
                t
            },
        };
        let ghost before = edge_views(res@);
        res.push(Edge {
            src_id: owned(comp.as_str()),
            rel: EdgeKind::DependsOn,
            dst_id: target,
            provenance_path: Some(owned(manifest)),
            provenance_line: None,
        });
        assert(edge_views(res@) == before.push(dependency_edge(registry.aliases(), comp@, dep@, manifest@)));
        i += 1;
        assert(ds.take(i as int).map_values(|d: Seq<char>| dependency_edge(registry.aliases(), comp@, d, manifest@))
            == ds.take(i - 1).map_values(|d: Seq<char>| dependency_edge(registry.aliases(), comp@, d, manifest@)).push(
            dependency_edge(registry.aliases(), comp@, ds[i - 1], manifest@),
        ));
    }
    assert(ds.take(deps@.len() as int) == ds);
    res
}

/// The `Contains` edges from a workspace's component to its members that
/// are registered components, in order.
pub open spec fn workspace_edges_spec(
    roots: Seq<ComponentRoot>,
    component: Seq<char>,
    dirs: Seq<Seq<char>>,
    manifest: Seq<char>,
) -> Seq<EdgeView>
    decreases dirs.len(),
{
    if dirs.len() == 0 {
        Seq::empty()
    } else {
        let init = workspace_edges_spec(roots, component, dirs.drop_last(), manifest);
        match lookup_path(roots, dirs.last()) {
            Some(r) => init.push(
                EdgeView {
                    src_id: component,
                    rel: EdgeKind::Contains,
                    dst_id: r.id@,
                    provenance_path: Some(manifest),
                    provenance_line: None,
                },
            ),
            None => init,
        }
    }
}

/// The `Contains` edges of a workspace manifest (see
/// `workspace_edges_spec`); none when the manifest has no component.
pub fn workspace_edges(
    registry: &ComponentRegistry,
    component_id: &Option<String>,
    member_dirs: &Vec<String>,
    manifest: &str,
) -> (res: Vec<Edge>)
    ensures
        edge_views(res@) == match opt_view(*component_id) {
            None => Seq::empty(),
            Some(c) => workspace_edges_spec(registry.roots(), c, string_views(member_dirs@), manifest@),
        },
{
    let mut res: Vec<Edge> = Vec::new();
    let comp = match component_id {
        None => {
            assert(edge_views(res@) == Seq::<EdgeView>::empty());
            return res;
        },
        Some(c) => c,
    };
    let ghost ds = string_views(member_dirs@);
    let mut i: usize = 0;
    assert(ds.take(0) == Seq::<Seq<char>>::empty());
    while i < member_dirs.len()
        invariant
            i <= member_dirs@.len(),
            ds == string_views(member_dirs@),
            opt_view(*component_id) == Some(comp@),
            edge_views(res@) == workspace_edges_spec(registry.roots(), comp@, ds.take(i as int), manifest@),
        decreases member_dirs.len() - i,
    {
        assert(ds.take(i + 1).drop_last() == ds.take(i as int));
        assert(ds.take(i + 1).last() == member_dirs@[i as int]@);
        match registry.get_by_path(member_dirs[i].as_str()) {
            Some(r) => {
                res.push(Edge {
                    src_id: owned(comp.as_str()),
                    rel: EdgeKind::Contains,
                    dst_id: owned(r.id.as_str()),
                    provenance_path: Some(owned(manifest)),
                    provenance_line: None,
                });
            },
            None => {},
        }
        i += 1;
    }
    assert(ds.take(member_dirs@.len() as int) == ds);
    res
}

// ---------------------------------------------------------------------------
// What is left over
// ---------------------------------------------------------------------------

/// The ids of the entities recorded at a path, in order.
pub open spec fn ids_at_path(es: Seq<Entity>, path: Seq<char>) -> Seq<Seq<char>>
    decreases es.len(),
{
    if es.len() == 0 {
        Seq::empty()
    } else {
        let init = ids_at_path(es.drop_last(), path);
        if opt_view(es.last().path) == Some(path) {
            init.push(es.last().id@)
        } else {
            init
        }
    }
}

/// The ids of the entities recorded at a path (those a re-index of the file
/// removes first).
pub fn entities_at_path(entities: &Vec<Entity>, path: &str) -> (res: Vec<String>)
    ensures
        string_views(res@) == ids_at_path(entities@, path@),
{
    let mut res: Vec<String> = Vec::new();
    let mut i: usize = 0;
    assert(entities@.take(0) == Seq::<Entity>::empty());
    while i < entities.len()
        invariant
            i <= entities@.len(),
            string_views(res@) == ids_at_path(entities@.take(i as int), path@),
        decreases entities.len() - i,
    {
        assert(entities@.take(i + 1).drop_last() == entities@.take(i as int));
        assert(entities@.take(i + 1).last() == entities@[i as int]);
        let e = &entities[i];
        let here = match &e.path {
            Some(p) => str_eq(p.as_str(), path),
            None => false,
        };
        if here {
            let ghost before = string_views(res@);
            res.push(owned(e.id.as_str()));
            assert(string_views(res@) == before.push(e.id@));
        }
        i += 1;
    }
    assert(entities@.take(entities@.len() as int) == entities@);
    res
}

/// The paths of the recorded files that were not seen by the walk.
pub open spec fn deleted_paths(stored: Seq<FileRecord>, seen: Seq<Seq<char>>) -> Seq<Seq<char>>
    decreases stored.len(),
{
    if stored.len() == 0 {
        Seq::empty()
    } else {
        let init = deleted_paths(stored.drop_last(), seen);
        if seen.contains(stored.last().path@) {
            init
        } else {
            init.push(stored.last().path@)
        }
    }
}

/// The paths of the recorded files that the walk did not see, in order.
pub fn deleted_files(stored: &Vec<FileRecord>, seen: &Vec<String>) -> (res: Vec<String>)
    ensures
        string_views(res@) == deleted_paths(stored@, string_views(seen@)),
{
    let mut res: Vec<String> = Vec::new();
    let mut i: usize = 0;
    assert(stored@.take(0) == Seq::<FileRecord>::empty());
    while i < stored.len()
        invariant
            i <= stored@.len(),
            string_views(res@) == deleted_paths(stored@.take(i as int), string_views(seen@)),
        decreases stored.len() - i,
    {
        assert(stored@.take(i + 1).drop_last() == stored@.take(i as int));
        assert(stored@.take(i + 1).last() == stored@[i as int]);
        let f = &stored[i];
        if !contains_string(seen, f.path.as_str()) {
            let ghost before = string_views(res@);
            res.push(owned(f.path.as_str()));
            assert(string_views(res@) == before.push(f.path@));
        }
        i += 1;
    }
    assert(stored@.take(stored@.len() as int) == stored@);
    res
}

/// Whether some root has this id.
pub open spec fn is_root_id(roots: Seq<ComponentRoot>, id: Seq<char>) -> bool {
    exists|k: int| 0 <= k < roots.len() && (#[trigger] roots[k]).id@ == id
}

/// The ids of the component entities that no registered root has.
pub open spec fn orphan_ids(es: Seq<Entity>, roots: Seq<ComponentRoot>) -> Seq<Seq<char>>
    decreases es.len(),
{
    if es.len() == 0 {
        Seq::empty()
    } else {
        let init = orphan_ids(es.drop_last(), roots);
        let e = es.last();
        if e.kind == EntityKind::Component && !is_root_id(roots, e.id@) {
            init.push(e.id@)
        } else {
            init
        }
    }
}

fn has_root_id(registry: &ComponentRegistry, id: &str) -> (res: bool)
    ensures
        res == is_root_id(registry.roots(), id@),
{
    let roots = registry.root_list();
    let mut k: usize = 0;
    while k < roots.len()
        invariant
            k <= roots@.len(),
            roots@ == registry.roots(),
            forall|j: int| 0 <= j < k ==> (#[trigger] roots@[j]).id@ != id@,
        decreases roots.len() - k,
    {
        if str_eq(roots[k].id.as_str(), id) {
            return true;
        }
        k += 1;
    }
    false
}

/// The ids of the component entities whose root is no longer registered, in
/// order.
pub fn orphaned_components(entities: &Vec<Entity>, registry: &ComponentRegistry) -> (res: Vec<String>)
    ensures
        string_views(res@) == orphan_ids(entities@, registry.roots()),
{
    let mut res: Vec<String> = Vec::new();
    let mut i: usize = 0;
    assert(entities@.take(0) == Seq::<Entity>::empty());
    while i < entities.len()
        invariant
            i <= entities@.len(),
            string_views(res@) == orphan_ids(entities@.take(i as int), registry.roots()),
        decreases entities.len() - i,
    {
        assert(entities@.take(i + 1).drop_last() == entities@.take(i as int));
        assert(entities@.take(i + 1).last() == entities@[i as int]);
        let e = &entities[i];
        let is_component = match e.kind {
            EntityKind::Component => true,
            _ => false,
        };
        if is_component && !has_root_id(registry, e.id.as_str()) {
            let ghost before = string_views(res@);
            res.push(owned(e.id.as_str()));
            assert(string_views(res@) == before.push(e.id@));
        }
        i += 1;
    }
    assert(entities@.take(entities@.len() as int) == entities@);
    res
}

/// The first symbol with a name.
pub open spec fn first_symbol_named(es: Seq<Entity>, name: Seq<char>) -> Option<int>
    decreases es.len(),
{
    if es.len() == 0 {
        None
    } else if es[0].kind == EntityKind::Symbol && es[0].name@ == name {
        Some(0)
    } else {
        match first_symbol_named(es.drop_first(), name) {
            None => None,
            Some(j) => Some(j + 1),
        }
    }
}

/// The id of the first symbol entity with the given name, if any.
pub fn find_symbol_by_name(entities: &Vec<Entity>, name: &str) -> (res: Option<String>)
    ensures
        match first_symbol_named(entities@, name@) {
            None => res is None,
            Some(j) => res matches Some(id) && id@ == entities@[j].id@,
        },
{
    let mut i: usize = 0;
    assert(entities@.skip(0) == entities@);
    while i < entities.len()
        invariant
            i <= entities@.len(),
            first_symbol_named(entities@, name@) == match first_symbol_named(entities@.skip(i as int), name@) {
                None => None,
                Some(j) => Some(j + i),
            },
        decreases entities.len() - i,
    {
        assert(entities@.skip(i as int)[0] == entities@[i as int]);
        assert(entities@.skip(i as int).drop_first() == entities@.skip(i + 1));
        let e = &entities[i];
        let is_symbol = match e.kind {
            EntityKind::Symbol => true,
            _ => false,
        };
        if is_symbol && str_eq(e.name.as_str(), name) {
            return Some(owned(e.id.as_str()));
        }
        i += 1;
    }
    None
}

} // verus!
