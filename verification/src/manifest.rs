//! TOML manifests read as trees of plain values: the tasks of a
//! `mise.toml` and the component root that a `Cargo.toml` declares.

use vstd::prelude::*;
use crate::model::id::component_id;
use crate::registry::ComponentRoot;
use crate::text::{owned, push_str, str_eq};

verus! {

/// A TOML value as far as manifests are read: strings, tables (their
/// entries in the order the parser gives them), arrays, and other values.
#[derive(Debug)]
pub enum TomlNode {
    Str(String),
    Table(Vec<TomlEntry>),
    Array(Vec<TomlNode>),
    Other,
}

/// One key of a TOML table with its value.
#[derive(Debug)]
pub struct TomlEntry {
    pub key: String,
    pub value: TomlNode,
}

/// The top-level table that the TOML parser makes of a document, or `None`
/// when the text is not a TOML document.
pub uninterp spec fn toml_document(text: Seq<char>) -> Option<Seq<TomlEntry>>;

#[verifier::external_type_specification]
#[verifier::external_body]
pub struct ExTomlValue(toml::Value);

/// Converts a parsed TOML value into a `TomlNode`, one value for one.
#[verifier::external_body]
fn node_of(v: &toml::Value) -> TomlNode {
    match v {
        toml::Value::String(s) => TomlNode::Str(s.clone()),
        toml::Value::Table(t) => TomlNode::Table(
            t.iter().map(|(k, x)| TomlEntry { key: k.clone(), value: node_of(x) }).collect(),
        ),
        toml::Value::Array(a) => TomlNode::Array(a.iter().map(node_of).collect()),
        _ => TomlNode::Other,
    }
}

/// `toml::from_str::<toml::Table>`: the document's top-level table, or the
/// parser's error message. Its result is named by `toml_document`; the text
/// of the message is not stated.
#[verifier::external_body]
fn parse_toml(content: &str) -> (res: Result<Vec<TomlEntry>, String>)
    ensures
        match res {
            Ok(t) => toml_document(content@) == Some(t@),
            Err(_) => toml_document(content@) is None,
        },
{
    match toml::from_str::<toml::Table>(content) {
        Ok(t) => Ok(t.iter().map(|(k, x)| TomlEntry { key: k.clone(), value: node_of(x) }).collect()),
        Err(e) => Err(e.to_string()),
    }
}

/// The value of the first entry with a key.
pub open spec fn lookup(table: Seq<TomlEntry>, key: Seq<char>) -> Option<TomlNode>
    decreases table.len(),
{
    if table.len() == 0 {
        None
    } else if table[0].key@ == key {
        Some(table[0].value)
    } else {
        lookup(table.drop_first(), key)
    }
}

fn get<'a>(table: &'a Vec<TomlEntry>, key: &str) -> (res: Option<&'a TomlNode>)
    ensures
        match lookup(table@, key@) {
            Some(v) => res matches Some(r) && *r == v,
            None => res is None,
        },
{
    let mut i: usize = 0;
    assert(table@.skip(0) == table@);
    while i < table.len()
        invariant
            i <= table@.len(),
            lookup(table@, key@) == lookup(table@.skip(i as int), key@),
        decreases table.len() - i,
    {
        assert(table@.skip(i as int)[0] == table@[i as int]);
        assert(table@.skip(i as int).drop_first() == table@.skip(i + 1));
        if str_eq(table[i].key.as_str(), key) {
            return Some(&table[i].value);
        }
        i += 1;
    }
    None
}

// ---------------------------------------------------------------------------
// mise.toml
// ---------------------------------------------------------------------------

/// A task declared in `mise.toml`.
#[derive(Debug, Clone, PartialEq, Eq)]
pub struct MiseTask {
    pub name: String,
}

/// The tasks of a `mise.toml`.
#[derive(Debug, Clone, PartialEq, Eq)]
pub struct MiseConfig {
    pub tasks: Vec<MiseTask>,
}

/// The name of a task under a group: `{prefix}:{key}`, or the key alone at
/// the top.
pub open spec fn task_name(prefix: Seq<char>, key: Seq<char>) -> Seq<char> {
    if prefix.len() == 0 {
        key
    } else {
        prefix + ":"@ + key
    }
}

/// The task names that a table of tasks declares, in order: a string is a
/// command; a table with `run` or `cmd` is a task; any other table is a
/// group whose tasks are named under it; other values declare nothing.
pub open spec fn task_names(table: Seq<TomlEntry>, prefix: Seq<char>) -> Seq<Seq<char>>
    decreases table,
{
    if table.len() == 0 {
        Seq::empty()
    } else {
        let e = table[0];
        let name = task_name(prefix, e.key@);
        let here = match e.value {
            TomlNode::Str(_) => seq![name],
            TomlNode::Table(inner) => if lookup(inner@, "run"@) is Some || lookup(inner@, "cmd"@) is Some {
                seq![name]
            } else {
                proof {
                    assert(decreases_to!(table => table[0]));
                    assert(decreases_to!(table[0] => table[0].value));
                }
                task_names(inner@, name)
            },
            _ => Seq::empty(),
        };
        here + task_names(table.drop_first(), prefix)
    }
}

pub open spec fn task_views(tasks: Seq<MiseTask>) -> Seq<Seq<char>> {
    tasks.map_values(|t: MiseTask| t.name@)
}

/// Append the tasks that a table of tasks declares, named under `prefix`
/// (see `task_names`).
pub fn collect_tasks(table: &Vec<TomlEntry>, prefix: &str, tasks: &mut Vec<MiseTask>)
    ensures
        task_views(final(tasks)@) == task_views(old(tasks)@) + task_names(table@, prefix@),
    decreases table@,
{
    proof {
        reveal_strlit("run");
        reveal_strlit("cmd");
        reveal_strlit(":");
    }
    let ghost start = task_views(tasks@);
    let mut i: usize = 0;
    assert(table@.skip(0) == table@);
    while i < table.len()
        invariant
            i <= table@.len(),
            task_views(tasks@) + task_names(table@.skip(i as int), prefix@) == start + task_names(table@, prefix@),
        decreases table.len() - i,
    {
        let e = &table[i];
        assert(table@.skip(i as int)[0] == table@[i as int]);
        assert(table@.skip(i as int).drop_first() == table@.skip(i + 1));
        let name = if crate::text::chars_of(prefix).len() == 0 {
            owned(e.key.as_str())
        } else {
            let mut n = owned(prefix);
            push_str(&mut n, ":");
            push_str(&mut n, e.key.as_str());
            n
        };
        let ghost before = task_views(tasks@);
        match &e.value {
            TomlNode::Str(_) => {
                tasks.push(MiseTask { name });
                assert(task_views(tasks@) == before + seq![name@]);
            },
            TomlNode::Table(inner) => {
                if get(inner, "run").is_some() || get(inner, "cmd").is_some() {
                    tasks.push(MiseTask { name });
                    assert(task_views(tasks@) == before + seq![name@]);
                } else {
                    proof {
                        assert(decreases_to!(table@ => table@[i as int]));
                    }
                    collect_tasks(inner, name.as_str(), tasks);
                }
            },
            _ => {
                assert(task_views(tasks@) == before + Seq::<Seq<char>>::empty());
            },
        }
        i += 1;
    }
    assert(table@.skip(table@.len() as int) == Seq::<TomlEntry>::empty());
}

/// The tasks of a `mise.toml` document: those of its `tasks` table.
pub open spec fn mise_task_names(doc: Seq<TomlEntry>) -> Seq<Seq<char>> {
    match lookup(doc, "tasks"@) {
        Some(TomlNode::Table(t)) => task_names(t@, Seq::empty()),
        _ => Seq::empty(),
    }
}

/// The tasks of a parsed `mise.toml` document (see `mise_task_names`).
pub fn mise_config(doc: &Vec<TomlEntry>) -> (res: MiseConfig)
    ensures
        task_views(res.tasks@) == mise_task_names(doc@),
{
    let mut tasks: Vec<MiseTask> = Vec::new();
    assert(task_views(tasks@) == Seq::<Seq<char>>::empty());
    match get(doc, "tasks") {
        Some(TomlNode::Table(t)) => {
            proof {
                reveal_strlit("");
                assert(""@ =~= Seq::<char>::empty());
            }
            collect_tasks(t, "", &mut tasks);
        },
        _ => {},
    }
    MiseConfig { tasks }
}

/// Read the tasks of a `mise.toml` from its text: `Err` with the parser's
/// message, prefixed by `mise.toml: `, when it is not TOML.
pub fn parse_mise(content: &str) -> (res: Result<MiseConfig, String>)
    ensures
        match toml_document(content@) {
            Some(doc) => res matches Ok(c) && task_views(c.tasks@) == mise_task_names(doc),
            None => res matches Err(m) && crate::text::starts_with(m@, "mise.toml: "@),
        },
{
    match parse_toml(content) {
        Ok(doc) => Ok(mise_config(&doc)),
        Err(e) => {
            proof {
                reveal_strlit("mise.toml: ");
            }
            let mut m = owned("mise.toml: ");
            push_str(&mut m, e.as_str());
            assert(m@.take(11) == "mise.toml: "@);
            Err(m)
        },
    }
}

// ---------------------------------------------------------------------------
// Cargo.toml
// ---------------------------------------------------------------------------

/// The package name of a manifest: `package.name` when it is a string,
/// else `unknown`.
pub open spec fn cargo_package_name(doc: Seq<TomlEntry>) -> Seq<char> {
    match lookup(doc, "package"@) {
        Some(TomlNode::Table(p)) => match lookup(p@, "name"@) {
            Some(TomlNode::Str(n)) => n@,
            _ => "unknown"@,
        },
        _ => "unknown"@,
    }
}

/// The strings of an array, in order; other values are left out.
pub open spec fn array_strings(items: Seq<TomlNode>) -> Seq<Seq<char>>
    decreases items.len(),
{
    if items.len() == 0 {
        Seq::empty()
    } else {
        let init = array_strings(items.drop_last());
        match items.last() {
            TomlNode::Str(s) => init.push(s@),
            _ => init,
        }
    }
}

/// The workspace member globs of a manifest: the strings of
/// `workspace.members` when it is an array.
pub open spec fn cargo_workspace_globs(doc: Seq<TomlEntry>) -> Option<Seq<Seq<char>>> {
    match lookup(doc, "workspace"@) {
        Some(TomlNode::Table(w)) => match lookup(w@, "members"@) {
            Some(TomlNode::Array(a)) => Some(array_strings(a@)),
            _ => None,
        },
        _ => None,
    }
}

fn strings_of(items: &Vec<TomlNode>) -> (res: Vec<String>)
    ensures
        crate::paths::string_views(res@) == array_strings(items@),
{
    let mut res: Vec<String> = Vec::new();
    let mut i: usize = 0;
    assert(items@.take(0) == Seq::<TomlNode>::empty());
    while i < items.len()
        invariant
            i <= items@.len(),
            crate::paths::string_views(res@) == array_strings(items@.take(i as int)),
        decreases items.len() - i,
    {
        assert(items@.take(i + 1).drop_last() == items@.take(i as int));
        assert(items@.take(i + 1).last() == items@[i as int]);
        match &items[i] {
            TomlNode::Str(s) => {
                let ghost before = crate::paths::string_views(res@);
                res.push(owned(s.as_str()));
                assert(crate::paths::string_views(res@) == before.push(s@));
            },
            _ => {},
        }
        i += 1;
    }
    assert(items@.take(items@.len() as int) == items@);
    res
}

pub open spec fn opt_strings_view(o: Option<Vec<String>>) -> Option<Seq<Seq<char>>> {
    match o {
        Some(v) => Some(crate::paths::string_views(v@)),
        None => None,
    }
}

/// The component root that a parsed `Cargo.toml` in directory `dir`
/// declares: id `component::cargo::{dir}`, named by its package.
pub fn cargo_component_root(doc: &Vec<TomlEntry>, dir: &str) -> (res: ComponentRoot)
    ensures
        res.id@ == crate::model::id::component_id_text("cargo"@, dir@),
        res.ecosystem@ == "cargo"@,
        res.root_path@ == dir@,
        res.display_name@ == cargo_package_name(doc@),
        opt_strings_view(res.workspace_globs) == cargo_workspace_globs(doc@),
{
    proof {
        reveal_strlit("unknown");
    }
    let name = match get(doc, "package") {
        Some(TomlNode::Table(p)) => match get(p, "name") {
            Some(TomlNode::Str(n)) => owned(n.as_str()),
            _ => owned("unknown"),
        },
        _ => owned("unknown"),
    };
    let globs = match get(doc, "workspace") {
        Some(TomlNode::Table(w)) => match get(w, "members") {
            Some(TomlNode::Array(a)) => Some(strings_of(a)),
            _ => None,
        },
        _ => None,
    };
    ComponentRoot {
        id: component_id("cargo", dir),
        ecosystem: owned("cargo"),
        root_path: owned(dir),
        display_name: name,
        workspace_globs: globs,
    }
}

fn copy_strings(v: &Vec<String>) -> (res: Vec<String>)
    ensures
        crate::paths::string_views(res@) == crate::paths::string_views(v@),
{
    let mut res: Vec<String> = Vec::new();
    let mut i: usize = 0;
    while i < v.len()
        invariant
            i <= v@.len(),
            crate::paths::string_views(res@) == crate::paths::string_views(v@.take(i as int)),
        decreases v.len() - i,
    {
        let ghost before = crate::paths::string_views(res@);
        res.push(owned(v[i].as_str()));
        assert(crate::paths::string_views(res@) == before.push(v@[i as int]@));
        assert(v@.take(i + 1) == v@.take(i as int).push(v@[i as int]));
        i += 1;
    }
    assert(v@.take(v@.len() as int) == v@);
    res
}

/// The component root that a `package.json` in directory `dir` declares:
/// id `component::npm::{dir}`, named by its package, or by the directory's
/// own name `dir_name` when it has none, with the workspace globs it lists.
pub fn npm_component_root(
    dir: &str,
    dir_name: &str,
    name: &Option<String>,
    workspaces: &Option<Vec<String>>,
) -> (res: ComponentRoot)
    ensures
        res.id@ == crate::model::id::component_id_text("npm"@, dir@),
        res.ecosystem@ == "npm"@,
        res.root_path@ == dir@,
        res.display_name@ == match name {
            Some(n) => n@,
            None => dir_name@,
        },
        opt_strings_view(res.workspace_globs) == opt_strings_view(*workspaces),
{
    let display_name = match name {
        Some(n) => owned(n.as_str()),
        None => owned(dir_name),
    };
    let globs = match workspaces {
        Some(w) => Some(copy_strings(w)),
        None => None,
    };
    ComponentRoot {
        id: component_id("npm", dir),
        ecosystem: owned("npm"),
        root_path: owned(dir),
        display_name,
        workspace_globs: globs,
    }
}

/// The component root that the text of a `Cargo.toml` in directory `dir`
/// declares; `None` when the text is not TOML.
pub fn cargo_manifest_root(content: &str, dir: &str) -> (res: Option<ComponentRoot>)
    ensures
        match toml_document(content@) {
            None => res is None,
            Some(doc) => res matches Some(r) && r.root_path@ == dir@ && r.display_name@ == cargo_package_name(doc)
                && r.id@ == crate::model::id::component_id_text("cargo"@, dir@) && r.ecosystem@ == "cargo"@
                && opt_strings_view(r.workspace_globs) == cargo_workspace_globs(doc),
        },
{
    match parse_toml(content) {
        Ok(doc) => Some(cargo_component_root(&doc, dir)),
        Err(_) => None,
    }
}

/// The root that the `Cargo.toml` text `text` in directory `dir` declares,
/// described by its fields.
pub open spec fn declares_root(r: ComponentRoot, dir: Seq<char>, text: Seq<char>) -> bool {
    &&& toml_document(text) is Some
    &&& r.root_path@ == dir
    &&& r.ecosystem@ == "cargo"@
    &&& r.id@ == crate::model::id::component_id_text("cargo"@, dir)
    &&& r.display_name@ == cargo_package_name(toml_document(text)->0)
    &&& opt_strings_view(r.workspace_globs) == cargo_workspace_globs(toml_document(text)->0)
}

/// The position of the last manifest, given as (directory, text), for
/// directory `dir` whose text is TOML.
pub open spec fn last_manifest_at(manifests: Seq<(String, String)>, dir: Seq<char>) -> Option<int>
    decreases manifests.len(),
{
    if manifests.len() == 0 {
        None
    } else {
        let m = manifests.last();
        if m.0@ == dir && toml_document(m.1@) is Some {
            Some(manifests.len() - 1)
        } else {
            last_manifest_at(manifests.drop_last(), dir)
        }
    }
}

/// The position of the last manifest whose text is TOML and whose package
/// is named `name`.
pub open spec fn last_manifest_named(manifests: Seq<(String, String)>, name: Seq<char>) -> Option<int>
    decreases manifests.len(),
{
    if manifests.len() == 0 {
        None
    } else {
        let m = manifests.last();
        if toml_document(m.1@) is Some && cargo_package_name(toml_document(m.1@)->0) == name {
            Some(manifests.len() - 1)
        } else {
            last_manifest_named(manifests.drop_last(), name)
        }
    }
}

proof fn lemma_last_manifest_range(manifests: Seq<(String, String)>, dir: Seq<char>, name: Seq<char>)
    ensures
        last_manifest_at(manifests, dir) matches Some(i) ==> 0 <= i < manifests.len() && manifests[i].0@ == dir
            && toml_document(manifests[i].1@) is Some,
        last_manifest_named(manifests, name) matches Some(i) ==> 0 <= i < manifests.len() && toml_document(
            manifests[i].1@,
        ) is Some && cargo_package_name(toml_document(manifests[i].1@)->0) == name,
    decreases manifests.len(),
{
    if manifests.len() > 0 {
        lemma_last_manifest_range(manifests.drop_last(), dir, name);
    }
}

/// The component roots that the `Cargo.toml` manifests of a repository
/// declare, given as (directory, text) in the order the walk found them:
/// each manifest whose text is TOML adds its root (replacing an earlier
/// root of the same directory) and makes its package name an alias of the
/// root's id; a manifest that is not TOML is passed over.
pub fn discover_component_roots(manifests: &Vec<(String, String)>) -> (res: crate::registry::ComponentRegistry)
    ensures
        res.wf(),
        forall|p: Seq<char>|
            match #[trigger] last_manifest_at(manifests@, p) {
                None => crate::registry::lookup_path(res.roots(), p) is None,
                Some(i) => crate::registry::lookup_path(res.roots(), p) matches Some(r) && declares_root(
                    r,
                    p,
                    manifests@[i].1@,
                ),
            },
        forall|e: Seq<char>, n: Seq<char>|
            #![trigger crate::registry::lookup_name(res.aliases(), e, n)]
            match last_manifest_named(manifests@, n) {
                Some(i) if e == "cargo"@ => crate::registry::lookup_name(res.aliases(), e, n) matches Some(id) && id@
                    == crate::model::id::component_id_text("cargo"@, manifests@[i].0@),
                _ => crate::registry::lookup_name(res.aliases(), e, n) is None,
            },
{
    let mut reg = crate::registry::ComponentRegistry::new();
    let mut k: usize = 0;
    assert(manifests@.take(0) =~= Seq::<(String, String)>::empty());
    while k < manifests.len()
        invariant
            k <= manifests@.len(),
            reg.wf(),
            forall|p: Seq<char>|
                match #[trigger] last_manifest_at(manifests@.take(k as int), p) {
                    None => crate::registry::lookup_path(reg.roots(), p) is None,
                    Some(i) => crate::registry::lookup_path(reg.roots(), p) matches Some(r) && declares_root(
                        r,
                        p,
                        manifests@[i].1@,
                    ),
                },
            forall|e: Seq<char>, n: Seq<char>|
                #![trigger crate::registry::lookup_name(reg.aliases(), e, n)]
                match last_manifest_named(manifests@.take(k as int), n) {
                    Some(i) if e == "cargo"@ => crate::registry::lookup_name(reg.aliases(), e, n) matches Some(id)
                        && id@ == crate::model::id::component_id_text("cargo"@, manifests@[i].0@),
                    _ => crate::registry::lookup_name(reg.aliases(), e, n) is None,
                },
        decreases manifests.len() - k,
    {
        let ghost pre = manifests@.take(k as int);
        let ghost cur = manifests@.take(k + 1);
        assert(cur.drop_last() =~= pre);
        assert(cur.last() == manifests@[k as int]);
        let ghost before = reg;
        let (dir, text) = (&manifests[k].0, &manifests[k].1);
        match cargo_manifest_root(text.as_str(), dir.as_str()) {
            Some(root) => {
                let ghost r = root;
                reg.insert(root);
                proof {
                    assert forall|p: Seq<char>|
                        match #[trigger] last_manifest_at(cur, p) {
                            None => crate::registry::lookup_path(reg.roots(), p) is None,
                            Some(i) => crate::registry::lookup_path(reg.roots(), p) matches Some(x) && declares_root(
                                x,
                                p,
                                manifests@[i].1@,
                            ),
                        } by {
                        lemma_last_manifest_range(pre, p, Seq::empty());
                        if p == dir@ {
                            assert(last_manifest_at(cur, p) == Some(k as int));
                        } else {
                            assert(last_manifest_at(cur, p) == last_manifest_at(pre, p));
                            if let Some(i) = last_manifest_at(pre, p) {
                                assert(pre[i] == manifests@[i]);
                            }
                        }
                    }
                    assert forall|e: Seq<char>, n: Seq<char>|
                        #![trigger crate::registry::lookup_name(reg.aliases(), e, n)]
                        match last_manifest_named(cur, n) {
                            Some(i) if e == "cargo"@ => crate::registry::lookup_name(reg.aliases(), e, n) matches Some(
                                id,
                            ) && id@ == crate::model::id::component_id_text("cargo"@, manifests@[i].0@),
                            _ => crate::registry::lookup_name(reg.aliases(), e, n) is None,
                        } by {
                        lemma_last_manifest_range(pre, Seq::empty(), n);
                        assert(crate::registry::lookup_name(before.aliases(), e, n) == crate::registry::lookup_name(
                            before.aliases(),
                            e,
                            n,
                        ));
                        if n == r.display_name@ {
                            assert(last_manifest_named(cur, n) == Some(k as int));
                        } else {
                            assert(last_manifest_named(cur, n) == last_manifest_named(pre, n));
                            if let Some(i) = last_manifest_named(pre, n) {
                                assert(pre[i] == manifests@[i]);
                            }
                        }
                    }
                }
            },
            None => {
                proof {
                    assert forall|p: Seq<char>| #[trigger] last_manifest_at(cur, p) == last_manifest_at(pre, p) by {}
                    assert forall|n: Seq<char>| #[trigger] last_manifest_named(cur, n) == last_manifest_named(pre, n) by {}
                    assert forall|p: Seq<char>|
                        match #[trigger] last_manifest_at(cur, p) {
                            None => crate::registry::lookup_path(reg.roots(), p) is None,
                            Some(i) => crate::registry::lookup_path(reg.roots(), p) matches Some(x) && declares_root(
                                x,
                                p,
                                manifests@[i].1@,
                            ),
                        } by {
                        assert(last_manifest_at(cur, p) == last_manifest_at(pre, p));
                    }
                    assert forall|e: Seq<char>, n: Seq<char>|
                        #![trigger crate::registry::lookup_name(reg.aliases(), e, n)]
                        match last_manifest_named(cur, n) {
                            Some(i) if e == "cargo"@ => crate::registry::lookup_name(reg.aliases(), e, n) matches Some(
                                id,
                            ) && id@ == crate::model::id::component_id_text("cargo"@, manifests@[i].0@),
                            _ => crate::registry::lookup_name(reg.aliases(), e, n) is None,
                        } by {
                        assert(last_manifest_named(cur, n) == last_manifest_named(pre, n));
                    }
                }
            },
        }
        k += 1;
    }
    assert(manifests@.take(manifests@.len() as int) =~= manifests@);
    reg
}

} // verus!
