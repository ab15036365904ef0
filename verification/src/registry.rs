//! The registry of component roots discovered in a repository.
//!
//! Roots are kept sorted by their repo-relative path in the order of
//! `String` (lexicographic by code point, which is the byte order of UTF-8).
//! The nearest enclosing component of a file is the enclosing root with the
//! longest path; the repository root `.` is taken only when no other root
//! encloses the file.

use vstd::prelude::*;
use crate::text::{chars_of, starts_with, starts_with_chars, str_eq};

verus! {

/// Discovered component root information.
#[derive(Debug)]
pub struct ComponentRoot {
    /// Canonical component id: `component::{ecosystem}::{root_path}`.
    pub id: String,
    /// Ecosystem: "cargo", "npm", ...
    pub ecosystem: String,
    /// Repo-relative path of the component root (`.` for the repo root).
    pub root_path: String,
    /// Display name from the manifest.
    pub display_name: String,
    /// Workspace member globs declared by the manifest, if any.
    pub workspace_globs: Option<Vec<String>>,
}

/// Lexicographic order of character sequences by code point.
pub open spec fn seq_lt(a: Seq<char>, b: Seq<char>) -> bool
    decreases a.len(),
{
    if a.len() == 0 {
        b.len() > 0
    } else if b.len() == 0 {
        false
    } else if a[0] == b[0] {
        seq_lt(a.drop_first(), b.drop_first())
    } else {
        (a[0] as int) < (b[0] as int)
    }
}

pub proof fn lemma_seq_lt_irreflexive(a: Seq<char>)
    ensures
        !seq_lt(a, a),
    decreases a.len(),
{
    if a.len() > 0 {
        lemma_seq_lt_irreflexive(a.drop_first());
    }
}

pub proof fn lemma_seq_lt_trichotomy(a: Seq<char>, b: Seq<char>)
    ensures
        seq_lt(a, b) || seq_lt(b, a) || a == b,
        !(seq_lt(a, b) && seq_lt(b, a)),
    decreases a.len(),
{
    if a.len() > 0 && b.len() > 0 {
        if a[0] == b[0] {
            lemma_seq_lt_trichotomy(a.drop_first(), b.drop_first());
            if a.drop_first() == b.drop_first() {
                assert(a == seq![a[0]] + a.drop_first());
                assert(b == seq![b[0]] + b.drop_first());
            }
        } else {
            assert((a[0] as int) != (b[0] as int));
        }
    } else if a.len() == 0 && b.len() == 0 {
        assert(a == b);
    }
}

pub proof fn lemma_seq_lt_transitive(a: Seq<char>, b: Seq<char>, c: Seq<char>)
    requires
        seq_lt(a, b),
        seq_lt(b, c),
    ensures
        seq_lt(a, c),
    decreases a.len(),
{
    if a.len() > 0 && b.len() > 0 && c.len() > 0 {
        if a[0] == b[0] && b[0] == c[0] {
            lemma_seq_lt_transitive(a.drop_first(), b.drop_first(), c.drop_first());
        }
    }
}

fn lt_chars(a: &Vec<char>, b: &Vec<char>) -> (res: bool)
    ensures
        res == seq_lt(a@, b@),
{
    let mut i: usize = 0;
    assert(a@.skip(0) == a@ && b@.skip(0) == b@);
    while i < a.len() && i < b.len() && a[i] == b[i]
        invariant
            i <= a@.len(),
            i <= b@.len(),
            seq_lt(a@, b@) == seq_lt(a@.skip(i as int), b@.skip(i as int)),
        decreases a.len() - i,
    {
        proof {
            let sa = a@.skip(i as int);
            let sb = b@.skip(i as int);
            assert(sa.drop_first() == a@.skip(i + 1));
            assert(sb.drop_first() == b@.skip(i + 1));
        }
        i += 1;
    }
    if i == a.len() {
        i < b.len()
    } else if i == b.len() {
        false
    } else {
        a[i] < b[i]
    }
}

/// Whether a root encloses `file`: the file is the root itself or lies
/// inside its directory (its path starts with the root followed by `/`),
/// or the root is the repository root `.` and the file path is not a
/// component id.
pub open spec fn qualifies(root_path: Seq<char>, file: Seq<char>) -> bool {
    ||| file == root_path
    ||| starts_with(file, root_path.push('/'))
    ||| (root_path == "."@ && !starts_with(file, "component::"@))
}

/// Root `i` is the nearest that encloses `file`: it qualifies, and when it
/// is not the repository root `.` no other qualifying root other than `.`
/// has a longer path; when it is `.`, no other root qualifies.
pub open spec fn is_nearest(roots: Seq<ComponentRoot>, i: int, file: Seq<char>) -> bool {
    &&& 0 <= i < roots.len()
    &&& qualifies(roots[i].root_path@, file)
    &&& forall|j: int|
        0 <= j < roots.len() && qualifies(#[trigger] roots[j].root_path@, file) ==> if roots[i].root_path@ == "."@ {
            roots[j].root_path@ == "."@
        } else {
            roots[j].root_path@ == "."@ || roots[j].root_path@.len() <= roots[i].root_path@.len()
        }
}

/// The first entry with display key `(ecosystem, name)`, as its id.
pub open spec fn lookup_name(
    names: Seq<(String, String, String)>,
    ecosystem: Seq<char>,
    name: Seq<char>,
) -> Option<String>
    decreases names.len(),
{
    if names.len() == 0 {
        None
    } else if names[0].0@ == ecosystem && names[0].1@ == name {
        Some(names[0].2)
    } else {
        lookup_name(names.drop_first(), ecosystem, name)
    }
}

/// The first root with the given path.
pub open spec fn lookup_path(roots: Seq<ComponentRoot>, path: Seq<char>) -> Option<ComponentRoot>
    decreases roots.len(),
{
    if roots.len() == 0 {
        None
    } else if roots[0].root_path@ == path {
        Some(roots[0])
    } else {
        lookup_path(roots.drop_first(), path)
    }
}

/// The first entry with a key is what the lookup finds.
pub proof fn lemma_lookup_name_at(
    names: Seq<(String, String, String)>,
    ecosystem: Seq<char>,
    name: Seq<char>,
    j: int,
)
    requires
        0 <= j < names.len(),
        names[j].0@ == ecosystem && names[j].1@ == name,
        forall|k: int| 0 <= k < j ==> !(#[trigger] names[k].0@ == ecosystem && names[k].1@ == name),
    ensures
        lookup_name(names, ecosystem, name) == Some(names[j].2),
    decreases j,
{
    if j > 0 {
        assert(!(names[0].0@ == ecosystem && names[0].1@ == name));
        assert forall|k: int| 0 <= k < j - 1 implies !(#[trigger] names.drop_first()[k].0@ == ecosystem && names.drop_first()[k].1@ == name) by {
            assert(names.drop_first()[k] == names[k + 1]);
        }
        lemma_lookup_name_at(names.drop_first(), ecosystem, name, j - 1);
    }
}

/// Without an entry for a key the lookup finds nothing.
pub proof fn lemma_lookup_name_none(names: Seq<(String, String, String)>, ecosystem: Seq<char>, name: Seq<char>)
    requires
        forall|k: int| 0 <= k < names.len() ==> !(#[trigger] names[k].0@ == ecosystem && names[k].1@ == name),
    ensures
        lookup_name(names, ecosystem, name) is None,
    decreases names.len(),
{
    if names.len() > 0 {
        assert(!(names[0].0@ == ecosystem && names[0].1@ == name));
        assert forall|k: int| 0 <= k < names.len() - 1 implies !(#[trigger] names.drop_first()[k].0@ == ecosystem && names.drop_first()[k].1@ == name) by {
            assert(names.drop_first()[k] == names[k + 1]);
        }
        lemma_lookup_name_none(names.drop_first(), ecosystem, name);
    }
}

/// The first root with a path is what the lookup finds.
pub proof fn lemma_lookup_path_at(roots: Seq<ComponentRoot>, path: Seq<char>, j: int)
    requires
        0 <= j < roots.len(),
        roots[j].root_path@ == path,
        forall|k: int| 0 <= k < j ==> (#[trigger] roots[k]).root_path@ != path,
    ensures
        lookup_path(roots, path) == Some(roots[j]),
    decreases j,
{
    if j > 0 {
        assert(roots[0].root_path@ != path);
        assert forall|k: int| 0 <= k < j - 1 implies (#[trigger] roots.drop_first()[k]).root_path@ != path by {
            assert(roots.drop_first()[k] == roots[k + 1]);
        }
        lemma_lookup_path_at(roots.drop_first(), path, j - 1);
    }
}

/// Without a root at a path the lookup finds nothing.
pub proof fn lemma_lookup_path_none(roots: Seq<ComponentRoot>, path: Seq<char>)
    requires
        forall|k: int| 0 <= k < roots.len() ==> (#[trigger] roots[k]).root_path@ != path,
    ensures
        lookup_path(roots, path) is None,
    decreases roots.len(),
{
    if roots.len() > 0 {
        assert(roots[0].root_path@ != path);
        assert forall|k: int| 0 <= k < roots.len() - 1 implies (#[trigger] roots.drop_first()[k]).root_path@ != path by {
            assert(roots.drop_first()[k] == roots[k + 1]);
        }
        lemma_lookup_path_none(roots.drop_first(), path);
    }
}

/// Registry of all component roots in the repo: by root path, and by
/// `(ecosystem, display name)` for ecosystem-scoped dependency resolution.
#[derive(Debug)]
pub struct ComponentRegistry {
    by_path: Vec<ComponentRoot>,
    by_display_name: Vec<(String, String, String)>,
}

impl ComponentRegistry {
    /// Roots sorted strictly by path; display keys unique.
    pub closed spec fn wf(&self) -> bool {
        &&& forall|a: int, b: int|
            0 <= a < b < self.by_path@.len() ==> seq_lt(
                #[trigger] self.by_path@[a].root_path@,
                #[trigger] self.by_path@[b].root_path@,
            )
        &&& forall|a: int, b: int|
            0 <= a < b < self.by_display_name@.len() ==> !(#[trigger] self.by_display_name@[a].0@
                == #[trigger] self.by_display_name@[b].0@ && self.by_display_name@[a].1@
                == self.by_display_name@[b].1@)
    }

    /// The roots, in path order.
    pub closed spec fn roots(&self) -> Seq<ComponentRoot> {
        self.by_path@
    }

    /// The `(ecosystem, display name, id)` aliases.
    pub closed spec fn aliases(&self) -> Seq<(String, String, String)> {
        self.by_display_name@
    }

    /// An empty registry.
    pub fn new() -> (res: Self)
        ensures
            res.wf(),
            res.roots().len() == 0,
            res.aliases().len() == 0,
    {
        ComponentRegistry { by_path: Vec::new(), by_display_name: Vec::new() }
    }

    /// The number of component roots.
    pub fn len(&self) -> (res: usize)
        ensures
            res == self.roots().len(),
    {
        self.by_path.len()
    }

    /// The roots, in path order.
    pub fn root_list(&self) -> (res: &Vec<ComponentRoot>)
        ensures
            res@ == self.roots(),
    {
        &self.by_path
    }

    /// Find the nearest enclosing component for a file path: the enclosing
    /// root with the longest path, or the repository root `.` when no other
    /// root encloses the file (see `is_nearest`).
    pub fn find_for_file(&self, file_path: &str) -> (res: Option<&ComponentRoot>)
        requires
            self.wf(),
        ensures
            match res {
                Some(r) => exists|i: int| #[trigger] is_nearest(self.roots(), i, file_path@) && self.roots()[i] == *r,
                None => forall|j: int|
                    0 <= j < self.roots().len() ==> !qualifies(
                        #[trigger] self.roots()[j].root_path@,
                        file_path@,
                    ),
            },
    {
        proof {
            reveal_strlit(".");
            reveal_strlit("component::");
        }
        let ghost roots = self.roots();
        let f = chars_of(file_path);
        let dot = chars_of(".");
        let comp = chars_of("component::");
        let file_is_id = starts_with_chars(&f, &comp);
        let mut best: Option<usize> = None;
        let mut best_len: usize = 0;
        let mut dot_at: Option<usize> = None;
        let mut i: usize = 0;
        while i < self.by_path.len()
            invariant
                i <= self.by_path@.len(),
                roots == self.by_path@,
                f@ == file_path@,
                dot@ == "."@,
                file_is_id == starts_with(file_path@, "component::"@),
                match best {
                    Some(b) => {
                        &&& b < i
                        &&& qualifies(roots[b as int].root_path@, file_path@)
                        &&& roots[b as int].root_path@ != "."@
                        &&& best_len == roots[b as int].root_path@.len()
                        &&& forall|j: int|
                            0 <= j < i && qualifies(#[trigger] roots[j].root_path@, file_path@) && roots[j].root_path@
                                != "."@ ==> roots[j].root_path@.len() <= best_len
                    },
                    None => forall|j: int|
                        0 <= j < i && qualifies(#[trigger] roots[j].root_path@, file_path@) ==> roots[j].root_path@
                            == "."@,
                },
                match dot_at {
                    Some(d) => d < i && roots[d as int].root_path@ == "."@ && qualifies(
                        roots[d as int].root_path@,
                        file_path@,
                    ),
                    None => forall|j: int|
                        0 <= j < i ==> !(qualifies(#[trigger] roots[j].root_path@, file_path@) && roots[j].root_path@
                            == "."@),
                },
            decreases self.by_path.len() - i,
        {
            let r = chars_of(self.by_path[i].root_path.as_str());
            let mut r_dir = chars_of(self.by_path[i].root_path.as_str());
            r_dir.push('/');
            let is_dot = crate::text::chars_eq(&r, &dot);
            let q = crate::text::chars_eq(&f, &r) || starts_with_chars(&f, &r_dir) || (is_dot && !file_is_id);
            if q {
                if is_dot {
                    dot_at = Some(i);
                } else if best.is_none() || r.len() > best_len {
                    best = Some(i);
                    best_len = r.len();
                }
            }
            i += 1;
        }
        match best {
            Some(b) => {
                assert(is_nearest(roots, b as int, file_path@));
                Some(&self.by_path[b])
            },
            None => match dot_at {
                Some(d) => {
                    assert(is_nearest(roots, d as int, file_path@));
                    Some(&self.by_path[d])
                },
                None => None,
            },
        }
    }

    /// At most one root is the nearest for a file, so `find_for_file`'s
    /// result is determined.
    pub proof fn lemma_nearest_unique(&self, file: Seq<char>, i: int, j: int)
        requires
            self.wf(),
            is_nearest(self.roots(), i, file),
            is_nearest(self.roots(), j, file),
        ensures
            i == j,
    {
        let roots = self.roots();
        let a = roots[i].root_path@;
        let b = roots[j].root_path@;
        assert(qualifies(b, file));
        assert(qualifies(a, file));
        if a != "."@ && b != "."@ {
            assert(a.len() == b.len());
            assert forall|k: int| 0 <= k < a.len() implies a[k] == b[k] by {
                if file != a {
                    assert(file.take(a.len() + 1 as int)[k] == a.push('/')[k]);
                }
                if file != b {
                    assert(file.take(b.len() + 1 as int)[k] == b.push('/')[k]);
                }
                if file == a {
                    if file != b {
                        assert(file.take(b.len() + 1 as int).len() == b.len() + 1);
                    }
                }
            }
            assert(a =~= b);
        }
        assert(a == b);
        if i < j {
            assert(seq_lt(roots[i].root_path@, roots[j].root_path@));
            lemma_seq_lt_irreflexive(a);
        } else if j < i {
            assert(seq_lt(roots[j].root_path@, roots[i].root_path@));
            lemma_seq_lt_irreflexive(a);
        }
    }

    /// The id of the component with the given display name in an ecosystem;
    /// `None` when the name is not a component of this repository.
    pub fn resolve_name(&self, name: &str, ecosystem: &str) -> (res: Option<&String>)
        ensures
            match lookup_name(self.aliases(), ecosystem@, name@) {
                Some(id) => res matches Some(r) && *r == id,
                None => res is None,
            },
    {
        let mut i: usize = 0;
        assert(self.by_display_name@.skip(0) == self.by_display_name@);
        while i < self.by_display_name.len()
            invariant
                i <= self.by_display_name@.len(),
                lookup_name(self.by_display_name@, ecosystem@, name@) == lookup_name(
                    self.by_display_name@.skip(i as int),
                    ecosystem@,
                    name@,
                ),
            decreases self.by_display_name.len() - i,
        {
            assert(self.by_display_name@.skip(i as int).drop_first() == self.by_display_name@.skip(i + 1));
            if str_eq(self.by_display_name[i].0.as_str(), ecosystem) && str_eq(
                self.by_display_name[i].1.as_str(),
                name,
            ) {
                return Some(&self.by_display_name[i].2);
            }
            i += 1;
        }
        None
    }

    /// The root registered for exactly this path.
    pub fn get_by_path(&self, path: &str) -> (res: Option<&ComponentRoot>)
        ensures
            match lookup_path(self.roots(), path@) {
                Some(r) => res matches Some(x) && *x == r,
                None => res is None,
            },
    {
        let mut i: usize = 0;
        assert(self.by_path@.skip(0) == self.by_path@);
        while i < self.by_path.len()
            invariant
                i <= self.by_path@.len(),
                lookup_path(self.by_path@, path@) == lookup_path(self.by_path@.skip(i as int), path@),
            decreases self.by_path.len() - i,
        {
            assert(self.by_path@.skip(i as int).drop_first() == self.by_path@.skip(i + 1));
            if str_eq(self.by_path[i].root_path.as_str(), path) {
                return Some(&self.by_path[i]);
            }
            i += 1;
        }
        None
    }

    /// Insert a component root: it replaces any root with the same path,
    /// and its display name becomes an alias of its id in its ecosystem.
    pub fn insert(&mut self, root: ComponentRoot)
        requires
            old(self).wf(),
        ensures
            final(self).wf(),
            forall|p: Seq<char>| #[trigger] lookup_path(final(self).roots(), p) == if p == root.root_path@ {
                Some(root)
            } else {
                lookup_path(old(self).roots(), p)
            },
            forall|e: Seq<char>, n: Seq<char>| #[trigger] lookup_name(final(self).aliases(), e, n) == if e == root.ecosystem@ && n == root.display_name@ {
                Some(root.id)
            } else {
                lookup_name(old(self).aliases(), e, n)
            },
    {
        let alias = (root.ecosystem.clone(), root.display_name.clone(), root.id.clone());
        self.insert_alias(alias);
        self.insert_root(root);
    }

    fn insert_alias(&mut self, alias: (String, String, String))
        requires
            old(self).wf(),
        ensures
            final(self).wf(),
            final(self).by_path == old(self).by_path,
            forall|e: Seq<char>, n: Seq<char>| #[trigger] lookup_name(final(self).aliases(), e, n) == if e == alias.0@ && n == alias.1@ {
                Some(alias.2)
            } else {
                lookup_name(old(self).aliases(), e, n)
            },
    {
        let ghost old_names = self.by_display_name@;
        let mut i: usize = 0;
        while i < self.by_display_name.len()
            invariant
                i <= self.by_display_name@.len(),
                self.by_display_name@ == old_names,
                forall|j: int| 0 <= j < i ==> !(#[trigger] old_names[j].0@ == alias.0@ && old_names[j].1@ == alias.1@),
            ensures
                i <= old_names.len(),
                self.by_display_name@ == old_names,
                forall|j: int| 0 <= j < i ==> !(#[trigger] old_names[j].0@ == alias.0@ && old_names[j].1@ == alias.1@),
                i < old_names.len() ==> old_names[i as int].0@ == alias.0@ && old_names[i as int].1@ == alias.1@,
            decreases self.by_display_name.len() - i,
        {
            if str_eq(self.by_display_name[i].0.as_str(), alias.0.as_str()) && str_eq(
                self.by_display_name[i].1.as_str(),
                alias.1.as_str(),
            ) {
                break;
            }
            i += 1;
        }
        let ghost found = i < old_names.len();
        if i < self.by_display_name.len() {
            self.by_display_name.set(i, alias);
        } else {
            self.by_display_name.push(alias);
        }
        proof {
            let new_names = self.by_display_name@;
            assert(forall|k: int| 0 <= k < old_names.len() && k != i ==> new_names[k] == old_names[k]);
            assert(new_names[i as int] == alias);
            assert(new_names.len() == if found { old_names.len() } else { old_names.len() + 1 });
            // a key other than the alias key is found where it was before
            assert forall|e: Seq<char>, n: Seq<char>| #[trigger] lookup_name(new_names, e, n) == if e == alias.0@ && n == alias.1@ {
                Some(alias.2)
            } else {
                lookup_name(old_names, e, n)
            } by {
                if e == alias.0@ && n == alias.1@ {
                    lemma_lookup_name_at(new_names, e, n, i as int);
                } else if exists|j: int| 0 <= j < old_names.len() && #[trigger] old_names[j].0@ == e && old_names[j].1@ == n {
                    let j = choose|j: int| 0 <= j < old_names.len() && #[trigger] old_names[j].0@ == e && old_names[j].1@ == n;
                    assert(j != i);
                    assert forall|k: int| 0 <= k < j implies !(#[trigger] old_names[k].0@ == e && old_names[k].1@ == n) by {
                        if old_names[k].0@ == e && old_names[k].1@ == n {
                            assert(!(old_names[k].0@ == old_names[j].0@ && old_names[k].1@ == old_names[j].1@));
                        }
                    }
                    assert forall|k: int| 0 <= k < j implies !(#[trigger] new_names[k].0@ == e && new_names[k].1@ == n) by {
                        if k != i {
                            assert(new_names[k] == old_names[k]);
                        }
                    }
                    lemma_lookup_name_at(old_names, e, n, j);
                    lemma_lookup_name_at(new_names, e, n, j);
                } else {
                    assert forall|k: int| 0 <= k < new_names.len() implies !(#[trigger] new_names[k].0@ == e && new_names[k].1@ == n) by {
                        if k != i {
                            assert(new_names[k] == old_names[k]);
                        }
                    }
                    lemma_lookup_name_none(old_names, e, n);
                    lemma_lookup_name_none(new_names, e, n);
                }
            }
            assert forall|a: int, b: int| 0 <= a < b < new_names.len() implies !(#[trigger] new_names[a].0@
                == #[trigger] new_names[b].0@ && new_names[a].1@ == new_names[b].1@) by {
                if a != i && b != i {
                    assert(new_names[a] == old_names[a]);
                    assert(new_names[b] == old_names[b]);
                } else if a == i {
                    assert(new_names[b] == old_names[b]);
                    if found {
                        assert(old_names[a].0@ == alias.0@ && old_names[a].1@ == alias.1@);
                    }
                } else {
                    assert(new_names[a] == old_names[a]);
                    if found {
                        assert(old_names[b].0@ == alias.0@ && old_names[b].1@ == alias.1@);
                    }
                }
            }
        }
    }

    fn insert_root(&mut self, root: ComponentRoot)
        requires
            old(self).wf(),
        ensures
            final(self).wf(),
            final(self).by_display_name == old(self).by_display_name,
            forall|p: Seq<char>| #[trigger] lookup_path(final(self).roots(), p) == if p == root.root_path@ {
                Some(root)
            } else {
                lookup_path(old(self).roots(), p)
            },
    {
        let ghost old_roots = self.by_path@;
        let key = chars_of(root.root_path.as_str());
        let mut i: usize = 0;
        while i < self.by_path.len()
            invariant
                i <= self.by_path@.len(),
                self.by_path@ == old_roots,
                key@ == root.root_path@,
                forall|j: int| 0 <= j < i ==> seq_lt(#[trigger] old_roots[j].root_path@, root.root_path@),
            ensures
                i <= old_roots.len(),
                self.by_path@ == old_roots,
                forall|j: int| 0 <= j < i ==> seq_lt(#[trigger] old_roots[j].root_path@, root.root_path@),
                i < old_roots.len() ==> !seq_lt(old_roots[i as int].root_path@, root.root_path@),
            decreases self.by_path.len() - i,
        {
            let here = chars_of(self.by_path[i].root_path.as_str());
            if !lt_chars(&here, &key) {
                break;
            }
            i += 1;
        }
        let same = i < self.by_path.len() && str_eq(self.by_path[i].root_path.as_str(), root.root_path.as_str());
        let ghost new_path = root.root_path@;
        proof {
            lemma_seq_lt_irreflexive(new_path);
            if i < old_roots.len() {
                lemma_seq_lt_trichotomy(old_roots[i as int].root_path@, new_path);
            }
        }
        if same {
            self.by_path.set(i, root);
        } else {
            self.by_path.insert(i, root);
        }
        proof {
            let new_roots = self.by_path@;
            // the old index of each new position other than `i`
            let back = |k: int| if same || k < i { k } else { k - 1 };
            assert forall|k: int| 0 <= k < new_roots.len() && k != i implies 0 <= #[trigger] back(k) < old_roots.len()
                && !(same && back(k) == i) && new_roots[k] == old_roots[back(k)] by {}
            assert(new_roots[i as int] == root);
            // the old roots are strictly sorted, so no two share a path
            assert forall|a: int, b: int| 0 <= a < old_roots.len() && 0 <= b < old_roots.len() && a != b implies #[trigger] old_roots[a].root_path@ != #[trigger] old_roots[b].root_path@ by {
                if a < b {
                    lemma_seq_lt_irreflexive(old_roots[a].root_path@);
                } else {
                    lemma_seq_lt_irreflexive(old_roots[b].root_path@);
                }
            }
            // every old root from i on, but one replaced, sorts after the new path
            assert forall|k: int| i <= k < old_roots.len() && !(same && k == i) implies seq_lt(new_path, #[trigger] old_roots[k].root_path@) by {
                if k > i {
                    assert(seq_lt(old_roots[i as int].root_path@, old_roots[k].root_path@));
                    if !same {
                        lemma_seq_lt_transitive(new_path, old_roots[i as int].root_path@, old_roots[k].root_path@);
                    }
                }
            }
            assert forall|a: int, b: int| 0 <= a < b < new_roots.len() implies seq_lt(
                #[trigger] new_roots[a].root_path@,
                #[trigger] new_roots[b].root_path@,
            ) by {
                if a == i {
                    assert(back(b) >= i);
                    assert(new_roots[b] == old_roots[back(b)]);
                } else if b == i {
                    assert(back(a) < i);
                    assert(new_roots[a] == old_roots[back(a)]);
                } else {
                    assert(back(a) < back(b));
                    assert(new_roots[a] == old_roots[back(a)]);
                    assert(new_roots[b] == old_roots[back(b)]);
                }
            }
            assert forall|p: Seq<char>| #[trigger] lookup_path(new_roots, p) == if p == new_path {
                Some(root)
            } else {
                lookup_path(old_roots, p)
            } by {
                if p == new_path {
                    assert forall|k: int| 0 <= k < i implies (#[trigger] new_roots[k]).root_path@ != p by {
                        assert(new_roots[k] == old_roots[back(k)]);
                    }
                    lemma_lookup_path_at(new_roots, p, i as int);
                } else if exists|j: int| 0 <= j < old_roots.len() && (#[trigger] old_roots[j]).root_path@ == p {
                    let j = choose|j: int| 0 <= j < old_roots.len() && (#[trigger] old_roots[j]).root_path@ == p;
                    assert(!(same && j == i));
                    let nj = if same || j < i { j } else { j + 1 };
                    assert(back(nj) == j);
                    assert(nj != i);
                    assert(new_roots[nj] == old_roots[j]);
                    assert forall|k: int| 0 <= k < j implies (#[trigger] old_roots[k]).root_path@ != p by {}
                    lemma_lookup_path_at(old_roots, p, j);
                    assert forall|k: int| 0 <= k < nj implies (#[trigger] new_roots[k]).root_path@ != p by {
                        if k != i {
                            assert(new_roots[k] == old_roots[back(k)]);
                            assert(back(k) != j);
                        }
                    }
                    lemma_lookup_path_at(new_roots, p, nj);
                } else {
                    assert forall|k: int| 0 <= k < new_roots.len() implies (#[trigger] new_roots[k]).root_path@ != p by {
                        if k != i {
                            assert(new_roots[k] == old_roots[back(k)]);
                        }
                    }
                    lemma_lookup_path_none(old_roots, p);
                    lemma_lookup_path_none(new_roots, p);
                }
            }
        }
    }

    /// All component ids, in path order.
    pub fn all_ids(&self) -> (res: Vec<&String>)
        ensures
            res@.len() == self.roots().len(),
            forall|i: int| 0 <= i < res@.len() ==> *(#[trigger] res@[i]) == self.roots()[i].id,
    {
        let mut res: Vec<&String> = Vec::new();
        let mut i: usize = 0;
        while i < self.by_path.len()
            invariant
                i <= self.by_path@.len(),
                res@.len() == i,
                forall|j: int| 0 <= j < i ==> *(#[trigger] res@[j]) == self.by_path@[j].id,
            decreases self.by_path.len() - i,
        {
            res.push(&self.by_path[i].id);
            i += 1;
        }
        res
    }
}

} // verus!
