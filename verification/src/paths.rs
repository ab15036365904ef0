//! Repository-relative paths as `/`-separated text: their components,
//! lexical normalisation of `.` and `..`, and the resolution of relative
//! TypeScript imports.

use vstd::prelude::*;
use crate::text::{chars_of, owned, push_str, starts_with, str_eq, string_of};

verus! {

/// The views of a sequence of character vectors.
pub open spec fn views(v: Seq<Vec<char>>) -> Seq<Seq<char>> {
    v.map_values(|x: Vec<char>| x@)
}

/// The pieces of `s` between the separators `sep` (as many as there are
/// separators, plus one).
pub open spec fn split(s: Seq<char>, sep: char) -> Seq<Seq<char>>
    decreases s.len(),
{
    if s.len() == 0 {
        seq![Seq::<char>::empty()]
    } else {
        let init = split(s.drop_last(), sep);
        if s.last() == sep {
            init.push(Seq::<char>::empty())
        } else {
            init.update(init.len() - 1, init.last().push(s.last()))
        }
    }
}

pub proof fn lemma_split_nonempty(s: Seq<char>, sep: char)
    ensures
        split(s, sep).len() >= 1,
    decreases s.len(),
{
    if s.len() > 0 {
        lemma_split_nonempty(s.drop_last(), sep);
    }
}

/// The marker for the root directory among path components.
pub open spec fn root_marker() -> Seq<char> {
    seq!['/']
}

/// The pieces that name something: not empty and not `.`.
pub open spec fn named_pieces(pieces: Seq<Seq<char>>) -> Seq<Seq<char>>
    decreases pieces.len(),
{
    if pieces.len() == 0 {
        Seq::empty()
    } else {
        let init = named_pieces(pieces.drop_last());
        let p = pieces.last();
        if p.len() == 0 || p == seq!['.'] {
            init
        } else {
            init.push(p)
        }
    }
}

/// The components of a path: the root marker when it starts with `/`, then
/// every piece between slashes but the empty ones and `.`.
pub open spec fn components(s: Seq<char>) -> Seq<Seq<char>> {
    let named = named_pieces(split(s, '/'));
    if s.len() > 0 && s[0] == '/' {
        seq![root_marker()] + named
    } else {
        named
    }
}

/// Lexical normalisation of components: `..` removes the component before
/// it, and fails where there is none.
pub open spec fn normalize_components(cs: Seq<Seq<char>>) -> Option<Seq<Seq<char>>>
    decreases cs.len(),
{
    if cs.len() == 0 {
        Some(Seq::empty())
    } else {
        match normalize_components(cs.drop_last()) {
            None => None,
            Some(st) => if cs.last() == seq!['.', '.'] {
                if st.len() == 0 {
                    None
                } else {
                    Some(st.drop_last())
                }
            } else {
                Some(st.push(cs.last()))
            },
        }
    }
}

/// Components joined by `/`.
pub open spec fn join(cs: Seq<Seq<char>>) -> Seq<char>
    decreases cs.len(),
{
    if cs.len() == 0 {
        Seq::empty()
    } else if cs.len() == 1 {
        cs[0]
    } else {
        join(cs.drop_last()) + seq!['/'] + cs.last()
    }
}

/// The text of a path made of these components.
pub open spec fn render(cs: Seq<Seq<char>>) -> Seq<char> {
    if cs.len() > 0 && cs[0] == root_marker() {
        seq!['/'] + join(cs.drop_first())
    } else {
        join(cs)
    }
}

/// The normalised text of a path, or `None` when a `..` climbs above its
/// start.
pub open spec fn normalized(s: Seq<char>) -> Option<Seq<char>> {
    match normalize_components(components(s)) {
        None => None,
        Some(st) => Some(render(st)),
    }
}

/// The suffixes probed, in order, when resolving a relative import.
pub open spec fn import_probes() -> Seq<Seq<char>> {
    seq![
        Seq::<char>::empty(),
        ".ts"@,
        ".tsx"@,
        ".js"@,
        ".jsx"@,
        "/index.ts"@,
        "/index.tsx"@,
    ]
}

/// Whether an import path is relative (`./` or `../`).
pub open spec fn is_relative_import(p: Seq<char>) -> bool {
    starts_with(p, "./"@) || starts_with(p, "../"@)
}

/// The components of the directory holding a file.
pub open spec fn parent_components(file: Seq<char>) -> Seq<Seq<char>> {
    let cs = components(file);
    if cs.len() == 0 {
        cs
    } else {
        cs.drop_last()
    }
}

/// The candidates for a relative import made from `importing_file`, in
/// probe order; `None` for a bare import and for one that leaves the root.
pub open spec fn import_candidates(import_path: Seq<char>, importing_file: Seq<char>) -> Option<Seq<Seq<char>>> {
    if !is_relative_import(import_path) {
        None
    } else {
        match normalize_components(parent_components(importing_file) + components(import_path)) {
            None => None,
            Some(st) => Some(import_probes().map_values(|ext: Seq<char>| render(st) + ext)),
        }
    }
}

/// The index of the first candidate that is among the files, if any.
pub open spec fn first_present(cands: Seq<Seq<char>>, files: Seq<Seq<char>>) -> Option<int>
    decreases cands.len(),
{
    if cands.len() == 0 {
        None
    } else if files.contains(cands[0]) {
        Some(0)
    } else {
        match first_present(cands.drop_first(), files) {
            None => None,
            Some(i) => Some(i + 1),
        }
    }
}

pub proof fn lemma_first_present_range(cands: Seq<Seq<char>>, files: Seq<Seq<char>>)
    ensures
        match first_present(cands, files) {
            Some(i) => 0 <= i < cands.len() && files.contains(cands[i]) && forall|j: int|
                0 <= j < i ==> !files.contains(#[trigger] cands[j]),
            None => forall|j: int| 0 <= j < cands.len() ==> !files.contains(#[trigger] cands[j]),
        },
    decreases cands.len(),
{
    if cands.len() > 0 {
        lemma_first_present_range(cands.drop_first(), files);
        if !files.contains(cands[0]) {
            assert forall|j: int| 0 < j < cands.len() implies cands[j] == cands.drop_first()[j - 1] by {}
        }
    }
}

/// The string views of a vector of strings.
pub open spec fn string_views(v: Seq<String>) -> Seq<Seq<char>> {
    v.map_values(|s: String| s@)
}

/// The pieces of `v` between the separators `sep`.
pub fn split_on(v: &Vec<char>, sep: char) -> (res: Vec<Vec<char>>)
    ensures
        views(res@) == split(v@, sep),
{
    let mut pieces: Vec<Vec<char>> = Vec::new();
    let mut cur: Vec<char> = Vec::new();
    let mut i: usize = 0;
    assert(v@.take(0) == Seq::<char>::empty());
    assert(views(pieces@).push(cur@) == split(v@.take(0), sep));
    while i < v.len()
        invariant
            i <= v.len(),
            views(pieces@).push(cur@) == split(v@.take(i as int), sep),
        decreases v.len() - i,
    {
        let ghost before = split(v@.take(i as int), sep);
        assert(v@.take(i + 1).drop_last() == v@.take(i as int));
        assert(v@.take(i + 1).last() == v@[i as int]);
        if v[i] == sep {
            let old_cur = cur;
            pieces.push(old_cur);
            cur = Vec::new();
            assert(views(pieces@) == before);
        } else {
            cur.push(v[i]);
        }
        i += 1;
        assert(views(pieces@).push(cur@) == split(v@.take(i as int), sep));
    }
    assert(v@.take(v.len() as int) == v@);
    pieces.push(cur);
    assert(views(pieces@) == split(v@, sep));
    pieces
}

/// The components of a path (see `components`).
pub fn path_components(path: &Vec<char>) -> (res: Vec<Vec<char>>)
    ensures
        views(res@) == components(path@),
{
    let pieces = split_on(path, '/');
    let mut named: Vec<Vec<char>> = Vec::new();
    if path.len() > 0 && path[0] == '/' {
        let mut root: Vec<char> = Vec::new();
        root.push('/');
        assert(root@ =~= root_marker());
        named.push(root);
        assert(views(named@) =~= seq![root_marker()]);
    }
    let ghost start = views(named@);
    let mut i: usize = 0;
    assert(views(pieces@).take(0) == Seq::<Seq<char>>::empty());
    assert(start + named_pieces(views(pieces@).take(0)) == start);
    while i < pieces.len()
        invariant
            i <= pieces@.len(),
            views(pieces@) == split(path@, '/'),
            views(named@) == start + named_pieces(views(pieces@).take(i as int)),
        decreases pieces.len() - i,
    {
        let ghost ps = views(pieces@);
        assert(ps.take(i + 1).drop_last() == ps.take(i as int));
        assert(ps.take(i + 1).last() == pieces@[i as int]@);
        let p = &pieces[i];
        let is_dot = p.len() == 1 && p[0] == '.';
        proof {
            if is_dot {
                assert(p@ =~= seq!['.']);
            } else if p@.len() == 1 {
                assert(p@[0] != seq!['.'][0]);
            } else {
                assert(p@.len() != seq!['.'].len());
            }
        }
        if p.len() > 0 && !is_dot {
            let copy = copy_chars(p);
            let ghost before = views(named@);
            named.push(copy);
            assert(views(named@) == before.push(p@));
            assert(named_pieces(ps.take(i + 1)) == named_pieces(ps.take(i as int)).push(p@));
            assert(views(named@) == start + named_pieces(ps.take(i + 1)));
        }
        i += 1;
    }
    assert(views(pieces@).take(pieces@.len() as int) == views(pieces@));
    proof {
        reveal_with_fuel(split, 1);
        if path@.len() > 0 && path@[0] == '/' {
            assert(start == seq![root_marker()]);
        } else {
            assert(start == Seq::<Seq<char>>::empty());
            assert(start + named_pieces(split(path@, '/')) == named_pieces(split(path@, '/')));
        }
    }
    named
}

/// A copy of a character vector.
pub fn copy_chars(v: &Vec<char>) -> (res: Vec<char>)
    ensures
        res@ == v@,
{
    let mut res: Vec<char> = Vec::new();
    let mut i: usize = 0;
    while i < v.len()
        invariant
            i <= v.len(),
            res@ == v@.take(i as int),
        decreases v.len() - i,
    {
        res.push(v[i]);
        i += 1;
        assert(res@ == v@.take(i as int));
    }
    assert(v@.take(v.len() as int) == v@);
    res
}

/// Once a prefix of the components fails to normalise, so do they all.
pub proof fn lemma_normalize_none_extends(ps: Seq<Seq<char>>, k: int)
    requires
        0 <= k <= ps.len(),
        normalize_components(ps.take(k)) is None,
    ensures
        normalize_components(ps) is None,
    decreases ps.len() - k,
{
    if k == ps.len() {
        assert(ps.take(k) == ps);
    } else {
        assert(ps.take(k + 1).drop_last() == ps.take(k));
        lemma_normalize_none_extends(ps, k + 1);
    }
}

/// Lexical normalisation of components (see `normalize_components`).
pub fn normalize_parts(cs: &Vec<Vec<char>>) -> (res: Option<Vec<Vec<char>>>)
    ensures
        match normalize_components(views(cs@)) {
            None => res is None,
            Some(st) => res matches Some(r) && views(r@) == st,
        },
{
    let mut stack: Vec<Vec<char>> = Vec::new();
    let mut i: usize = 0;
    assert(views(cs@).take(0) == Seq::<Seq<char>>::empty());
    while i < cs.len()
        invariant
            i <= cs@.len(),
            normalize_components(views(cs@).take(i as int)) == Some(views(stack@)),
        decreases cs.len() - i,
    {
        let ghost ps = views(cs@);
        let ghost before = views(stack@);
        assert(ps.take(i + 1).drop_last() == ps.take(i as int));
        assert(ps.take(i + 1).last() == cs@[i as int]@);
        let c = &cs[i];
        let is_up = c.len() == 2 && c[0] == '.' && c[1] == '.';
        proof {
            if is_up {
                assert(c@ =~= seq!['.', '.']);
            } else if c@.len() == 2 {
                assert(c@[0] != seq!['.', '.'][0] || c@[1] != seq!['.', '.'][1]);
            } else {
                assert(c@.len() != seq!['.', '.'].len());
            }
        }
        if is_up {
            if stack.len() == 0 {
                proof {
                    lemma_normalize_none_extends(ps, i + 1);
                }
                return None;
            }
            stack.pop();
            assert(views(stack@) == before.drop_last());
        } else {
            let copy = copy_chars(c);
            stack.push(copy);
            assert(views(stack@) == before.push(c@));
        }
        i += 1;
    }
    assert(views(cs@).take(cs@.len() as int) == views(cs@));
    Some(stack)
}

/// The text of a path made of these components (see `render`).
pub fn render_parts(cs: &Vec<Vec<char>>) -> (res: Vec<char>)
    ensures
        res@ == render(views(cs@)),
{
    let mut out: Vec<char> = Vec::new();
    let mut i: usize = 0;
    let rooted = cs.len() > 0 && cs[0].len() == 1 && cs[0][0] == '/';
    proof {
        if cs@.len() > 0 {
            assert(views(cs@)[0] == cs@[0]@);
            if rooted {
                assert(cs@[0]@ =~= root_marker());
            } else if cs@[0]@.len() == 1 {
                assert(cs@[0]@[0] != root_marker()[0]);
            } else {
                assert(cs@[0]@.len() != root_marker().len());
            }
        }
    }
    let ghost rest = if rooted { views(cs@).drop_first() } else { views(cs@) };
    if rooted {
        out.push('/');
        i = 1;
    }
    let first: usize = i;
    assert(rest.take(0) == Seq::<Seq<char>>::empty());
    while i < cs.len()
        invariant
            first <= i <= cs@.len(),
            first == (if rooted { 1usize } else { 0usize }),
            rest == views(cs@).subrange(first as int, cs@.len() as int),
            out@ == (if rooted { seq!['/'] } else { Seq::<char>::empty() }) + join(rest.take(i - first)),
        decreases cs.len() - i,
    {
        let ghost k = i - first;
        assert(rest.take(k + 1).drop_last() == rest.take(k));
        assert(rest.take(k + 1).last() == cs@[i as int]@);
        if i > first {
            out.push('/');
        }
        let c = &cs[i];
        let mut j: usize = 0;
        let ghost mid = out@;
        while j < c.len()
            invariant
                j <= c@.len(),
                out@ == mid + c@.take(j as int),
            decreases c.len() - j,
        {
            out.push(c[j]);
            j += 1;
            assert(out@ == mid + c@.take(j as int));
        }
        assert(c@.take(c@.len() as int) == c@);
        i += 1;
        proof {
            if k == 0 {
                assert(rest.take(1).len() == 1);
                assert(join(rest.take(1)) == rest.take(1)[0]);
            }
        }
    }
    proof {
        assert(rest.take(cs@.len() - first) == rest);
        if rooted {
            assert(rest == views(cs@).drop_first());
        } else {
            assert(rest == views(cs@));
            assert(Seq::<char>::empty() + join(rest) == join(rest));
        }
    }
    out
}

/// Lexically normalise a path: drop `.` components and let each `..` remove
/// the component before it. `None` when a `..` has nothing left to remove,
/// that is when the path climbs above where it starts.
pub fn normalize_path(path: &str) -> (res: Option<String>)
    ensures
        match normalized(path@) {
            None => res is None,
            Some(n) => res matches Some(r) && r@ == n,
        },
{
    let v = chars_of(path);
    let cs = path_components(&v);
    match normalize_parts(&cs) {
        None => None,
        Some(st) => {
            let out = render_parts(&st);
            Some(string_of(&out))
        },
    }
}

/// Whether one of the strings equals `s`.
pub fn contains_string(v: &Vec<String>, s: &str) -> (res: bool)
    ensures
        res == string_views(v@).contains(s@),
{
    let mut i: usize = 0;
    while i < v.len()
        invariant
            i <= v@.len(),
            forall|j: int| 0 <= j < i ==> string_views(v@)[j] != s@,
        decreases v.len() - i,
    {
        if str_eq(v[i].as_str(), s) {
            assert(string_views(v@)[i as int] == s@);
            return true;
        }
        i += 1;
    }
    false
}

/// The candidates for a relative TypeScript import, in probe order: the
/// import resolved against the importing file's directory and normalised,
/// followed by each probed suffix. `None` for a bare or package import, and
/// for one that climbs above the repository root.
pub fn ts_import_candidates(import_path: &str, importing_file: &str) -> (res: Option<Vec<String>>)
    ensures
        match import_candidates(import_path@, importing_file@) {
            None => res is None,
            Some(cs) => res matches Some(r) && string_views(r@) == cs,
        },
{
    proof {
        reveal_strlit("./");
        reveal_strlit("../");
    }
    let ip = chars_of(import_path);
    let dot_slash = chars_of("./");
    let up_slash = chars_of("../");
    let relative = crate::text::starts_with_chars(&ip, &dot_slash) || crate::text::starts_with_chars(&ip, &up_slash);
    if !relative {
        return None;
    }
    let fv = chars_of(importing_file);
    let mut cs = path_components(&fv);
    if cs.len() > 0 {
        cs.pop();
    }
    let ghost parent = views(cs@);
    assert(parent == parent_components(importing_file@));
    let ics = path_components(&ip);
    let mut k: usize = 0;
    assert(views(ics@).take(0) == Seq::<Seq<char>>::empty());
    while k < ics.len()
        invariant
            k <= ics@.len(),
            views(cs@) == parent + views(ics@).take(k as int),
        decreases ics.len() - k,
    {
        let copy = copy_chars(&ics[k]);
        let ghost before = views(cs@);
        cs.push(copy);
        assert(views(cs@) == before.push(ics@[k as int]@));
        k += 1;
        assert(views(ics@).take(k as int) == views(ics@).take(k - 1).push(ics@[k - 1]@));
    }
    assert(views(ics@).take(ics@.len() as int) == views(ics@));
    match normalize_parts(&cs) {
        None => None,
        Some(st) => {
            let base = render_parts(&st);
            let ghost b = base@;
            proof {
                reveal_strlit(".ts");
                reveal_strlit(".tsx");
                reveal_strlit(".js");
                reveal_strlit(".jsx");
                reveal_strlit("/index.ts");
                reveal_strlit("/index.tsx");
            }
            let mut out: Vec<String> = Vec::new();
            out.push(string_of(&base));
            let mut c1 = string_of(&base);
            push_str(&mut c1, ".ts");
            out.push(c1);
            let mut c2 = string_of(&base);
            push_str(&mut c2, ".tsx");
            out.push(c2);
            let mut c3 = string_of(&base);
            push_str(&mut c3, ".js");
            out.push(c3);
            let mut c4 = string_of(&base);
            push_str(&mut c4, ".jsx");
            out.push(c4);
            let mut c5 = string_of(&base);
            push_str(&mut c5, "/index.ts");
            out.push(c5);
            let mut c6 = string_of(&base);
            push_str(&mut c6, "/index.tsx");
            out.push(c6);
            proof {
                let want = import_probes().map_values(|ext: Seq<char>| b + ext);
                assert(b + Seq::<char>::empty() == b);
                assert(string_views(out@) =~= want);
            }
            Some(out)
        },
    }
}

/// Resolve a relative TypeScript import to a repository-relative file: the
/// first candidate (see `ts_import_candidates`) that is one of the existing
/// files. `None` for a bare import, for one that leaves the repository, and
/// when no candidate exists.
pub fn resolve_ts_import(import_path: &str, importing_file: &str, existing_files: &Vec<String>) -> (res: Option<String>)
    ensures
        match import_candidates(import_path@, importing_file@) {
            None => res is None,
            Some(cs) => match first_present(cs, string_views(existing_files@)) {
                None => res is None,
                Some(i) => res matches Some(r) && r@ == cs[i],
            },
        },
{
    let cands = match ts_import_candidates(import_path, importing_file) {
        None => return None,
        Some(c) => c,
    };
    let ghost cs = string_views(cands@);
    let ghost files = string_views(existing_files@);
    proof {
        lemma_first_present_range(cs, files);
    }
    assert(import_candidates(import_path@, importing_file@) == Some(cs));
    let mut i: usize = 0;
    while i < cands.len()
        invariant
            i <= cands@.len(),
            import_candidates(import_path@, importing_file@) == Some(cs),
            cs == string_views(cands@),
            files == string_views(existing_files@),
            forall|j: int| 0 <= j < i ==> !files.contains(#[trigger] cs[j]),
            match first_present(cs, files) {
                Some(k) => 0 <= k < cs.len() && files.contains(cs[k]) && forall|j: int|
                    0 <= j < k ==> !files.contains(#[trigger] cs[j]),
                None => forall|j: int| 0 <= j < cs.len() ==> !files.contains(#[trigger] cs[j]),
            },
        decreases cands.len() - i,
    {
        if contains_string(existing_files, cands[i].as_str()) {
            assert(cs[i as int] == cands@[i as int]@);
            let found = crate::text::owned(cands[i].as_str());
            proof {
                match first_present(cs, files) {
                    Some(k) => {
                        if k < i {
                            assert(!files.contains(cs[k]));
                        } else if k > i {
                            assert(!files.contains(cs[i as int]));
                        }
                    },
                    None => {
                        assert(!files.contains(cs[i as int]));
                    },
                }
            }
            return Some(found);
        }
        assert(cs[i as int] == cands@[i as int]@);
        i += 1;
    }
    proof {
        match first_present(cs, files) {
            Some(k) => {
                assert(!files.contains(cs[k]));
            },
            None => {},
        }
    }
    None
}

/// Named pieces are never empty and never `.`.
pub proof fn lemma_named_pieces_named(pieces: Seq<Seq<char>>)
    ensures
        forall|k: int| 0 <= k < named_pieces(pieces).len() ==> (#[trigger] named_pieces(pieces)[k]).len() > 0
            && named_pieces(pieces)[k] != seq!['.'],
    decreases pieces.len(),
{
    if pieces.len() > 0 {
        lemma_named_pieces_named(pieces.drop_last());
        let init = named_pieces(pieces.drop_last());
        let p = pieces.last();
        if !(p.len() == 0 || p == seq!['.']) {
            assert forall|k: int| 0 <= k < init.push(p).len() implies (#[trigger] init.push(p)[k]).len() > 0
                && init.push(p)[k] != seq!['.'] by {
                if k < init.len() {
                    assert(init.push(p)[k] == init[k]);
                }
            }
        }
    }
}

/// Normalising keeps only components that are not `..`, from those given.
pub proof fn lemma_normalize_keeps(cs: Seq<Seq<char>>)
    ensures
        match normalize_components(cs) {
            Some(st) => forall|k: int| 0 <= k < st.len() ==> (#[trigger] st[k]) != seq!['.', '.'] && cs.contains(st[k]),
            None => true,
        },
    decreases cs.len(),
{
    if cs.len() > 0 {
        lemma_normalize_keeps(cs.drop_last());
        match normalize_components(cs.drop_last()) {
            Some(st) => {
                assert forall|x: Seq<char>| cs.drop_last().contains(x) implies cs.contains(x) by {
                    let j = choose|j: int| 0 <= j < cs.drop_last().len() && cs.drop_last()[j] == x;
                    assert(cs[j] == x);
                }
                assert(cs.contains(cs.last())) by {
                    assert(cs[cs.len() - 1] == cs.last());
                }
            },
            None => {},
        }
    }
}

/// A normalised path has no `.` and no `..` components, and no empty ones:
/// its components are the root marker or names.
pub proof fn lemma_normalized_is_clean(s: Seq<char>)
    ensures
        match normalize_components(components(s)) {
            Some(st) => forall|k: int| 0 <= k < st.len() ==> {
                &&& (#[trigger] st[k]) != seq!['.', '.']
                &&& st[k] != seq!['.']
                &&& st[k].len() > 0
            },
            None => true,
        },
{
    let cs = components(s);
    let named = named_pieces(split(s, '/'));
    lemma_named_pieces_named(split(s, '/'));
    lemma_normalize_keeps(cs);
    assert forall|x: Seq<char>| cs.contains(x) implies x.len() > 0 && x != seq!['.'] by {
        let j = choose|j: int| 0 <= j < cs.len() && cs[j] == x;
        if s.len() > 0 && s[0] == '/' {
            if j == 0 {
                assert(x == root_marker());
                assert(x.len() == 1 && x[0] == '/');
                assert(x[0] != seq!['.'][0]);
            } else {
                assert(x == named[j - 1]);
            }
        } else {
            assert(x == named[j]);
        }
    }
}

/// No character of `x` is a `/`.
pub open spec fn slash_free(x: Seq<char>) -> bool {
    forall|i: int| 0 <= i < x.len() ==> x[i] != '/'
}

/// Every component is slash-free, but the first may be the root marker.
pub open spec fn rooted_at_most_first(cs: Seq<Seq<char>>) -> bool {
    forall|k: int| 0 <= k < cs.len() ==> slash_free(#[trigger] cs[k]) || (k == 0 && cs[k] == root_marker())
}

/// Text that ends in a slash-free run splits as the text before it, with
/// the run appended to the last piece.
proof fn lemma_split_append_free(x: Seq<char>, y: Seq<char>)
    requires
        slash_free(y),
    ensures
        split(x + y, '/') == split(x, '/').update(
            split(x, '/').len() - 1,
            split(x, '/').last() + y,
        ),
    decreases y.len(),
{
    lemma_split_nonempty(x, '/');
    let s = split(x, '/');
    if y.len() == 0 {
        assert(x + y =~= x);
        assert(s.last() + y =~= s.last());
        assert(s.update(s.len() - 1, s.last()) =~= s);
    } else {
        let y0 = y.drop_last();
        assert(slash_free(y0)) by {
            assert forall|i: int| 0 <= i < y0.len() implies y0[i] != '/' by {
                assert(y0[i] == y[i]);
            }
        }
        lemma_split_append_free(x, y0);
        assert(y[y.len() - 1] != '/');
        assert((x + y).drop_last() =~= x + y0);
        assert((x + y).last() == y.last());
        let s0 = split(x + y0, '/');
        assert(s0.last() == s.last() + y0);
        assert((s.last() + y0).push(y.last()) =~= s.last() + y);
        assert(split(x + y, '/') =~= s.update(s.len() - 1, s.last() + y));
    }
}

/// Slash-free components joined by `/` split back into themselves.
proof fn lemma_split_join(cs: Seq<Seq<char>>)
    requires
        cs.len() >= 1,
        forall|k: int| 0 <= k < cs.len() ==> slash_free(#[trigger] cs[k]),
    ensures
        split(join(cs), '/') == cs,
    decreases cs.len(),
{
    assert(slash_free(cs[cs.len() - 1]));
    if cs.len() == 1 {
        lemma_split_append_free(Seq::empty(), cs[0]);
        assert(Seq::<char>::empty() + cs[0] =~= cs[0]);
        assert(split(cs[0], '/') =~= cs);
    } else {
        let init = cs.drop_last();
        assert forall|k: int| 0 <= k < init.len() implies slash_free(#[trigger] init[k]) by {
            assert(init[k] == cs[k]);
        }
        lemma_split_join(init);
        let a = join(init) + seq!['/'];
        assert(a.drop_last() =~= join(init));
        assert(a.last() == '/');
        assert(split(a, '/') == init.push(Seq::<char>::empty()));
        lemma_split_append_free(a, cs.last());
        assert(join(cs) == a + cs.last());
        assert(Seq::<char>::empty() + cs.last() =~= cs.last());
        assert(split(join(cs), '/') =~= cs);
    }
}

/// Text after a leading slash splits after an empty first piece.
proof fn lemma_split_leading_slash(y: Seq<char>)
    ensures
        split(seq!['/'] + y, '/') == seq![Seq::<char>::empty()] + split(y, '/'),
    decreases y.len(),
{
    let e = seq![Seq::<char>::empty()];
    if y.len() == 0 {
        let slash = seq!['/'];
        assert(slash + y =~= slash);
        assert(slash.drop_last() =~= Seq::<char>::empty());
        assert(slash.last() == '/');
        let sp = split(Seq::<char>::empty(), '/');
        assert(sp == e);
        assert(split(slash, '/') == sp.push(Seq::<char>::empty()));
        assert(sp.push(Seq::<char>::empty()) =~= e + split(y, '/'));
    } else {
        let y0 = y.drop_last();
        lemma_split_leading_slash(y0);
        lemma_split_nonempty(y0, '/');
        assert((seq!['/'] + y).drop_last() =~= seq!['/'] + y0);
        assert((seq!['/'] + y).last() == y.last());
        let s0 = split(y0, '/');
        let t = e + s0;
        if y.last() == '/' {
            assert(t.push(Seq::<char>::empty()) =~= e + s0.push(Seq::<char>::empty()));
        } else {
            assert(t.last() == s0.last());
            assert(t.update(t.len() - 1, t.last().push(y.last())) =~= e + s0.update(
                s0.len() - 1,
                s0.last().push(y.last()),
            ));
        }
    }
}

/// The pieces of a split are slash-free.
proof fn lemma_split_pieces_free(s: Seq<char>)
    ensures
        forall|k: int| 0 <= k < split(s, '/').len() ==> slash_free(#[trigger] split(s, '/')[k]),
    decreases s.len(),
{
    if s.len() > 0 {
        let s0 = s.drop_last();
        lemma_split_pieces_free(s0);
        lemma_split_nonempty(s0, '/');
        let init = split(s0, '/');
        if s.last() == '/' {
            assert forall|k: int| 0 <= k < split(s, '/').len() implies slash_free(#[trigger] split(s, '/')[k]) by {
                if k < init.len() {
                    assert(split(s, '/')[k] == init[k]);
                } else {
                    assert(split(s, '/')[k] == Seq::<char>::empty());
                }
            }
        } else {
            let last = init.last().push(s.last());
            assert(slash_free(init[init.len() - 1]));
            assert(slash_free(last)) by {
                assert forall|i: int| 0 <= i < last.len() implies last[i] != '/' by {
                    if i < init.last().len() {
                        assert(last[i] == init.last()[i]);
                    }
                }
            }
            assert forall|k: int| 0 <= k < split(s, '/').len() implies slash_free(#[trigger] split(s, '/')[k]) by {
                if k < init.len() - 1 {
                    assert(split(s, '/')[k] == init[k]);
                } else {
                    assert(split(s, '/')[k] == last);
                }
            }
        }
    }
}

/// Dropping pieces keeps slash-freedom of those that stay.
proof fn lemma_named_pieces_free(pieces: Seq<Seq<char>>)
    requires
        forall|k: int| 0 <= k < pieces.len() ==> slash_free(#[trigger] pieces[k]),
    ensures
        forall|k: int| 0 <= k < named_pieces(pieces).len() ==> slash_free(#[trigger] named_pieces(pieces)[k]),
    decreases pieces.len(),
{
    if pieces.len() > 0 {
        let init = pieces.drop_last();
        assert forall|k: int| 0 <= k < init.len() implies slash_free(#[trigger] init[k]) by {
            assert(init[k] == pieces[k]);
        }
        lemma_named_pieces_free(init);
        assert(slash_free(pieces[pieces.len() - 1]));
        let n = named_pieces(init);
        assert forall|k: int| 0 <= k < n.push(pieces.last()).len() implies slash_free(
            #[trigger] n.push(pieces.last())[k],
        ) by {
            if k < n.len() {
                assert(n.push(pieces.last())[k] == n[k]);
            }
        }
    }
}

/// Pieces that all name something are kept as they are.
proof fn lemma_named_pieces_id(cs: Seq<Seq<char>>)
    requires
        forall|k: int| 0 <= k < cs.len() ==> (#[trigger] cs[k]).len() > 0 && cs[k] != seq!['.'],
    ensures
        named_pieces(cs) == cs,
    decreases cs.len(),
{
    if cs.len() > 0 {
        let init = cs.drop_last();
        assert forall|k: int| 0 <= k < init.len() implies (#[trigger] init[k]).len() > 0 && init[k] != seq!['.'] by {
            assert(init[k] == cs[k]);
        }
        lemma_named_pieces_id(init);
        assert(cs[cs.len() - 1].len() > 0 && cs[cs.len() - 1] != seq!['.']);
        assert(init.push(cs.last()) =~= cs);
    }
}

/// An empty first piece is dropped.
proof fn lemma_named_pieces_skip_empty_front(cs: Seq<Seq<char>>)
    ensures
        named_pieces(seq![Seq::<char>::empty()] + cs) == named_pieces(cs),
    decreases cs.len(),
{
    let e = seq![Seq::<char>::empty()];
    if cs.len() == 0 {
        assert(e + cs =~= e);
        assert(e.drop_last() =~= Seq::<Seq<char>>::empty());
        assert(e.last().len() == 0);
        assert(named_pieces(e) == named_pieces(Seq::<Seq<char>>::empty()));
    } else {
        assert((e + cs).drop_last() =~= e + cs.drop_last());
        assert((e + cs).last() == cs.last());
        lemma_named_pieces_skip_empty_front(cs.drop_last());
        let p = cs.last();
        if p.len() == 0 || p == seq!['.'] {
            assert(named_pieces(e + cs) == named_pieces(e + cs.drop_last()));
            assert(named_pieces(cs) == named_pieces(cs.drop_last()));
        } else {
            assert(named_pieces(e + cs) == named_pieces(e + cs.drop_last()).push(p));
            assert(named_pieces(cs) == named_pieces(cs.drop_last()).push(p));
        }
    }
}

/// Joined components start with the first character of the first one.
proof fn lemma_join_first(cs: Seq<Seq<char>>)
    requires
        cs.len() >= 1,
        cs[0].len() > 0,
    ensures
        join(cs).len() > 0,
        join(cs)[0] == cs[0][0],
    decreases cs.len(),
{
    if cs.len() > 1 {
        lemma_join_first(cs.drop_last());
    }
}

/// Components without `..` normalise to themselves.
proof fn lemma_normalize_without_ups(cs: Seq<Seq<char>>)
    requires
        forall|k: int| 0 <= k < cs.len() ==> #[trigger] cs[k] != seq!['.', '.'],
    ensures
        normalize_components(cs) == Some(cs),
    decreases cs.len(),
{
    if cs.len() > 0 {
        let init = cs.drop_last();
        assert forall|k: int| 0 <= k < init.len() implies #[trigger] init[k] != seq!['.', '.'] by {
            assert(init[k] == cs[k]);
        }
        lemma_normalize_without_ups(init);
        assert(cs[cs.len() - 1] != seq!['.', '.']);
        assert(init.push(cs.last()) =~= cs);
    }
}

/// The components of a path are slash-free but for a leading root marker.
proof fn lemma_components_shape(s: Seq<char>)
    ensures
        rooted_at_most_first(components(s)),
{
    let named = named_pieces(split(s, '/'));
    lemma_split_pieces_free(s);
    lemma_named_pieces_free(split(s, '/'));
    if s.len() > 0 && s[0] == '/' {
        let cs = seq![root_marker()] + named;
        assert forall|k: int| 0 <= k < cs.len() implies slash_free(#[trigger] cs[k]) || (k == 0 && cs[k]
            == root_marker()) by {
            if k > 0 {
                assert(cs[k] == named[k - 1]);
            }
        }
    }
}

/// Normalising keeps the shape: slash-free components but for a leading
/// root marker.
proof fn lemma_normalize_shape(cs: Seq<Seq<char>>)
    requires
        rooted_at_most_first(cs),
    ensures
        match normalize_components(cs) {
            Some(st) => rooted_at_most_first(st),
            None => true,
        },
    decreases cs.len(),
{
    if cs.len() > 0 {
        let init = cs.drop_last();
        assert forall|k: int| 0 <= k < init.len() implies slash_free(#[trigger] init[k]) || (k == 0 && init[k]
            == root_marker()) by {
            assert(init[k] == cs[k]);
        }
        lemma_normalize_shape(init);
        assert(slash_free(cs[cs.len() - 1]) || (cs.len() - 1 == 0 && cs[cs.len() - 1] == root_marker()));
        match normalize_components(init) {
            Some(st) => {
                if cs.last() == seq!['.', '.'] {
                    if st.len() > 0 {
                        let d = st.drop_last();
                        assert forall|k: int| 0 <= k < d.len() implies slash_free(#[trigger] d[k]) || (k == 0
                            && d[k] == root_marker()) by {
                            assert(d[k] == st[k]);
                        }
                    }
                } else {
                    if cs.len() == 1 {
                        assert(init.len() == 0);
                        assert(st.len() == 0);
                    }
                    let p = st.push(cs.last());
                    assert forall|k: int| 0 <= k < p.len() implies slash_free(#[trigger] p[k]) || (k == 0 && p[k]
                        == root_marker()) by {
                        if k < st.len() {
                            assert(p[k] == st[k]);
                        }
                    }
                }
            },
            None => {},
        }
    }
}

/// Clean components read back from their text.
proof fn lemma_components_of_render(st: Seq<Seq<char>>)
    requires
        rooted_at_most_first(st),
        forall|k: int| 0 <= k < st.len() ==> (#[trigger] st[k]).len() > 0 && st[k] != seq!['.'],
    ensures
        components(render(st)) == st,
{
    let e = seq![Seq::<char>::empty()];
    if st.len() > 0 && st[0] == root_marker() {
        let rest = st.drop_first();
        assert forall|k: int| 0 <= k < rest.len() implies slash_free(#[trigger] rest[k]) by {
            assert(rest[k] == st[k + 1]);
            assert(slash_free(st[k + 1]));
        }
        assert forall|k: int| 0 <= k < rest.len() implies (#[trigger] rest[k]).len() > 0 && rest[k] != seq!['.'] by {
            assert(rest[k] == st[k + 1]);
        }
        let r = seq!['/'] + join(rest);
        assert(render(st) == r);
        assert(r[0] == '/');
        lemma_split_leading_slash(join(rest));
        lemma_named_pieces_skip_empty_front(split(join(rest), '/'));
        if rest.len() == 0 {
            assert(join(rest) == Seq::<char>::empty());
            assert(split(Seq::<char>::empty(), '/') == e);
            lemma_named_pieces_skip_empty_front(Seq::<Seq<char>>::empty());
            assert(e + Seq::<Seq<char>>::empty() =~= e);
            assert(named_pieces(Seq::<Seq<char>>::empty()) == Seq::<Seq<char>>::empty());
        } else {
            lemma_split_join(rest);
            lemma_named_pieces_id(rest);
        }
        assert(components(r) =~= seq![root_marker()] + rest);
        assert(seq![root_marker()] + rest =~= st);
    } else if st.len() == 0 {
        assert(render(st) == Seq::<char>::empty());
        assert(split(Seq::<char>::empty(), '/') == e);
        lemma_named_pieces_skip_empty_front(Seq::<Seq<char>>::empty());
        assert(e + Seq::<Seq<char>>::empty() =~= e);
        assert(components(render(st)) =~= st);
    } else {
        assert forall|k: int| 0 <= k < st.len() implies slash_free(#[trigger] st[k]) by {
            if k == 0 {
                assert(st[0] != root_marker());
            }
        }
        lemma_join_first(st);
        assert(slash_free(st[0]));
        assert(st[0][0] != '/');
        lemma_split_join(st);
        lemma_named_pieces_id(st);
        assert(components(render(st)) == st);
    }
}

/// Normalising a normalised path gives it back unchanged.
pub proof fn lemma_normalize_idempotent(s: Seq<char>)
    ensures
        match normalized(s) {
            Some(n) => normalized(n) == Some(n),
            None => true,
        },
{
    match normalize_components(components(s)) {
        None => {},
        Some(st) => {
            lemma_normalized_is_clean(s);
            lemma_components_shape(s);
            lemma_normalize_shape(components(s));
            lemma_components_of_render(st);
            lemma_normalize_without_ups(st);
        },
    }
}

} // verus!
