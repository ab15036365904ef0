//! Canonical entity identifiers.

use vstd::prelude::*;
use vstd::string::*;
use crate::text::{
    chars_of, contains_seq, find_chars, find_from, lemma_contains_iff, lemma_find_from_result,
    lemma_find_from_skip, match_at, owned, push_str, starts_with, starts_with_chars,
};

verus! {

/// `component::{ecosystem}::{path}`.
pub open spec fn component_id_text(ecosystem: Seq<char>, path: Seq<char>) -> Seq<char> {
    "component::"@ + ecosystem + "::"@ + path
}

/// What follows the `component::` prefix, if the text has it.
pub open spec fn component_id_rest(s: Seq<char>) -> Option<Seq<char>> {
    if starts_with(s, "component::"@) {
        Some(s.skip(11))
    } else {
        None
    }
}

/// The first `::`-separated segment of `r` (`split("::").next()`).
pub open spec fn first_segment(r: Seq<char>) -> Seq<char> {
    match find_from(r, "::"@, 0) {
        Some(i) => r.take(i),
        None => r,
    }
}

/// The second `::`-separated segment of `r` (`split("::").nth(1)`).
pub open spec fn second_segment(r: Seq<char>) -> Option<Seq<char>> {
    match find_from(r, "::"@, 0) {
        Some(i) => match find_from(r, "::"@, i + 2) {
            Some(j) => Some(r.subrange(i + 2, j)),
            None => Some(r.skip(i + 2)),
        },
        None => None,
    }
}

/// A canonical component identifier: `component::{ecosystem}::{path}`,
/// for example `component::cargo::crates/chizu-core` or
/// `component::npm::.` for a root package.
#[derive(Debug, Clone, PartialEq, Eq, Hash)]
pub struct ComponentId(pub String);

impl ComponentId {
    /// The identifier of the component rooted at `path` in `ecosystem`.
    pub fn new(ecosystem: &str, path: &str) -> (res: Self)
        ensures
            res.0@ == component_id_text(ecosystem@, path@),
    {
        ComponentId(component_id(ecosystem, path))
    }

    /// Accepts exactly the strings that start with `component::`.
    pub fn parse(s: &str) -> (res: Option<Self>)
        ensures
            match res {
                Some(id) => starts_with(s@, "component::"@) && id.0@ == s@,
                None => !starts_with(s@, "component::"@),
            },
    {
        let v = chars_of(s);
        let prefix = chars_of("component::");
        if starts_with_chars(&v, &prefix) {
            Some(ComponentId(owned(s)))
        } else {
            None
        }
    }

    /// The ecosystem: the first `::`-separated segment after the
    /// `component::` prefix; `None` without that prefix.
    pub fn ecosystem(&self) -> (res: Option<&str>)
        ensures
            match component_id_rest(self.0@) {
                Some(r) => res matches Some(e) && e@ == first_segment(r),
                None => res is None,
            },
    {
        proof {
            reveal_strlit("component::");
            reveal_strlit("::");
        }
        let s = self.0.as_str();
        let v = chars_of(s);
        let prefix = chars_of("component::");
        if !starts_with_chars(&v, &prefix) {
            return None;
        }
        let sep = chars_of("::");
        let found = find_chars(&v, &sep, 11);
        proof {
            lemma_find_shift(v@, sep@, 11);
            lemma_find_from_result(v@, sep@, 11);
        }
        let end = match found {
            Some(i) => i,
            None => v.len(),
        };
        let res = s.substring_char(11, end);
        proof {
            let r = v@.skip(11);
            assert(component_id_rest(self.0@) == Some(r));
            assert(res@ == v@.subrange(11, end as int));
            match found {
                Some(i) => {
                    assert(r.take(i - 11) == v@.subrange(11, i as int));
                },
                None => {
                    assert(r == v@.subrange(11, v@.len() as int));
                },
            }
        }
        Some(res)
    }

    /// The path: the second `::`-separated segment after the `component::`
    /// prefix; `None` if there is no such segment.
    pub fn path(&self) -> (res: Option<&str>)
        ensures
            match component_id_rest(self.0@) {
                Some(r) => match second_segment(r) {
                    Some(p) => res matches Some(q) && q@ == p,
                    None => res is None,
                },
                None => res is None,
            },
    {
        proof {
            reveal_strlit("component::");
            reveal_strlit("::");
        }
        let s = self.0.as_str();
        let v = chars_of(s);
        let prefix = chars_of("component::");
        if !starts_with_chars(&v, &prefix) {
            return None;
        }
        let sep = chars_of("::");
        let found = find_chars(&v, &sep, 11);
        proof {
            lemma_find_shift(v@, sep@, 11);
            lemma_find_from_result(v@, sep@, 11);
            assert(component_id_rest(self.0@) == Some(v@.skip(11)));
        }
        match found {
            Some(i) => {
                let ghost r = v@.skip(11);
                proof {
                    assert(match_at(v@, sep@, i as int));
                    assert(sep@.len() == 2);
                    assert(i + 2 <= v@.len());
                    assert(i + 2 <= v.len());
                }
                let found2 = find_chars(&v, &sep, i + 2);
                proof {
                    lemma_find_shift(v@, sep@, i as int + 2);
                    lemma_find_from_result(v@, sep@, i as int + 2);
                }
                let end = match found2 {
                    Some(j) => j,
                    None => v.len(),
                };
                let res = s.substring_char(i + 2, end);
                proof {
                    assert(res@ == v@.subrange(i + 2, end as int));
                    match found2 {
                        Some(j) => {
                            assert(r.subrange(i - 11 + 2, j - 11) == v@.subrange(
                                i + 2,
                                j as int,
                            ));
                        },
                        None => {
                            assert(r.skip(i - 11 + 2) == v@.subrange(i + 2, v@.len() as int));
                        },
                    }
                }
                Some(res)
            },
            None => None,
        }
    }

    /// The identifier text (what `Display` prints).
    pub fn to_string(&self) -> (res: String)
        ensures
            res@ == self.0@,
    {
        owned(self.0.as_str())
    }
}

/// Searching `s` from `k` is searching `s.skip(k')` shifted: for the
/// prefix of length 11 this relates the id text to its rest.
pub proof fn lemma_find_shift(s: Seq<char>, p: Seq<char>, start: int)
    requires
        11 <= start,
        11 <= s.len(),
    ensures
        match find_from(s, p, start) {
            Some(i) => find_from(s.skip(11), p, start - 11) == Some(i - 11),
            None => find_from(s.skip(11), p, start - 11) is None,
        },
    decreases s.len() + 1 - start,
{
    let t = s.skip(11);
    if start + p.len() > s.len() {
    } else {
        assert(t.subrange(start - 11, start - 11 + p.len()) == s.subrange(start, start + p.len()));
        if !match_at(s, p, start) {
            lemma_find_shift(s, p, start + 1);
        }
    }
}

fn concat3(a: &str, b: &str, c: &str) -> (res: String)
    ensures
        res@ == a@ + b@ + c@,
{
    let mut res = owned(a);
    push_str(&mut res, b);
    push_str(&mut res, c);
    res
}

fn concat4(a: &str, b: &str, c: &str, d: &str) -> (res: String)
    ensures
        res@ == a@ + b@ + c@ + d@,
{
    let mut res = concat3(a, b, c);
    push_str(&mut res, d);
    res
}

/// `symbol::{file_path}::{name}`.
pub fn symbol_id(file_path: &str, name: &str) -> (res: String)
    ensures
        res@ == "symbol::"@ + file_path@ + "::"@ + name@,
{
    concat4("symbol::", file_path, "::", name)
}

/// `source_unit::{path}`.
pub fn source_unit_id(path: &str) -> (res: String)
    ensures
        res@ == "source_unit::"@ + path@,
{
    let mut res = owned("source_unit::");
    push_str(&mut res, path);
    res
}

/// `component::{ecosystem}::{path}`.
pub fn component_id(ecosystem: &str, path: &str) -> (res: String)
    ensures
        res@ == component_id_text(ecosystem@, path@),
{
    concat4("component::", ecosystem, "::", path)
}

/// `test::{file_path}::{name}`.
pub fn test_id(file_path: &str, name: &str) -> (res: String)
    ensures
        res@ == "test::"@ + file_path@ + "::"@ + name@,
{
    concat4("test::", file_path, "::", name)
}

/// `doc::{path}`.
pub fn doc_id(path: &str) -> (res: String)
    ensures
        res@ == "doc::"@ + path@,
{
    let mut res = owned("doc::");
    push_str(&mut res, path);
    res
}

/// A component id built from an ecosystem without `:` and a path without
/// `::` gives back that ecosystem and that path.
pub proof fn lemma_component_id_parts(ecosystem: Seq<char>, path: Seq<char>)
    requires
        forall|i: int| 0 <= i < ecosystem.len() ==> ecosystem[i] != ':',
        !contains_seq(path, "::"@),
    ensures
        component_id_rest(component_id_text(ecosystem, path)) == Some(ecosystem + "::"@ + path),
        first_segment(ecosystem + "::"@ + path) == ecosystem,
        second_segment(ecosystem + "::"@ + path) == Some(path),
{
    reveal_strlit("component::");
    reveal_strlit("::");
    let s = component_id_text(ecosystem, path);
    let r = ecosystem + "::"@ + path;
    assert(s.take(11) == "component::"@);
    assert(s.skip(11) == r);
    let e = ecosystem.len() as int;
    assert forall|k: int| 0 <= k < e implies !match_at(r, "::"@, k) by {
        assert(r[k] == ecosystem[k]);
        if match_at(r, "::"@, k) {
            assert(r.subrange(k, k + 2)[0] == r[k]);
        }
    }
    assert(match_at(r, "::"@, e)) by {
        assert(r.subrange(e, e + 2) == "::"@);
    }
    lemma_find_from_skip(r, "::"@, 0, e);
    assert(r.take(e) == ecosystem);
    lemma_contains_iff(path, "::"@);
    assert forall|k: int| e + 2 <= k implies !match_at(r, "::"@, k) by {
        if match_at(r, "::"@, k) {
            assert(r.subrange(k, k + 2) == path.subrange(k - e - 2, k - e));
            assert(match_at(path, "::"@, k - e - 2));
        }
    }
    lemma_find_from_result(r, "::"@, e + 2);
    assert(r.skip(e + 2) == path);
}

} // verus!
