//! Reranking: the match signals of each candidate, and the final order of
//! scored entries.
//!
//! Scores are weighted sums of floating-point signals; the weighting stays
//! with the caller. This module computes every signal that is not a float
//! (which sources found a candidate, term matches against name, path and
//! keywords, kind preference, export status) together with the reason
//! strings that describe them, and orders entries by an integer key that
//! the caller derives from their scores.

use vstd::prelude::*;
use crate::classify::{preferred_kinds_spec, TaskCategory};
use crate::model::entity::EntityKind;
use crate::numfmt::{decimal, decimal_int, i64_to_string, usize_to_string};
use crate::retrieve::{
    any_token_in, path_text, Candidate, RetrievalSource,
};
use crate::text::{chars_of, contains_chars, contains_seq, lowercase, owned, push_str, str_eq, to_lowercase};

verus! {

/// The weight of the task-route signal, in hundredths of the score.
pub const W_TASK_ROUTE: u32 = 30;
/// The weight of the keyword signal, in hundredths of the score.
pub const W_KEYWORD: u32 = 20;
/// The weight of the name signal, in hundredths of the score.
pub const W_NAME_MATCH: u32 = 15;
/// The weight of the vector signal, in hundredths of the score.
pub const W_VECTOR: u32 = 20;
/// The weight of the kind-preference signal, in hundredths of the score.
pub const W_KIND_PREF: u32 = 5;
/// The weight of the export signal, in hundredths of the score.
pub const W_EXPORTED: u32 = 5;
/// The weight of the path signal, in hundredths of the score.
pub const W_PATH_MATCH: u32 = 5;

/// The signal weights make up the whole score.
pub proof fn lemma_weights_sum_to_whole()
    ensures
        W_TASK_ROUTE + W_KEYWORD + W_NAME_MATCH + W_VECTOR + W_KIND_PREF + W_EXPORTED + W_PATH_MATCH == 100,
{
}

/// The non-float signals of one candidate.
#[derive(Debug)]
pub struct Signals {
    /// Priorities of the task routes that found the candidate, in order.
    pub route_priorities: Vec<i64>,
    /// Found by keyword matching.
    pub keyword_source: bool,
    /// When not found by keyword matching: how many query tokens occur in
    /// some lowercased keyword (0 when there are no keywords or no tokens).
    pub keyword_overlap: usize,
    /// Found by name matching.
    pub name_source: bool,
    /// When not found by name matching: some token occurs in the lowercased
    /// name.
    pub name_contains_term: bool,
    /// Bit patterns of the vector distances that found the candidate, in order.
    pub vector_distance_bits: Vec<u32>,
    /// The kind is preferred for the query's category.
    pub kind_preferred: bool,
    /// The entity is exported.
    pub exported: bool,
    /// Found by path matching.
    pub path_source: bool,
    /// When not found by path matching: the lowercased path is non-empty and
    /// some token occurs in it.
    pub path_contains_term: bool,
    /// Reasons for the signals scored before the vector signal.
    pub reasons_before_vector: Vec<String>,
    /// Reasons for the signals scored after the vector signal.
    pub reasons_after_vector: Vec<String>,
}

pub open spec fn has_source(srcs: Seq<RetrievalSource>, s: RetrievalSource) -> bool {
    exists|i: int| 0 <= i < srcs.len() && srcs[i] == s
}

/// Priorities of the task-route sources, in order.
pub open spec fn route_priorities(srcs: Seq<RetrievalSource>) -> Seq<i64>
    decreases srcs.len(),
{
    if srcs.len() == 0 {
        seq![]
    } else {
        let rest = route_priorities(srcs.drop_last());
        match srcs.last() {
            RetrievalSource::TaskRoute { priority } => rest.push(priority),
            _ => rest,
        }
    }
}

/// Distances of the vector sources, in order.
pub open spec fn vector_distances(srcs: Seq<RetrievalSource>) -> Seq<u32>
    decreases srcs.len(),
{
    if srcs.len() == 0 {
        seq![]
    } else {
        let rest = vector_distances(srcs.drop_last());
        match srcs.last() {
            RetrievalSource::VectorSearch { distance_bits } => rest.push(distance_bits),
            _ => rest,
        }
    }
}

/// The number of tokens among the first `n` that occur in some lowercased keyword.
pub open spec fn overlap_count(tokens: Seq<String>, keywords: Seq<String>, n: int) -> nat
    decreases n,
{
    if n <= 0 {
        0
    } else {
        overlap_count(tokens, keywords, n - 1) + (if crate::retrieve::any_token_in_keywords(
            seq![tokens[n - 1]],
            keywords,
        ) {
            1nat
        } else {
            0nat
        })
    }
}

pub open spec fn route_reasons(ps: Seq<i64>) -> Seq<Seq<char>>
    decreases ps.len(),
{
    if ps.len() == 0 {
        seq![]
    } else {
        route_reasons(ps.drop_last()).push(
            "task_route(priority="@ + decimal_int(ps.last() as int) + ")"@,
        )
    }
}

/// The signals of a candidate for a category and query tokens.
pub open spec fn signals_spec(c: Candidate, category: TaskCategory, tokens: Seq<String>) -> (
    Seq<i64>,
    bool,
    nat,
    bool,
    bool,
    Seq<u32>,
    bool,
    bool,
    bool,
    bool,
) {
    let srcs = c.sources@;
    let kw_src = has_source(srcs, RetrievalSource::KeywordMatch);
    let overlap = if !kw_src && c.keywords@.len() > 0 && tokens.len() > 0 {
        overlap_count(tokens, c.keywords@, tokens.len() as int)
    } else {
        0
    };
    let name_src = has_source(srcs, RetrievalSource::NameMatch);
    let name_contains = !name_src && any_token_in(tokens, lowercase(c.entity.name@));
    let path_src = has_source(srcs, RetrievalSource::PathMatch);
    let path_lower = lowercase(path_text(c.entity.path));
    let path_contains = !path_src && path_lower.len() > 0 && any_token_in(tokens, path_lower);
    (
        route_priorities(srcs),
        kw_src,
        overlap,
        name_src,
        name_contains,
        vector_distances(srcs),
        preferred_kinds_spec(category).contains(c.entity.kind),
        c.entity.exported,
        path_src,
        path_contains,
    )
}

/// The reasons of the signals scored before the vector signal.
pub open spec fn reasons_before_spec(
    priorities: Seq<i64>,
    kw_src: bool,
    overlap: nat,
    n_tokens: nat,
    name_src: bool,
    name_contains: bool,
) -> Seq<Seq<char>> {
    route_reasons(priorities) + (if kw_src {
        seq!["keyword_match"@]
    } else if overlap > 0 {
        seq!["keyword_overlap("@ + decimal(overlap) + "/"@ + decimal(n_tokens) + ")"@]
    } else {
        seq![]
    }) + (if name_src {
        seq!["name_match"@]
    } else if name_contains {
        seq!["name_contains_term"@]
    } else {
        seq![]
    })
}

/// The reasons of the signals scored after the vector signal.
pub open spec fn reasons_after_spec(
    kind_preferred: bool,
    exported: bool,
    path_src: bool,
    path_contains: bool,
) -> Seq<Seq<char>> {
    (if kind_preferred {
        seq!["kind_preferred"@]
    } else {
        seq![]
    }) + (if exported {
        seq!["exported"@]
    } else {
        seq![]
    }) + (if path_src {
        seq!["path_match"@]
    } else if path_contains {
        seq!["path_contains_term"@]
    } else {
        seq![]
    })
}

fn source_matches(s: &RetrievalSource, which: u8) -> (res: bool)
    ensures
        which == 0 ==> res == (*s is KeywordMatch),
        which == 1 ==> res == (*s is NameMatch),
        which == 2 ==> res == (*s is PathMatch),
{
    match s {
        RetrievalSource::KeywordMatch => which == 0,
        RetrievalSource::NameMatch => which == 1,
        RetrievalSource::PathMatch => which == 2,
        _ => false,
    }
}

fn has_source_exec(srcs: &Vec<RetrievalSource>, which: u8) -> (res: bool)
    requires
        which < 3,
    ensures
        which == 0 ==> res == has_source(srcs@, RetrievalSource::KeywordMatch),
        which == 1 ==> res == has_source(srcs@, RetrievalSource::NameMatch),
        which == 2 ==> res == has_source(srcs@, RetrievalSource::PathMatch),
{
    let mut i: usize = 0;
    while i < srcs.len()
        invariant
            i <= srcs@.len(),
            which < 3,
            forall|j: int|
                0 <= j < i ==> {
                    &&& (which == 0 ==> !(srcs@[j] is KeywordMatch))
                    &&& (which == 1 ==> !(srcs@[j] is NameMatch))
                    &&& (which == 2 ==> !(srcs@[j] is PathMatch))
                },
        decreases srcs.len() - i,
    {
        if source_matches(&srcs[i], which) {
            return true;
        }
        i += 1;
    }
    false
}

fn any_token_in_text(tokens: &Vec<String>, text: &str) -> (res: bool)
    ensures
        res == any_token_in(tokens@, text@),
{
    let t = chars_of(text);
    let mut i: usize = 0;
    while i < tokens.len()
        invariant
            i <= tokens@.len(),
            t@ == text@,
            forall|j: int| 0 <= j < i ==> !contains_seq(text@, #[trigger] tokens@[j]@),
        decreases tokens.len() - i,
    {
        let p = chars_of(tokens[i].as_str());
        if contains_chars(&t, &p) {
            return true;
        }
        i += 1;
    }
    false
}

fn token_in_keywords(token: &String, keywords: &Vec<String>) -> (res: bool)
    ensures
        res == crate::retrieve::any_token_in_keywords(seq![*token], keywords@),
{
    let p = chars_of(token.as_str());
    let mut k: usize = 0;
    while k < keywords.len()
        invariant
            k <= keywords@.len(),
            p@ == token@,
            forall|j: int| 0 <= j < k ==> !any_token_in(seq![*token], lowercase(#[trigger] keywords@[j]@)),
        decreases keywords.len() - k,
    {
        let lower = to_lowercase(keywords[k].as_str());
        let l = chars_of(lower.as_str());
        if contains_chars(&l, &p) {
            assert(seq![*token][0] == *token);
            return true;
        }
        proof {
            assert forall|i: int| 0 <= i < 1 implies !contains_seq(lowercase(keywords@[k as int]@), #[trigger] seq![*token][i]@) by {
                assert(seq![*token][i] == *token);
            }
        }
        k += 1;
    }
    false
}

fn kind_in(kinds: &Vec<EntityKind>, k: EntityKind) -> (res: bool)
    ensures
        res == kinds@.contains(k),
{
    let mut i: usize = 0;
    while i < kinds.len()
        invariant
            i <= kinds@.len(),
            forall|j: int| 0 <= j < i ==> kinds@[j] != k,
        decreases kinds.len() - i,
    {
        if kinds[i] == k {
            return true;
        }
        i += 1;
    }
    false
}

/// The reasons after the vector signal name the kind preference exactly
/// when the kind is preferred.
pub proof fn lemma_kind_reason(kind_preferred: bool, exported: bool, path_src: bool, path_contains: bool)
    ensures
        reasons_after_spec(kind_preferred, exported, path_src, path_contains).contains("kind_preferred"@)
            == kind_preferred,
{
    reveal_strlit("kind_preferred");
    reveal_strlit("exported");
    reveal_strlit("path_match");
    reveal_strlit("path_contains_term");
    let r = reasons_after_spec(kind_preferred, exported, path_src, path_contains);
    if kind_preferred {
        assert(r[0] == "kind_preferred"@);
    } else {
        assert forall|i: int| 0 <= i < r.len() implies r[i] != "kind_preferred"@ by {
            assert(r[i].len() != "kind_preferred"@.len());
        }
    }
}

/// The kind preference of a candidate follows the query's own category: a
/// candidate is marked `kind_preferred`, and gives that reason after the
/// vector signal, exactly when its entity kind is among the kinds that the
/// category prefers; another candidate of the same kind, with other
/// sources and other tokens, is marked alike.
pub proof fn lemma_kind_preference_follows_category(
    c: Candidate,
    category: TaskCategory,
    tokens: Seq<String>,
    other: Candidate,
    other_tokens: Seq<String>,
)
    requires
        other.entity.kind == c.entity.kind,
    ensures
        ({
            let sig = signals_spec(c, category, tokens);
            let reasons = reasons_after_spec(sig.6, sig.7, sig.8, sig.9);
            &&& sig.6 == preferred_kinds_spec(category).contains(c.entity.kind)
            &&& reasons.contains("kind_preferred"@) == preferred_kinds_spec(category).contains(c.entity.kind)
            &&& signals_spec(other, category, other_tokens).6 == sig.6
        }),
{
    let sig = signals_spec(c, category, tokens);
    lemma_kind_reason(sig.6, sig.7, sig.8, sig.9);
}

/// The categories differ in the kinds they prefer: tests and benches are
/// preferred when testing but not in general, components in general but
/// not when testing.
pub proof fn lemma_preferred_kinds_differ_by_category()
    ensures
        preferred_kinds_spec(TaskCategory::Test).contains(EntityKind::Test),
        preferred_kinds_spec(TaskCategory::Test).contains(EntityKind::Bench),
        !preferred_kinds_spec(TaskCategory::General).contains(EntityKind::Test),
        !preferred_kinds_spec(TaskCategory::General).contains(EntityKind::Bench),
        preferred_kinds_spec(TaskCategory::General).contains(EntityKind::Component),
        !preferred_kinds_spec(TaskCategory::Test).contains(EntityKind::Component),
{
    assert(preferred_kinds_spec(TaskCategory::Test)[0] == EntityKind::Test);
    assert(preferred_kinds_spec(TaskCategory::Test)[1] == EntityKind::Bench);
    assert(preferred_kinds_spec(TaskCategory::General)[0] == EntityKind::Component);
}

/// Computes the non-float signals of a candidate and the reasons that
/// describe them.
pub fn candidate_signals(c: &Candidate, category: &TaskCategory, query_tokens: &Vec<String>) -> (res: Signals)
    ensures
        (
            res.route_priorities@,
            res.keyword_source,
            res.keyword_overlap as nat,
            res.name_source,
            res.name_contains_term,
            res.vector_distance_bits@,
            res.kind_preferred,
            res.exported,
            res.path_source,
            res.path_contains_term,
        ) == signals_spec(*c, *category, query_tokens@),
        res.reasons_before_vector@.map_values(|s: String| s@) == reasons_before_spec(
            res.route_priorities@,
            res.keyword_source,
            res.keyword_overlap as nat,
            query_tokens@.len(),
            res.name_source,
            res.name_contains_term,
        ),
        res.reasons_after_vector@.map_values(|s: String| s@) == reasons_after_spec(
            res.kind_preferred,
            res.exported,
            res.path_source,
            res.path_contains_term,
        ),
        res.kind_preferred == preferred_kinds_spec(*category).contains(c.entity.kind),
        res.reasons_after_vector@.map_values(|s: String| s@).contains("kind_preferred"@)
            == preferred_kinds_spec(*category).contains(c.entity.kind),
{
    let srcs = &c.sources;
    // task routes and vector distances, in source order
    let mut priorities: Vec<i64> = Vec::new();
    let mut distances: Vec<u32> = Vec::new();
    let mut reasons_before: Vec<String> = Vec::new();
    let mut i: usize = 0;
    while i < srcs.len()
        invariant
            i <= srcs@.len(),
            priorities@ == route_priorities(srcs@.take(i as int)),
            distances@ == vector_distances(srcs@.take(i as int)),
            reasons_before@.map_values(|s: String| s@) == route_reasons(priorities@),
        decreases srcs.len() - i,
    {
        assert(srcs@.take(i + 1).drop_last() == srcs@.take(i as int));
        assert(srcs@.take(i + 1).last() == srcs@[i as int]);
        let ghost old_p = priorities@;
        let ghost old_r = reasons_before@.map_values(|s: String| s@);
        match &srcs[i] {
            RetrievalSource::TaskRoute { priority } => {
                let mut r = owned("task_route(priority=");
                let digits = i64_to_string(*priority);
                push_str(&mut r, digits.as_str());
                push_str(&mut r, ")");
                priorities.push(*priority);
                reasons_before.push(r);
                assert(priorities@.drop_last() == old_p);
                assert(reasons_before@.map_values(|s: String| s@) == old_r.push(
                    "task_route(priority="@ + decimal_int(*priority as int) + ")"@,
                ));
            },
            RetrievalSource::VectorSearch { distance_bits } => {
                distances.push(*distance_bits);
            },
            _ => {},
        }
        i += 1;
    }
    assert(srcs@.take(srcs@.len() as int) == srcs@);
    // keyword signal
    let kw_src = has_source_exec(srcs, 0);
    let mut overlap: usize = 0;
    if !kw_src && c.keywords.len() > 0 && query_tokens.len() > 0 {
        let mut t: usize = 0;
        while t < query_tokens.len()
            invariant
                t <= query_tokens@.len(),
                overlap == overlap_count(query_tokens@, c.keywords@, t as int),
                overlap <= t,
            decreases query_tokens.len() - t,
        {
            if token_in_keywords(&query_tokens[t], &c.keywords) {
                overlap += 1;
            }
            t += 1;
        }
    }
    let ghost before_kw = reasons_before@.map_values(|s: String| s@);
    if kw_src {
        reasons_before.push(owned("keyword_match"));
    } else if overlap > 0 {
        let mut r = owned("keyword_overlap(");
        let a = usize_to_string(overlap);
        let b = usize_to_string(query_tokens.len());
        push_str(&mut r, a.as_str());
        push_str(&mut r, "/");
        push_str(&mut r, b.as_str());
        push_str(&mut r, ")");
        reasons_before.push(r);
    }
    let ghost kw_part: Seq<Seq<char>> = if kw_src {
        seq!["keyword_match"@]
    } else if overlap > 0 {
        seq!["keyword_overlap("@ + decimal(overlap as nat) + "/"@ + decimal(query_tokens@.len()) + ")"@]
    } else {
        seq![]
    };
    assert(reasons_before@.map_values(|s: String| s@) == before_kw + kw_part);
    // name signal
    let name_src = has_source_exec(srcs, 1);
    let name_contains = if name_src {
        false
    } else {
        let lower = to_lowercase(c.entity.name.as_str());
        any_token_in_text(query_tokens, lower.as_str())
    };
    let ghost before_name = reasons_before@.map_values(|s: String| s@);
    if name_src {
        reasons_before.push(owned("name_match"));
    } else if name_contains {
        reasons_before.push(owned("name_contains_term"));
    }
    let ghost name_part: Seq<Seq<char>> = if name_src {
        seq!["name_match"@]
    } else if name_contains {
        seq!["name_contains_term"@]
    } else {
        seq![]
    };
    assert(reasons_before@.map_values(|s: String| s@) == before_name + name_part);
    // kind, export and path signals
    let preferred = category.preferred_kinds();
    let kind_preferred = kind_in(&preferred, c.entity.kind);
    let exported = c.entity.exported;
    let path_src = has_source_exec(srcs, 2);
    let path_contains = if path_src {
        false
    } else {
        let lower = match &c.entity.path {
            Some(p) => to_lowercase(p.as_str()),
            None => {
                proof {
                    reveal_strlit("");
                    assert(""@ == Seq::<char>::empty());
                }
                to_lowercase("")
            },
        };
        !lower.as_str().is_empty() && any_token_in_text(query_tokens, lower.as_str())
    };
    let mut reasons_after: Vec<String> = Vec::new();
    if kind_preferred {
        reasons_after.push(owned("kind_preferred"));
    }
    if exported {
        reasons_after.push(owned("exported"));
    }
    if path_src {
        reasons_after.push(owned("path_match"));
    } else if path_contains {
        reasons_after.push(owned("path_contains_term"));
    }
    proof {
        lemma_kind_reason(kind_preferred, exported, path_src, path_contains);
        assert(reasons_after@.map_values(|s: String| s@) == reasons_after_spec(
            kind_preferred,
            exported,
            path_src,
            path_contains,
        ));
    }
    Signals {
        route_priorities: priorities,
        keyword_source: kw_src,
        keyword_overlap: overlap,
        name_source: name_src,
        name_contains_term: name_contains,
        vector_distance_bits: distances,
        kind_preferred,
        exported,
        path_source: path_src,
        path_contains_term: path_contains,
        reasons_before_vector: reasons_before,
        reasons_after_vector: reasons_after,
    }
}

// ---------------------------------------------------------------------------
// Final order
// ---------------------------------------------------------------------------

/// Entry `a` comes before entry `b`: a higher key, or an equal key and an
/// earlier position (the order of a stable descending sort).
pub open spec fn precedes(keys: Seq<u64>, a: int, b: int) -> bool {
    keys[a] > keys[b] || (keys[a] == keys[b] && a < b)
}

/// Entry `i` is the first, in the final order, of the entries that share
/// its id.
pub open spec fn is_kept(keys: Seq<u64>, ids: Seq<String>, i: int) -> bool {
    forall|j: int|
        0 <= j < keys.len() && j != i && #[trigger] ids[j]@ == ids[i]@ ==> !precedes(keys, j, i)
}

/// `r` lists, in the final order, the first `limit` (or fewer, when there
/// are fewer) entries that are kept after removing later duplicates of an
/// id.
pub open spec fn is_ranking(keys: Seq<u64>, ids: Seq<String>, limit: nat, r: Seq<usize>) -> bool {
    &&& r.len() <= limit
    &&& forall|p: int| 0 <= p < r.len() ==> (r[p] as int) < keys.len() && is_kept(keys, ids, #[trigger] r[p] as int)
    &&& forall|p: int, q: int| 0 <= p < q < r.len() ==> precedes(keys, #[trigger] r[p] as int, #[trigger] r[q] as int)
    &&& forall|k: usize|
        (k as int) < keys.len() && is_kept(keys, ids, k as int) && !(#[trigger] r.contains(k)) ==> {
            &&& r.len() == limit
            &&& forall|p: int| 0 <= p < r.len() ==> precedes(keys, #[trigger] r[p] as int, k as int)
        }
}

/// A ranking lists each id at most once, with keys that never increase.
pub proof fn lemma_ranking_distinct_and_sorted(keys: Seq<u64>, ids: Seq<String>, limit: nat, r: Seq<usize>)
    requires
        keys.len() == ids.len(),
        is_ranking(keys, ids, limit, r),
    ensures
        forall|p: int, q: int| 0 <= p < q < r.len() ==> ids[#[trigger] r[p] as int]@ != ids[#[trigger] r[q] as int]@,
        forall|p: int, q: int| 0 <= p < q < r.len() ==> keys[#[trigger] r[p] as int] >= keys[#[trigger] r[q] as int],
{
    assert forall|p: int, q: int| 0 <= p < q < r.len() implies ids[#[trigger] r[p] as int]@ != ids[#[trigger] r[q] as int]@ by {
        assert(precedes(keys, r[p] as int, r[q] as int));
        assert(is_kept(keys, ids, r[q] as int));
        if ids[r[p] as int]@ == ids[r[q] as int]@ {
            assert(r[p] != r[q]);
            assert(!precedes(keys, r[p] as int, r[q] as int));
        }
    }
    assert forall|p: int, q: int| 0 <= p < q < r.len() implies keys[#[trigger] r[p] as int] >= keys[#[trigger] r[q] as int] by {
        assert(precedes(keys, r[p] as int, r[q] as int));
    }
}

fn precedes_exec(keys: &Vec<u64>, a: usize, b: usize) -> (res: bool)
    requires
        a < keys@.len(),
        b < keys@.len(),
    ensures
        res == precedes(keys@, a as int, b as int),
{
    keys[a] > keys[b] || (keys[a] == keys[b] && a < b)
}

/// Indices `0..n` sorted by `precedes`.
fn sorted_indices(keys: &Vec<u64>) -> (res: Vec<usize>)
    ensures
        res@.len() == keys@.len(),
        forall|p: int| 0 <= p < res@.len() ==> (#[trigger] res@[p] as int) < keys@.len(),
        forall|x: usize| (x as int) < keys@.len() ==> #[trigger] res@.contains(x),
        forall|p: int, q: int| 0 <= p < q < res@.len() ==> precedes(keys@, #[trigger] res@[p] as int, #[trigger] res@[q] as int),
{
    let mut s: Vec<usize> = Vec::new();
    let mut i: usize = 0;
    while i < keys.len()
        invariant
            i <= keys@.len(),
            s@.len() == i,
            forall|p: int| 0 <= p < s@.len() ==> (#[trigger] s@[p] as int) < i,
            forall|x: usize| x < i ==> #[trigger] s@.contains(x),
            forall|p: int, q: int| 0 <= p < q < s@.len() ==> precedes(keys@, #[trigger] s@[p] as int, #[trigger] s@[q] as int),
        decreases keys.len() - i,
    {
        let mut p: usize = 0;
        while p < s.len() && !precedes_exec(keys, i, s[p])
            invariant
                p <= s@.len(),
                s@.len() == i,
                i < keys@.len(),
                forall|q: int| 0 <= q < s@.len() ==> (#[trigger] s@[q] as int) < i,
                forall|q: int| 0 <= q < p ==> !precedes(keys@, i as int, #[trigger] s@[q] as int),
            decreases s.len() - p,
        {
            p += 1;
        }
        let ghost old_s = s@;
        proof {
            assert forall|q: int| 0 <= q < p implies precedes(keys@, #[trigger] old_s[q] as int, i as int) by {
                assert(!precedes(keys@, i as int, old_s[q] as int));
            }
            assert forall|q: int| p <= q < old_s.len() implies precedes(keys@, i as int, #[trigger] old_s[q] as int) by {
                if q > p {
                    assert(precedes(keys@, old_s[p as int] as int, old_s[q] as int));
                }
            }
        }
        s.insert(p, i);
        proof {
            assert forall|a: int, b: int| 0 <= a < b < s@.len() implies precedes(keys@, #[trigger] s@[a] as int, #[trigger] s@[b] as int) by {
                if a < p && b < p {
                    assert(s@[a] == old_s[a] && s@[b] == old_s[b]);
                } else if a < p && b == p {
                    assert(s@[a] == old_s[a]);
                } else if a < p {
                    assert(s@[a] == old_s[a] && s@[b] == old_s[b - 1]);
                    assert(precedes(keys@, old_s[a] as int, i as int));
                    assert(precedes(keys@, i as int, old_s[b - 1] as int));
                } else if a == p {
                    assert(s@[b] == old_s[b - 1]);
                } else {
                    assert(s@[a] == old_s[a - 1] && s@[b] == old_s[b - 1]);
                }
            }
            assert forall|x: usize| x < i + 1 implies #[trigger] s@.contains(x) by {
                if x == i {
                    assert(s@[p as int] == i);
                } else {
                    assert(old_s.contains(x));
                    let q = choose|q: int| 0 <= q < old_s.len() && old_s[q] == x;
                    if q < p {
                        assert(s@[q] == old_s[q]);
                    } else {
                        assert(s@[q + 1] == old_s[q]);
                    }
                }
            }
            assert forall|q: int| 0 <= q < s@.len() implies (#[trigger] s@[q] as int) < i + 1 by {
                if q < p {
                    assert(s@[q] == old_s[q]);
                } else if q > p {
                    assert(s@[q] == old_s[q - 1]);
                }
            }
        }
        i += 1;
    }
    s
}

/// Whether entry `x` is the first of its id in the final order.
fn kept_exec(keys: &Vec<u64>, ids: &Vec<String>, x: usize) -> (res: bool)
    requires
        keys@.len() == ids@.len(),
        x < keys@.len(),
    ensures
        res == is_kept(keys@, ids@, x as int),
{
    let mut j: usize = 0;
    while j < keys.len()
        invariant
            j <= keys@.len(),
            keys@.len() == ids@.len(),
            x < keys@.len(),
            forall|k: int| 0 <= k < j && k != x && #[trigger] ids@[k]@ == ids@[x as int]@ ==> !precedes(keys@, k, x as int),
        decreases keys.len() - j,
    {
        if j != x && precedes_exec(keys, j, x) && crate::text::str_eq(ids[j].as_str(), ids[x].as_str()) {
            return false;
        }
        j += 1;
    }
    true
}

/// The final order of scored entries: sorted by key, highest first, with
/// ties kept in their original order; later entries with an id already
/// listed dropped; at most `limit` entries. Returns positions into the
/// input.
pub fn rank_order(keys: &Vec<u64>, ids: &Vec<String>, limit: usize) -> (res: Vec<usize>)
    requires
        keys@.len() == ids@.len(),
    ensures
        is_ranking(keys@, ids@, limit as nat, res@),
{
    let s = sorted_indices(keys);
    let mut out: Vec<usize> = Vec::new();
    let ghost mut pos: Seq<int> = seq![];
    let mut p: usize = 0;
    while p < s.len() && out.len() < limit
        invariant
            p <= s@.len(),
            s@.len() == keys@.len(),
            keys@.len() == ids@.len(),
            out@.len() <= limit,
            forall|q: int| 0 <= q < s@.len() ==> (#[trigger] s@[q] as int) < keys@.len(),
            forall|a: int, b: int| 0 <= a < b < s@.len() ==> precedes(keys@, #[trigger] s@[a] as int, #[trigger] s@[b] as int),
            pos.len() == out@.len(),
            forall|a: int| 0 <= a < pos.len() ==> 0 <= #[trigger] pos[a] < p && s@[pos[a]] == out@[a],
            forall|a: int, b: int| 0 <= a < b < pos.len() ==> #[trigger] pos[a] < #[trigger] pos[b],
            forall|a: int| 0 <= a < out@.len() ==> is_kept(keys@, ids@, #[trigger] out@[a] as int),
            forall|q: int| 0 <= q < p && is_kept(keys@, ids@, #[trigger] s@[q] as int) ==> out@.contains(s@[q]),
        decreases s.len() - p,
    {
        let x = s[p];
        let ghost old_out = out@;
        if kept_exec(keys, ids, x) {
            out.push(x);
            proof {
                pos = pos.push(p as int);
                assert(out@[out@.len() - 1] == x);
                assert forall|q: int| 0 <= q < p + 1 && is_kept(keys@, ids@, #[trigger] s@[q] as int) implies out@.contains(s@[q]) by {
                    if q < p {
                        assert(old_out.contains(s@[q]));
                        let w = choose|w: int| 0 <= w < old_out.len() && old_out[w] == s@[q];
                        assert(out@[w] == old_out[w]);
                    }
                }
            }
        }
        p += 1;
    }
    proof {
        assert forall|a: int| 0 <= a < out@.len() implies (#[trigger] out@[a] as int) < keys@.len() by {
            assert(s@[pos[a]] == out@[a]);
        }
        assert forall|a: int, b: int| 0 <= a < b < out@.len() implies precedes(keys@, #[trigger] out@[a] as int, #[trigger] out@[b] as int) by {
            assert(pos[a] < pos[b]);
        }
        assert forall|k: usize| (k as int) < keys@.len() && is_kept(keys@, ids@, k as int) && !(#[trigger] out@.contains(k)) implies {
            &&& out@.len() == limit
            &&& forall|a: int| 0 <= a < out@.len() ==> precedes(keys@, #[trigger] out@[a] as int, k as int)
        } by {
            assert(s@.contains(k));
            let q = choose|q: int| 0 <= q < s@.len() && s@[q] == k;
            assert(is_kept(keys@, ids@, s@[q] as int));
            assert(q >= p);
            assert forall|a: int| 0 <= a < out@.len() implies precedes(keys@, #[trigger] out@[a] as int, k as int) by {
                assert(pos[a] < q);
            }
        }
    }
    out
}

} // verus!
