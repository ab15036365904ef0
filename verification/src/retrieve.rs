//! Query tokenization and candidate retrieval.

use vstd::prelude::*;
use vstd::utf8::encode_utf8;
use crate::model::entity::Entity;
use crate::text::{
    all_ascii, ascii_lower_seq, char_is_alphanumeric, chars_of, chars_eq, contains_chars, contains_seq,
    is_alphanumeric, is_ascii_alnum, lowercase, string_of, to_lowercase,
};

verus! {

/// Words that carry no meaning for retrieval.
pub open spec fn stopword_list() -> Seq<Seq<char>> {
    seq![
        "the"@, "a"@, "an"@, "is"@, "are"@, "was"@, "were"@, "be"@,
        "been"@, "being"@, "have"@, "has"@, "had"@, "do"@, "does"@, "did"@,
        "will"@, "would"@, "shall"@, "should"@, "may"@, "might"@, "must"@, "can"@,
        "could"@, "of"@, "in"@, "to"@, "for"@, "with"@, "on"@, "at"@,
        "from"@, "by"@, "about"@, "as"@, "into"@, "through"@, "during"@, "before"@,
        "after"@, "and"@, "but"@, "or"@, "nor"@, "not"@, "so"@, "yet"@,
        "both"@, "either"@, "neither"@, "each"@, "every"@, "all"@, "any"@, "few"@,
        "more"@, "most"@, "other"@, "some"@, "such"@, "no"@, "only"@, "own"@,
        "same"@, "than"@, "too"@, "very"@, "just"@, "it"@, "its"@, "this"@,
        "that"@, "these"@, "those"@, "i"@, "me"@, "my"@, "we"@, "our"@,
        "you"@, "your"@, "he"@, "him"@, "his"@, "she"@, "her"@, "they"@,
        "them"@, "their"@, "which"@, "who"@, "whom"@, "where"@, "when"@,
    ]
}

fn stopwords() -> (res: Vec<&'static str>)
    ensures
        res@.len() == stopword_list().len(),
        forall|i: int| 0 <= i < res@.len() ==> #[trigger] res@[i]@ == stopword_list()[i],
{
    let v = vec![
        "the", "a", "an", "is", "are", "was", "were", "be",
        "been", "being", "have", "has", "had", "do", "does", "did",
        "will", "would", "shall", "should", "may", "might", "must", "can",
        "could", "of", "in", "to", "for", "with", "on", "at",
        "from", "by", "about", "as", "into", "through", "during", "before",
        "after", "and", "but", "or", "nor", "not", "so", "yet",
        "both", "either", "neither", "each", "every", "all", "any", "few",
        "more", "most", "other", "some", "such", "no", "only", "own",
        "same", "than", "too", "very", "just", "it", "its", "this",
        "that", "these", "those", "i", "me", "my", "we", "our",
        "you", "your", "he", "him", "his", "she", "her", "they",
        "them", "their", "which", "who", "whom", "where", "when",
    ];
    assert forall|i: int| 0 <= i < v@.len() implies #[trigger] v@[i]@ == stopword_list()[i] by {
    }
    v
}

/// A character that belongs to a token: alphanumeric or `_`. For ASCII
/// characters the alphanumeric ones are the letters and the digits.
pub open spec fn is_word_char(c: char) -> bool {
    if (c as u32) < 128 {
        is_ascii_alnum(c) || c == '_'
    } else {
        is_alphanumeric(c)
    }
}

/// A token is kept when it is longer than one byte in UTF-8 and is not a
/// stopword.
pub open spec fn keep_token(w: Seq<char>) -> bool {
    &&& w.len() > 0
    &&& encode_utf8(w).len() > 1
    &&& !stopword_list().contains(w)
}

pub open spec fn emit_token(w: Seq<char>) -> Seq<Seq<char>> {
    if keep_token(w) {
        seq![w]
    } else {
        seq![]
    }
}

/// The tokens of `s` from position `i`, `cur` being the token read so far.
pub open spec fn tokens_from(s: Seq<char>, i: int, cur: Seq<char>) -> Seq<Seq<char>>
    decreases s.len() - i,
{
    if i < 0 || i >= s.len() {
        emit_token(cur)
    } else if is_word_char(s[i]) {
        tokens_from(s, i + 1, cur.push(s[i]))
    } else {
        emit_token(cur) + tokens_from(s, i + 1, seq![])
    }
}

/// The tokens of an already lowercased query: its maximal runs of word
/// characters, in order, without short tokens and stopwords.
pub open spec fn tokenize_spec(lower: Seq<char>) -> Seq<Seq<char>> {
    tokens_from(lower, 0, seq![])
}

/// A non-empty sequence encodes to more than one byte exactly when it has
/// two characters or one non-ASCII character.
pub proof fn lemma_utf8_len_gt1(w: Seq<char>)
    requires
        w.len() > 0,
    ensures
        (encode_utf8(w).len() > 1) <==> (w.len() >= 2 || (w[0] as u32) >= 0x80),
{
    let first = vstd::utf8::encode_scalar(w[0] as u32);
    assert(encode_utf8(w) == first + encode_utf8(w.drop_first()));
    assert(first.len() >= 1);
    assert(((w[0] as u32) < 0x80) ==> first.len() == 1);
    assert(((w[0] as u32) >= 0x80) ==> first.len() >= 2);
    if w.len() >= 2 {
        let rest = w.drop_first();
        assert(encode_utf8(rest) == vstd::utf8::encode_scalar(rest[0] as u32) + encode_utf8(
            rest.drop_first(),
        ));
        assert(encode_utf8(rest).len() >= 1);
    } else {
        assert(w.drop_first().len() == 0);
        assert(encode_utf8(w.drop_first()).len() == 0);
    }
}

/// A run of word characters extends the token being read.
proof fn lemma_tokens_run(s: Seq<char>, i: int, j: int, cur: Seq<char>)
    requires
        0 <= i <= j <= s.len(),
        forall|k: int| i <= k < j ==> is_word_char(#[trigger] s[k]),
    ensures
        tokens_from(s, i, cur) == tokens_from(s, j, cur + s.subrange(i, j)),
    decreases j - i,
{
    if i < j {
        lemma_tokens_run(s, i + 1, j, cur.push(s[i]));
        assert(cur.push(s[i]) + s.subrange(i + 1, j) == cur + s.subrange(i, j));
    } else {
        assert(cur + s.subrange(i, j) == cur);
    }
}

/// Reading `s` from `off + k` is reading its tail `b` from `k`.
proof fn lemma_tokens_tail(s: Seq<char>, off: int, b: Seq<char>, k: int, cur: Seq<char>)
    requires
        0 <= off,
        0 <= k <= b.len(),
        s.len() == off + b.len(),
        s.subrange(off, s.len() as int) == b,
    ensures
        tokens_from(s, off + k, cur) == tokens_from(b, k, cur),
    decreases b.len() - k,
{
    if k < b.len() {
        assert(s[off + k] == s.subrange(off, s.len() as int)[k]);
        if is_word_char(b[k]) {
            lemma_tokens_tail(s, off, b, k + 1, cur.push(b[k]));
        } else {
            lemma_tokens_tail(s, off, b, k + 1, seq![]);
        }
    }
}

/// Reading `a + [c] + b` from `k` inside `a`, when `c` separates tokens.
proof fn lemma_tokens_head(a: Seq<char>, c: char, b: Seq<char>, k: int, cur: Seq<char>)
    requires
        0 <= k <= a.len(),
        !is_word_char(c),
    ensures
        tokens_from(a + seq![c] + b, k, cur) == tokens_from(a, k, cur) + tokens_from(
            a + seq![c] + b,
            a.len() + 1int,
            seq![],
        ),
    decreases a.len() - k,
{
    let s = a + seq![c] + b;
    if k < a.len() {
        assert(s[k] == a[k]);
        if is_word_char(a[k]) {
            lemma_tokens_head(a, c, b, k + 1, cur.push(a[k]));
        } else {
            lemma_tokens_head(a, c, b, k + 1, seq![]);
            assert(emit_token(cur) + (tokens_from(a, k + 1, seq![]) + tokens_from(s, a.len() + 1int, seq![]))
                == emit_token(cur) + tokens_from(a, k + 1, seq![]) + tokens_from(s, a.len() + 1int, seq![]));
        }
    } else {
        assert(s[k] == c);
    }
}

/// A word of at least two letters, digits, underscores or other
/// alphanumeric characters that is not a stopword is one token: digits
/// and `_` belong to words, so the word is kept whole.
pub proof fn lemma_word_is_one_token(w: Seq<char>)
    requires
        w.len() >= 2,
        forall|i: int|
            0 <= i < w.len() ==> if (#[trigger] w[i] as u32) < 128 {
                is_ascii_alnum(w[i]) || w[i] == '_'
            } else {
                is_alphanumeric(w[i])
            },
        !stopword_list().contains(w),
    ensures
        tokenize_spec(w) == seq![w],
{
    assert forall|k: int| 0 <= k < w.len() implies is_word_char(#[trigger] w[k]) by {
        assert(if (w[k] as u32) < 128 { is_ascii_alnum(w[k]) || w[k] == '_' } else { is_alphanumeric(w[k]) });
    }
    lemma_tokens_run(w, 0, w.len() as int, seq![]);
    assert(Seq::<char>::empty() + w.subrange(0, w.len() as int) == w);
    lemma_utf8_len_gt1(w);
}

/// A character that is neither alphanumeric nor `_` separates tokens: the
/// tokens of `a`, a separator and `b` are the tokens of `a` followed by
/// those of `b`.
pub proof fn lemma_separator_splits_tokens(a: Seq<char>, c: char, b: Seq<char>)
    requires
        if (c as u32) < 128 {
            !is_ascii_alnum(c) && c != '_'
        } else {
            !is_alphanumeric(c)
        },
    ensures
        tokenize_spec(a + seq![c] + b) == tokenize_spec(a) + tokenize_spec(b),
{
    let s = a + seq![c] + b;
    lemma_tokens_head(a, c, b, 0, seq![]);
    assert(s.subrange(a.len() + 1int, s.len() as int) == b);
    lemma_tokens_tail(s, a.len() + 1int, b, 0, seq![]);
}

fn is_stopword(w: &Vec<char>) -> (res: bool)
    ensures
        res == stopword_list().contains(w@),
{
    let list = stopwords();
    let mut i: usize = 0;
    while i < list.len()
        invariant
            i <= list@.len(),
            list@.len() == stopword_list().len(),
            forall|j: int| 0 <= j < list@.len() ==> #[trigger] list@[j]@ == stopword_list()[j],
            forall|j: int| 0 <= j < i ==> stopword_list()[j] != w@,
        decreases list.len() - i,
    {
        let s = chars_of(list[i]);
        if chars_eq(&s, w) {
            assert(stopword_list()[i as int] == w@);
            return true;
        }
        i += 1;
    }
    false
}

fn keep_token_exec(w: &Vec<char>) -> (res: bool)
    ensures
        res == keep_token(w@),
{
    if w.len() == 0 {
        return false;
    }
    proof {
        lemma_utf8_len_gt1(w@);
    }
    let long = w.len() >= 2 || (w[0] as u32) >= 0x80;
    long && !is_stopword(w)
}

/// Tokenizes a query: lowercases it, splits it on characters that are
/// neither alphanumeric nor `_`, and drops one-byte tokens and stopwords.
pub fn tokenize_query(query: &str) -> (res: Vec<String>)
    ensures
        res@.map_values(|t: String| t@) == tokenize_spec(lowercase(query@)),
        all_ascii(query@) ==> res@.map_values(|t: String| t@) == tokenize_spec(ascii_lower_seq(query@)),
{
    let lower = to_lowercase(query);
    tokenize_lowered(lower.as_str())
}

/// Tokenizes an already lowercased query.
pub fn tokenize_lowered(lower: &str) -> (res: Vec<String>)
    ensures
        res@.map_values(|t: String| t@) == tokenize_spec(lower@),
{
    let l = chars_of(lower);
    let ghost total = tokenize_spec(l@);
    let mut out: Vec<String> = Vec::new();
    let mut cur: Vec<char> = Vec::new();
    let mut i: usize = 0;
    while i < l.len()
        invariant
            i <= l.len(),
            out@.map_values(|t: String| t@) + tokens_from(l@, i as int, cur@) == total,
        decreases l.len() - i,
    {
        let c = l[i];
        let ghost before = out@.map_values(|t: String| t@);
        if char_is_alphanumeric(c) || c == '_' {
            cur.push(c);
        } else {
            if keep_token_exec(&cur) {
                let t = string_of(&cur);
                out.push(t);
                assert(out@.map_values(|t: String| t@) == before.push(cur@));
                assert(before.push(cur@) + tokens_from(l@, i + 1, seq![]) == before + (seq![cur@]
                    + tokens_from(l@, i + 1, seq![])));
            } else {
                assert(out@.map_values(|t: String| t@) == before);
                assert(emit_token(cur@) + tokens_from(l@, i + 1, seq![]) == tokens_from(
                    l@,
                    i + 1,
                    seq![],
                ));
            }
            cur = Vec::new();
        }
        i += 1;
    }
    let ghost before = out@.map_values(|t: String| t@);
    if keep_token_exec(&cur) {
        let t = string_of(&cur);
        out.push(t);
        assert(out@.map_values(|t: String| t@) == before.push(cur@));
    }
    out
}

// ---------------------------------------------------------------------------
// Candidate retrieval
// ---------------------------------------------------------------------------

/// How a candidate was found.
#[derive(Debug, Clone, PartialEq)]
pub enum RetrievalSource {
    TaskRoute { priority: i64 },
    KeywordMatch,
    NameMatch,
    PathMatch,
    /// Found by vector search; the distance is carried as the bit pattern
    /// of the `f32` that the vector index returned (`f32::to_bits`).
    VectorSearch { distance_bits: u32 },
    /// Found via graph expansion (neighbor of a direct match).
    Context { via_entity_id: String },
}

/// An entity together with its stored summary text and keywords (both
/// empty when the entity has no summary).
#[derive(Debug)]
pub struct Retrieved {
    pub entity: Entity,
    pub short_summary: String,
    pub keywords: Vec<String>,
}

/// An entity reached through a task route of the given priority.
#[derive(Debug)]
pub struct RouteHit {
    pub found: Retrieved,
    pub priority: i64,
}

/// An entity returned by vector search.
#[derive(Debug)]
pub struct VectorHit {
    pub found: Retrieved,
    pub distance_bits: u32,
}

/// A retrieval candidate with its provenance.
#[derive(Debug)]
pub struct Candidate {
    pub entity: Entity,
    pub sources: Vec<RetrievalSource>,
    pub short_summary: String,
    pub keywords: Vec<String>,
}

/// What the merge keeps of a candidate.
pub open spec fn candidate_view(c: Candidate) -> (Entity, String, Vec<String>, Seq<RetrievalSource>) {
    (c.entity, c.short_summary, c.keywords, c.sources@)
}

/// One retrieval event: an entity and the sources that found it.
pub type RetrievalEvent = (Retrieved, Seq<RetrievalSource>);

/// Some token occurs in `text`.
pub open spec fn any_token_in(tokens: Seq<String>, text: Seq<char>) -> bool {
    exists|i: int| 0 <= i < tokens.len() && contains_seq(text, #[trigger] tokens[i]@)
}

/// Some token occurs in some lowercased keyword.
pub open spec fn any_token_in_keywords(tokens: Seq<String>, keywords: Seq<String>) -> bool {
    exists|k: int| 0 <= k < keywords.len() && any_token_in(tokens, lowercase(#[trigger] keywords[k]@))
}

/// The text of an optional path, empty when absent.
pub open spec fn path_text(p: Option<String>) -> Seq<char> {
    match p {
        Some(s) => s@,
        None => Seq::empty(),
    }
}

/// The sources under which keyword/name/path matching finds an entity:
/// a token in the lowercased name, in the lowercased path, in a lowercased
/// keyword, in that order.
pub open spec fn match_sources(r: Retrieved, tokens: Seq<String>) -> Seq<RetrievalSource> {
    let name = any_token_in(tokens, lowercase(r.entity.name@));
    let path = any_token_in(tokens, lowercase(path_text(r.entity.path)));
    let kw = any_token_in_keywords(tokens, r.keywords@);
    (if name { seq![RetrievalSource::NameMatch] } else { seq![] })
        + (if path { seq![RetrievalSource::PathMatch] } else { seq![] })
        + (if kw { seq![RetrievalSource::KeywordMatch] } else { seq![] })
}

pub open spec fn route_events(hits: Seq<RouteHit>) -> Seq<RetrievalEvent>
    decreases hits.len(),
{
    if hits.len() == 0 {
        seq![]
    } else {
        seq![(hits[0].found, seq![RetrievalSource::TaskRoute { priority: hits[0].priority }])]
            + route_events(hits.drop_first())
    }
}

pub open spec fn match_events(rs: Seq<Retrieved>, tokens: Seq<String>) -> Seq<RetrievalEvent>
    decreases rs.len(),
{
    if rs.len() == 0 {
        seq![]
    } else {
        let srcs = match_sources(rs[0], tokens);
        (if srcs.len() > 0 { seq![(rs[0], srcs)] } else { seq![] }) + match_events(
            rs.drop_first(),
            tokens,
        )
    }
}

pub open spec fn vector_events(hits: Seq<VectorHit>) -> Seq<RetrievalEvent>
    decreases hits.len(),
{
    if hits.len() == 0 {
        seq![]
    } else {
        seq![
            (
                hits[0].found,
                seq![RetrievalSource::VectorSearch { distance_bits: hits[0].distance_bits }],
            ),
        ] + vector_events(hits.drop_first())
    }
}

/// The first position at or after `k` whose candidate has id `id`; -1 if none.
pub open spec fn find_candidate(
    acc: Seq<(Entity, String, Vec<String>, Seq<RetrievalSource>)>,
    id: Seq<char>,
    k: int,
) -> int
    decreases acc.len() - k,
{
    if k < 0 || k >= acc.len() {
        -1
    } else if acc[k].0.id@ == id {
        k
    } else {
        find_candidate(acc, id, k + 1)
    }
}

/// Merges one event: a new entity becomes a candidate with the event's
/// summary; a known one only gains the event's sources.
pub open spec fn merge_event(
    acc: Seq<(Entity, String, Vec<String>, Seq<RetrievalSource>)>,
    ev: RetrievalEvent,
) -> Seq<(Entity, String, Vec<String>, Seq<RetrievalSource>)> {
    let j = find_candidate(acc, ev.0.entity.id@, 0);
    if j < 0 {
        acc.push((ev.0.entity, ev.0.short_summary, ev.0.keywords, ev.1))
    } else {
        acc.update(j, (acc[j].0, acc[j].1, acc[j].2, acc[j].3 + ev.1))
    }
}

/// Merges events in order into `acc`.
pub open spec fn merge_events(
    acc: Seq<(Entity, String, Vec<String>, Seq<RetrievalSource>)>,
    evs: Seq<RetrievalEvent>,
) -> Seq<(Entity, String, Vec<String>, Seq<RetrievalSource>)>
    decreases evs.len(),
{
    if evs.len() == 0 {
        acc
    } else {
        merge_events(merge_event(acc, evs[0]), evs.drop_first())
    }
}

/// The candidates of a retrieval: task-route hits, then keyword/name/path
/// matches over all entities, then vector hits, merged by entity id in
/// that order.
pub open spec fn retrieve_spec(
    route_hits: Seq<RouteHit>,
    tokens: Seq<String>,
    entities: Seq<Retrieved>,
    vector_hits: Seq<VectorHit>,
) -> Seq<(Entity, String, Vec<String>, Seq<RetrievalSource>)> {
    merge_events(
        seq![],
        route_events(route_hits) + match_events(entities, tokens) + vector_events(vector_hits),
    )
}

/// No two candidates share an entity id.
pub open spec fn distinct_ids(acc: Seq<(Entity, String, Vec<String>, Seq<RetrievalSource>)>) -> bool {
    forall|a: int, b: int| 0 <= a < b < acc.len() ==> acc[a].0.id@ != acc[b].0.id@
}

proof fn lemma_find_candidate(
    acc: Seq<(Entity, String, Vec<String>, Seq<RetrievalSource>)>,
    id: Seq<char>,
    k: int,
)
    requires
        0 <= k,
    ensures
        find_candidate(acc, id, k) == -1 || (k <= find_candidate(acc, id, k) < acc.len()
            && acc[find_candidate(acc, id, k)].0.id@ == id),
        find_candidate(acc, id, k) == -1 ==> forall|m: int| k <= m < acc.len() ==> acc[m].0.id@ != id,
    decreases acc.len() - k,
{
    if k < acc.len() && acc[k].0.id@ != id {
        lemma_find_candidate(acc, id, k + 1);
    }
}

/// Merging keeps entity ids distinct.
pub proof fn lemma_merge_distinct(
    acc: Seq<(Entity, String, Vec<String>, Seq<RetrievalSource>)>,
    evs: Seq<RetrievalEvent>,
)
    requires
        distinct_ids(acc),
    ensures
        distinct_ids(merge_events(acc, evs)),
    decreases evs.len(),
{
    if evs.len() > 0 {
        let next = merge_event(acc, evs[0]);
        lemma_find_candidate(acc, evs[0].0.entity.id@, 0);
        assert(distinct_ids(next));
        lemma_merge_distinct(next, evs.drop_first());
    }
}

/// Some candidate has entity id `id` and counts `src` among its sources.
pub open spec fn has_candidate_with(
    acc: Seq<(Entity, String, Vec<String>, Seq<RetrievalSource>)>,
    id: Seq<char>,
    src: RetrievalSource,
) -> bool {
    exists|j: int| 0 <= j < acc.len() && #[trigger] acc[j].0.id@ == id && acc[j].3.contains(src)
}

proof fn lemma_merge_event_keeps(
    acc: Seq<(Entity, String, Vec<String>, Seq<RetrievalSource>)>,
    ev: RetrievalEvent,
)
    ensures
        ({
            let r = merge_event(acc, ev);
            &&& r.len() >= acc.len()
            &&& forall|j: int| 0 <= j < acc.len() ==> #[trigger] r[j].0 == acc[j].0
            &&& forall|j: int, src: RetrievalSource|
                0 <= j < acc.len() && #[trigger] acc[j].3.contains(src) ==> r[j].3.contains(src)
            &&& forall|src: RetrievalSource| #[trigger] ev.1.contains(src) ==> has_candidate_with(
                r,
                ev.0.entity.id@,
                src,
            )
            &&& forall|j: int| 0 <= j < r.len() ==> j < acc.len() || #[trigger] r[j].0.id@ == ev.0.entity.id@
        }),
{
    let r = merge_event(acc, ev);
    lemma_find_candidate(acc, ev.0.entity.id@, 0);
    let jj = find_candidate(acc, ev.0.entity.id@, 0);
    if jj < 0 {
        let n = acc.len() as int;
        assert forall|src: RetrievalSource| #[trigger] ev.1.contains(src) implies has_candidate_with(
            r,
            ev.0.entity.id@,
            src,
        ) by {
            assert(r[n].0.id@ == ev.0.entity.id@);
        }
    } else {
        assert forall|j: int, src: RetrievalSource|
            0 <= j < acc.len() && #[trigger] acc[j].3.contains(src) implies r[j].3.contains(src) by {
            if j == jj {
                let w = choose|w: int| 0 <= w < acc[j].3.len() && acc[j].3[w] == src;
                assert(r[j].3[w] == src);
            }
        }
        assert forall|src: RetrievalSource| #[trigger] ev.1.contains(src) implies has_candidate_with(
            r,
            ev.0.entity.id@,
            src,
        ) by {
            let w = choose|w: int| 0 <= w < ev.1.len() && ev.1[w] == src;
            assert(r[jj].3[acc[jj].3.len() + w] == src);
            assert(r[jj].0.id@ == ev.0.entity.id@);
        }
    }
}

proof fn lemma_merge_events_keeps(
    acc: Seq<(Entity, String, Vec<String>, Seq<RetrievalSource>)>,
    evs: Seq<RetrievalEvent>,
)
    ensures
        ({
            let r = merge_events(acc, evs);
            &&& r.len() >= acc.len()
            &&& forall|j: int| 0 <= j < acc.len() ==> #[trigger] r[j].0 == acc[j].0
            &&& forall|j: int, src: RetrievalSource|
                0 <= j < acc.len() && #[trigger] acc[j].3.contains(src) ==> r[j].3.contains(src)
            &&& forall|k: int, src: RetrievalSource|
                0 <= k < evs.len() && #[trigger] evs[k].1.contains(src) ==> has_candidate_with(
                    r,
                    evs[k].0.entity.id@,
                    src,
                )
            &&& forall|j: int|
                #![trigger r[j]]
                0 <= j < r.len() ==> j < acc.len() || exists|k: int|
                    0 <= k < evs.len() && #[trigger] evs[k].0.entity.id@ == r[j].0.id@
        }),
    decreases evs.len(),
{
    if evs.len() > 0 {
        let a1 = merge_event(acc, evs[0]);
        let rest = evs.drop_first();
        let r = merge_events(a1, rest);
        lemma_merge_event_keeps(acc, evs[0]);
        lemma_merge_events_keeps(a1, rest);
        assert forall|k: int, src: RetrievalSource|
            0 <= k < evs.len() && #[trigger] evs[k].1.contains(src) implies has_candidate_with(
                r,
                evs[k].0.entity.id@,
                src,
            ) by {
            if k == 0 {
                assert(has_candidate_with(a1, evs[0].0.entity.id@, src));
                let j = choose|j: int| 0 <= j < a1.len() && #[trigger] a1[j].0.id@ == evs[0].0.entity.id@
                    && a1[j].3.contains(src);
                assert(r[j].0 == a1[j].0);
                assert(r[j].3.contains(src));
            } else {
                assert(rest[k - 1] == evs[k]);
            }
        }
        assert forall|j: int| #![trigger r[j]] 0 <= j < r.len() implies j < acc.len() || exists|k: int|
            0 <= k < evs.len() && #[trigger] evs[k].0.entity.id@ == r[j].0.id@ by {
            if j >= acc.len() {
                if j < a1.len() {
                    assert(r[j].0 == a1[j].0);
                    assert(evs[0].0.entity.id@ == r[j].0.id@);
                } else {
                    let k = choose|k: int| 0 <= k < rest.len() && #[trigger] rest[k].0.entity.id@ == r[j].0.id@;
                    assert(evs[k + 1] == rest[k]);
                }
            }
        }
    }
}

proof fn lemma_route_events(hits: Seq<RouteHit>)
    ensures
        route_events(hits).len() == hits.len(),
        forall|k: int|
            0 <= k < hits.len() ==> #[trigger] route_events(hits)[k] == (
                hits[k].found,
                seq![RetrievalSource::TaskRoute { priority: hits[k].priority }],
            ),
    decreases hits.len(),
{
    if hits.len() > 0 {
        lemma_route_events(hits.drop_first());
        assert forall|k: int| 0 < k < hits.len() implies #[trigger] route_events(hits)[k] == (
            hits[k].found,
            seq![RetrievalSource::TaskRoute { priority: hits[k].priority }],
        ) by {
            assert(hits.drop_first()[k - 1] == hits[k]);
        }
    }
}

proof fn lemma_vector_events(hits: Seq<VectorHit>)
    ensures
        vector_events(hits).len() == hits.len(),
        forall|k: int|
            0 <= k < hits.len() ==> #[trigger] vector_events(hits)[k] == (
                hits[k].found,
                seq![RetrievalSource::VectorSearch { distance_bits: hits[k].distance_bits }],
            ),
    decreases hits.len(),
{
    if hits.len() > 0 {
        lemma_vector_events(hits.drop_first());
        assert forall|k: int| 0 < k < hits.len() implies #[trigger] vector_events(hits)[k] == (
            hits[k].found,
            seq![RetrievalSource::VectorSearch { distance_bits: hits[k].distance_bits }],
        ) by {
            assert(hits.drop_first()[k - 1] == hits[k]);
        }
    }
}

proof fn lemma_match_events(rs: Seq<Retrieved>, tokens: Seq<String>)
    ensures
        forall|k: int|
            0 <= k < rs.len() && match_sources(rs[k], tokens).len() > 0 ==> exists|m: int|
                0 <= m < match_events(rs, tokens).len() && #[trigger] match_events(rs, tokens)[m] == (
                    rs[k],
                    match_sources(rs[k], tokens),
                ),
        forall|m: int|
            #![trigger match_events(rs, tokens)[m]]
            0 <= m < match_events(rs, tokens).len() ==> exists|k: int|
                0 <= k < rs.len() && #[trigger] rs[k] == match_events(rs, tokens)[m].0,
    decreases rs.len(),
{
    if rs.len() > 0 {
        let rest = rs.drop_first();
        lemma_match_events(rest, tokens);
        let srcs = match_sources(rs[0], tokens);
        let head: Seq<RetrievalEvent> = if srcs.len() > 0 { seq![(rs[0], srcs)] } else { seq![] };
        let me = match_events(rs, tokens);
        assert(me == head + match_events(rest, tokens));
        assert forall|k: int|
            0 <= k < rs.len() && match_sources(rs[k], tokens).len() > 0 implies exists|m: int|
                0 <= m < me.len() && #[trigger] me[m] == (rs[k], match_sources(rs[k], tokens)) by {
            if k == 0 {
                assert(me[0] == (rs[0], srcs));
            } else {
                assert(rest[k - 1] == rs[k]);
                let m = choose|m: int|
                    0 <= m < match_events(rest, tokens).len() && #[trigger] match_events(rest, tokens)[m]
                        == (rest[k - 1], match_sources(rest[k - 1], tokens));
                assert(me[head.len() + m] == match_events(rest, tokens)[m]);
            }
        }
        assert forall|m: int| #![trigger me[m]] 0 <= m < me.len() implies exists|k: int|
            0 <= k < rs.len() && #[trigger] rs[k] == me[m].0 by {
            if m < head.len() {
                assert(rs[0] == me[m].0);
            } else {
                assert(me[m] == match_events(rest, tokens)[m - head.len()]);
                let k = choose|k: int| 0 <= k < rest.len() && #[trigger] rest[k] == match_events(rest, tokens)[m
                    - head.len()].0;
                assert(rs[k + 1] == rest[k]);
            }
        }
    }
}

/// Nothing is lost and nothing is made up when hits are merged: every
/// entity reached by a task route, by vector search, or by a name, path or
/// keyword match is a candidate that carries that source (the route's
/// priority, the vector distance), and every candidate's entity is one of
/// those hits or entities. Candidates have distinct ids, so there are as
/// many candidates as distinct entity ids found.
pub proof fn lemma_retrieve_finds_every_hit(
    route_hits: Seq<RouteHit>,
    tokens: Seq<String>,
    entities: Seq<Retrieved>,
    vector_hits: Seq<VectorHit>,
)
    ensures
        ({
            let r = retrieve_spec(route_hits, tokens, entities, vector_hits);
            &&& distinct_ids(r)
            &&& forall|k: int|
                0 <= k < route_hits.len() ==> has_candidate_with(
                    r,
                    #[trigger] route_hits[k].found.entity.id@,
                    RetrievalSource::TaskRoute { priority: route_hits[k].priority },
                )
            &&& forall|k: int|
                0 <= k < vector_hits.len() ==> has_candidate_with(
                    r,
                    #[trigger] vector_hits[k].found.entity.id@,
                    RetrievalSource::VectorSearch { distance_bits: vector_hits[k].distance_bits },
                )
            &&& forall|k: int|
                0 <= k < entities.len() && any_token_in(tokens, lowercase(#[trigger] entities[k].entity.name@))
                    ==> has_candidate_with(r, entities[k].entity.id@, RetrievalSource::NameMatch)
            &&& forall|k: int|
                0 <= k < entities.len() && any_token_in(tokens, lowercase(path_text(#[trigger] entities[k].entity.path)))
                    ==> has_candidate_with(r, entities[k].entity.id@, RetrievalSource::PathMatch)
            &&& forall|k: int|
                0 <= k < entities.len() && any_token_in_keywords(tokens, #[trigger] entities[k].keywords@)
                    ==> has_candidate_with(r, entities[k].entity.id@, RetrievalSource::KeywordMatch)
            &&& forall|j: int|
                #![trigger r[j]]
                0 <= j < r.len() ==> (exists|k: int|
                    0 <= k < route_hits.len() && #[trigger] route_hits[k].found.entity.id@ == r[j].0.id@)
                    || (exists|k: int| 0 <= k < entities.len() && #[trigger] entities[k].entity.id@ == r[j].0.id@)
                    || (exists|k: int|
                    0 <= k < vector_hits.len() && #[trigger] vector_hits[k].found.entity.id@ == r[j].0.id@)
        }),
{
    let re = route_events(route_hits);
    let me = match_events(entities, tokens);
    let ve = vector_events(vector_hits);
    let evs = re + me + ve;
    let r = retrieve_spec(route_hits, tokens, entities, vector_hits);
    lemma_merge_distinct(seq![], evs);
    lemma_merge_events_keeps(seq![], evs);
    lemma_route_events(route_hits);
    lemma_vector_events(vector_hits);
    lemma_match_events(entities, tokens);
    assert forall|k: int| 0 <= k < route_hits.len() implies has_candidate_with(
        r,
        #[trigger] route_hits[k].found.entity.id@,
        RetrievalSource::TaskRoute { priority: route_hits[k].priority },
    ) by {
        assert(evs[k] == re[k]);
        assert(evs[k].1[0] == RetrievalSource::TaskRoute { priority: route_hits[k].priority });
        assert(evs[k].1.contains(RetrievalSource::TaskRoute { priority: route_hits[k].priority }));
    }
    assert forall|k: int| 0 <= k < vector_hits.len() implies has_candidate_with(
        r,
        #[trigger] vector_hits[k].found.entity.id@,
        RetrievalSource::VectorSearch { distance_bits: vector_hits[k].distance_bits },
    ) by {
        let m = re.len() + me.len() + k;
        assert(evs[m] == ve[k]);
        assert(evs[m].1[0] == RetrievalSource::VectorSearch { distance_bits: vector_hits[k].distance_bits });
        assert(evs[m].1.contains(RetrievalSource::VectorSearch { distance_bits: vector_hits[k].distance_bits }));
    }
    assert forall|k: int, src: RetrievalSource|
        0 <= k < entities.len() && #[trigger] match_sources(entities[k], tokens).contains(src)
            implies has_candidate_with(r, entities[k].entity.id@, src) by {
        let m = choose|m: int|
            0 <= m < me.len() && #[trigger] me[m] == (entities[k], match_sources(entities[k], tokens));
        assert(evs[re.len() + m] == me[m]);
        assert(evs[re.len() + m].1.contains(src));
    }
    assert forall|k: int|
        0 <= k < entities.len() && any_token_in(tokens, lowercase(#[trigger] entities[k].entity.name@))
            implies has_candidate_with(r, entities[k].entity.id@, RetrievalSource::NameMatch) by {
        assert(match_sources(entities[k], tokens)[0] == RetrievalSource::NameMatch);
        assert(match_sources(entities[k], tokens).contains(RetrievalSource::NameMatch));
    }
    assert forall|k: int|
        0 <= k < entities.len() && any_token_in(tokens, lowercase(path_text(#[trigger] entities[k].entity.path)))
            implies has_candidate_with(r, entities[k].entity.id@, RetrievalSource::PathMatch) by {
        let ms = match_sources(entities[k], tokens);
        let n = if any_token_in(tokens, lowercase(entities[k].entity.name@)) { 1int } else { 0int };
        assert(ms[n] == RetrievalSource::PathMatch);
        assert(ms.contains(RetrievalSource::PathMatch));
    }
    assert forall|k: int|
        0 <= k < entities.len() && any_token_in_keywords(tokens, #[trigger] entities[k].keywords@)
            implies has_candidate_with(r, entities[k].entity.id@, RetrievalSource::KeywordMatch) by {
        let ms = match_sources(entities[k], tokens);
        assert(ms[ms.len() - 1] == RetrievalSource::KeywordMatch);
        assert(ms.contains(RetrievalSource::KeywordMatch));
    }
    assert forall|j: int| #![trigger r[j]] 0 <= j < r.len() implies (exists|k: int|
        0 <= k < route_hits.len() && #[trigger] route_hits[k].found.entity.id@ == r[j].0.id@)
        || (exists|k: int| 0 <= k < entities.len() && #[trigger] entities[k].entity.id@ == r[j].0.id@)
        || (exists|k: int|
        0 <= k < vector_hits.len() && #[trigger] vector_hits[k].found.entity.id@ == r[j].0.id@) by {
        let k = choose|k: int| 0 <= k < evs.len() && #[trigger] evs[k].0.entity.id@ == r[j].0.id@;
        if k < re.len() {
            assert(evs[k] == re[k]);
            assert(route_hits[k].found.entity.id@ == r[j].0.id@);
        } else if k < re.len() + me.len() {
            assert(evs[k] == me[k - re.len()]);
            let e = choose|e: int| 0 <= e < entities.len() && #[trigger] entities[e] == me[k - re.len()].0;
            assert(entities[e].entity.id@ == r[j].0.id@);
        } else {
            let v = k - re.len() - me.len();
            assert(evs[k] == ve[v]);
            assert(vector_hits[v].found.entity.id@ == r[j].0.id@);
        }
    }
}

/// Whether some token occurs in `text`.
fn any_token_in_exec(tokens: &Vec<String>, text: &Vec<char>) -> (res: bool)
    ensures
        res == any_token_in(tokens@, text@),
{
    let mut i: usize = 0;
    while i < tokens.len()
        invariant
            i <= tokens@.len(),
            forall|j: int| 0 <= j < i ==> !contains_seq(text@, #[trigger] tokens@[j]@),
        decreases tokens.len() - i,
    {
        let t = chars_of(tokens[i].as_str());
        if contains_chars(text, &t) {
            return true;
        }
        i += 1;
    }
    false
}

fn any_token_in_keywords_exec(tokens: &Vec<String>, keywords: &Vec<String>) -> (res: bool)
    ensures
        res == any_token_in_keywords(tokens@, keywords@),
{
    let mut k: usize = 0;
    while k < keywords.len()
        invariant
            k <= keywords@.len(),
            forall|j: int| 0 <= j < k ==> !any_token_in(tokens@, lowercase(#[trigger] keywords@[j]@)),
        decreases keywords.len() - k,
    {
        let lower = to_lowercase(keywords[k].as_str());
        let l = chars_of(lower.as_str());
        if any_token_in_exec(tokens, &l) {
            return true;
        }
        k += 1;
    }
    false
}

/// The keyword/name/path sources of one entity.
pub fn match_sources_exec(r: &Retrieved, tokens: &Vec<String>) -> (res: Vec<RetrievalSource>)
    ensures
        res@ == match_sources(*r, tokens@),
{
    let name_lower = to_lowercase(r.entity.name.as_str());
    let name_match = any_token_in_exec(tokens, &chars_of(name_lower.as_str()));
    let path_lower = match &r.entity.path {
        Some(p) => to_lowercase(p.as_str()),
        None => {
            proof {
                reveal_strlit("");
                assert(""@ == Seq::<char>::empty());
            }
            to_lowercase("")
        },
    };
    let path_match = any_token_in_exec(tokens, &chars_of(path_lower.as_str()));
    let kw_match = any_token_in_keywords_exec(tokens, &r.keywords);
    let mut res: Vec<RetrievalSource> = Vec::new();
    if name_match {
        res.push(RetrievalSource::NameMatch);
    }
    if path_match {
        res.push(RetrievalSource::PathMatch);
    }
    if kw_match {
        res.push(RetrievalSource::KeywordMatch);
    }
    proof {
        let n = if name_match { seq![RetrievalSource::NameMatch] } else { seq![] };
        let p = if path_match { seq![RetrievalSource::PathMatch] } else { seq![] };
        let k = if kw_match { seq![RetrievalSource::KeywordMatch] } else { seq![] };
        assert(res@ == n + p + k);
    }
    res
}

/// The position of the candidate with entity id `id`, or the length when
/// there is none.
fn find_index(out: &Vec<Candidate>, id: &str) -> (res: usize)
    ensures
        res <= out@.len(),
        res < out@.len() ==> find_candidate(out@.map_values(|c: Candidate| candidate_view(c)), id@, 0)
            == res,
        res == out@.len() ==> find_candidate(
            out@.map_values(|c: Candidate| candidate_view(c)),
            id@,
            0,
        ) == -1,
{
    let ghost acc = out@.map_values(|c: Candidate| candidate_view(c));
    let mut j: usize = 0;
    while j < out.len()
        invariant
            j <= out@.len(),
            acc == out@.map_values(|c: Candidate| candidate_view(c)),
            find_candidate(acc, id@, 0) == find_candidate(acc, id@, j as int),
        decreases out.len() - j,
    {
        if crate::text::str_eq(out[j].entity.id.as_str(), id) {
            assert(acc[j as int].0.id@ == id@);
            return j;
        }
        j += 1;
    }
    j
}

/// Merges one found entity into the candidate list.
fn merge_into(out: &mut Vec<Candidate>, found: Retrieved, sources: Vec<RetrievalSource>)
    ensures
        final(out)@.map_values(|c: Candidate| candidate_view(c)) == merge_event(
            old(out)@.map_values(|c: Candidate| candidate_view(c)),
            (found, sources@),
        ),
{
    let ghost acc = out@.map_values(|c: Candidate| candidate_view(c));
    let j = find_index(out, found.entity.id.as_str());
    if j == out.len() {
        out.push(Candidate {
            entity: found.entity,
            sources,
            short_summary: found.short_summary,
            keywords: found.keywords,
        });
        assert(out@.map_values(|c: Candidate| candidate_view(c)) == acc.push(
            candidate_view(out@[out@.len() - 1]),
        ));
    } else {
        let mut c = out.remove(j);
        let mut srcs = sources;
        c.sources.append(&mut srcs);
        out.insert(j, c);
        assert(out@.map_values(|c: Candidate| candidate_view(c)) == acc.update(
            j as int,
            (acc[j as int].0, acc[j as int].1, acc[j as int].2, acc[j as int].3 + sources@),
        ));
    }
}

/// Retrieves candidates from task-route hits, keyword/name/path matching
/// over all entities, and vector-search hits, merged by entity id: the
/// first event that finds an entity fixes its summary, later ones add
/// their sources in order.
pub fn retrieve(
    route_hits: Vec<RouteHit>,
    query_tokens: &Vec<String>,
    entities: Vec<Retrieved>,
    vector_hits: Vec<VectorHit>,
) -> (res: Vec<Candidate>)
    ensures
        res@.map_values(|c: Candidate| candidate_view(c)) == retrieve_spec(
            route_hits@,
            query_tokens@,
            entities@,
            vector_hits@,
        ),
        distinct_ids(res@.map_values(|c: Candidate| candidate_view(c))),
{
    let ghost total = retrieve_spec(route_hits@, query_tokens@, entities@, vector_hits@);
    let mut out: Vec<Candidate> = Vec::new();
    assert(out@.map_values(|c: Candidate| candidate_view(c)) == Seq::<
        (Entity, String, Vec<String>, Seq<RetrievalSource>),
    >::empty());
    let mut routes = route_hits;
    let mut ents = entities;
    let mut vecs = vector_hits;
    proof {
        lemma_merge_distinct(
            seq![],
            route_events(routes@) + match_events(ents@, query_tokens@) + vector_events(vecs@),
        );
    }
    while routes.len() > 0
        invariant
            merge_events(
                out@.map_values(|c: Candidate| candidate_view(c)),
                route_events(routes@) + match_events(ents@, query_tokens@) + vector_events(vecs@),
            ) == total,
        decreases routes.len(),
    {
        let ghost before = out@.map_values(|c: Candidate| candidate_view(c));
        let ghost rest = route_events(routes@) + match_events(ents@, query_tokens@)
            + vector_events(vecs@);
        let hit = routes.remove(0);
        let mut srcs: Vec<RetrievalSource> = Vec::new();
        srcs.push(RetrievalSource::TaskRoute { priority: hit.priority });
        proof {
            assert(srcs@ == seq![RetrievalSource::TaskRoute { priority: hit.priority }]);
            assert(rest[0] == (hit.found, srcs@));
            assert(rest.drop_first() == route_events(routes@) + match_events(ents@, query_tokens@)
                + vector_events(vecs@));
        }
        merge_into(&mut out, hit.found, srcs);
    }
    assert(route_events(routes@) == Seq::<RetrievalEvent>::empty());
    assert(route_events(routes@) + match_events(ents@, query_tokens@) + vector_events(vecs@)
        == match_events(ents@, query_tokens@) + vector_events(vecs@));
    while ents.len() > 0
        invariant
            merge_events(
                out@.map_values(|c: Candidate| candidate_view(c)),
                match_events(ents@, query_tokens@) + vector_events(vecs@),
            ) == total,
        decreases ents.len(),
    {
        let ghost rest = match_events(ents@, query_tokens@) + vector_events(vecs@);
        let r = ents.remove(0);
        let srcs = match_sources_exec(&r, query_tokens);
        if srcs.len() > 0 {
            proof {
                assert(rest[0] == (r, srcs@));
                assert(rest.drop_first() == match_events(ents@, query_tokens@) + vector_events(
                    vecs@,
                ));
            }
            merge_into(&mut out, r, srcs);
        } else {
            assert(rest == match_events(ents@, query_tokens@) + vector_events(vecs@));
        }
    }
    assert(match_events(ents@, query_tokens@) + vector_events(vecs@) == vector_events(vecs@));
    while vecs.len() > 0
        invariant
            merge_events(out@.map_values(|c: Candidate| candidate_view(c)), vector_events(vecs@))
                == total,
        decreases vecs.len(),
    {
        let ghost rest = vector_events(vecs@);
        let hit = vecs.remove(0);
        let mut srcs: Vec<RetrievalSource> = Vec::new();
        srcs.push(RetrievalSource::VectorSearch { distance_bits: hit.distance_bits });
        proof {
            assert(srcs@ == seq![RetrievalSource::VectorSearch { distance_bits: hit.distance_bits }]);
            assert(rest[0] == (hit.found, srcs@));
            assert(rest.drop_first() == vector_events(vecs@));
        }
        merge_into(&mut out, hit.found, srcs);
    }
    out
}

} // verus!
