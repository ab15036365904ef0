//! One-hop graph expansion of retrieval seeds.

use vstd::prelude::*;
use crate::model::edge::{Edge, EdgeKind};
use crate::text::{owned, str_eq};

verus! {

/// Edge kinds worth following from a seed.
pub open spec fn is_useful_edge(k: EdgeKind) -> bool {
    match k {
        EdgeKind::OwnsTask | EdgeKind::DeclaresFeature | EdgeKind::FeatureEnables
        | EdgeKind::Mentions => false,
        _ => true,
    }
}

/// Whether an edge kind is worth following from a seed.
pub fn useful_edge_kind(k: EdgeKind) -> (res: bool)
    ensures
        res == is_useful_edge(k),
{
    match k {
        EdgeKind::OwnsTask | EdgeKind::DeclaresFeature | EdgeKind::FeatureEnables
        | EdgeKind::Mentions => false,
        _ => true,
    }
}

/// `id` is one of `ids`.
pub open spec fn has_id(ids: Seq<String>, id: Seq<char>) -> bool {
    exists|i: int| 0 <= i < ids.len() && #[trigger] ids[i]@ == id
}

/// `id` is already a neighbor.
pub open spec fn has_neighbor(nb: Seq<(Seq<char>, Seq<char>)>, id: Seq<char>) -> bool {
    exists|i: int| 0 <= i < nb.len() && #[trigger] nb[i].0 == id
}

/// The entity at the other end of an edge, seen from the seed.
pub open spec fn other_end(e: Edge, outgoing: bool) -> Seq<char> {
    if outgoing {
        e.dst_id@
    } else {
        e.src_id@
    }
}

/// Walks the edges of one seed in order, adding each new, existing,
/// non-seed neighbor reached by a useful edge, until `count` reaches `max`.
/// Returns the neighbors and the new count.
pub open spec fn take_edges(
    nb: Seq<(Seq<char>, Seq<char>)>,
    edges: Seq<Edge>,
    outgoing: bool,
    seed: Seq<char>,
    seeds: Seq<String>,
    existing: Seq<String>,
    count: nat,
    max: nat,
) -> (Seq<(Seq<char>, Seq<char>)>, nat)
    decreases edges.len(),
{
    if edges.len() == 0 || count >= max {
        (nb, count)
    } else {
        let e = edges[0];
        let other = other_end(e, outgoing);
        if is_useful_edge(e.rel) && !has_id(seeds, other) && !has_neighbor(nb, other) && has_id(
            existing,
            other,
        ) {
            take_edges(
                nb.push((other, seed)),
                edges.drop_first(),
                outgoing,
                seed,
                seeds,
                existing,
                count + 1,
                max,
            )
        } else {
            take_edges(nb, edges.drop_first(), outgoing, seed, seeds, existing, count, max)
        }
    }
}

/// Expansion of the seeds from position `i` on: for each seed, its
/// outgoing edges and then its incoming edges, sharing one cap.
pub open spec fn expand_from(
    nb: Seq<(Seq<char>, Seq<char>)>,
    seeds: Seq<String>,
    outgoing: Seq<Vec<Edge>>,
    incoming: Seq<Vec<Edge>>,
    existing: Seq<String>,
    max: nat,
    i: int,
) -> Seq<(Seq<char>, Seq<char>)>
    decreases seeds.len() - i,
{
    if i < 0 || i >= seeds.len() {
        nb
    } else {
        let seed = seeds[i]@;
        let after_out = take_edges(nb, outgoing[i]@, true, seed, seeds, existing, 0, max);
        let after_in = take_edges(
            after_out.0,
            incoming[i]@,
            false,
            seed,
            seeds,
            existing,
            after_out.1,
            max,
        );
        expand_from(after_in.0, seeds, outgoing, incoming, existing, max, i + 1)
    }
}

/// Neighbors are distinct, none is a seed, and each was reached from a seed.
pub open spec fn well_formed_neighbors(
    nb: Seq<(Seq<char>, Seq<char>)>,
    seeds: Seq<String>,
    existing: Seq<String>,
) -> bool {
    &&& forall|a: int, b: int| 0 <= a < b < nb.len() ==> nb[a].0 != nb[b].0
    &&& forall|a: int| 0 <= a < nb.len() ==> !has_id(seeds, #[trigger] nb[a].0)
    &&& forall|a: int| 0 <= a < nb.len() ==> has_id(seeds, #[trigger] nb[a].1)
    &&& forall|a: int| 0 <= a < nb.len() ==> has_id(existing, #[trigger] nb[a].0)
}

pub proof fn lemma_take_edges(
    nb: Seq<(Seq<char>, Seq<char>)>,
    edges: Seq<Edge>,
    outgoing: bool,
    seed: Seq<char>,
    seeds: Seq<String>,
    existing: Seq<String>,
    count: nat,
    max: nat,
)
    requires
        well_formed_neighbors(nb, seeds, existing),
        has_id(seeds, seed),
    ensures
        ({
            let r = take_edges(nb, edges, outgoing, seed, seeds, existing, count, max);
            &&& well_formed_neighbors(r.0, seeds, existing)
            &&& r.0.len() - nb.len() == r.1 - count
            &&& count <= max ==> r.1 <= max
            &&& count <= r.1
            &&& r.0.take(nb.len() as int) == nb
        }),
    decreases edges.len(),
{
    if edges.len() == 0 || count >= max {
        assert(nb.take(nb.len() as int) == nb);
    } else {
        let e = edges[0];
        let other = other_end(e, outgoing);
        if is_useful_edge(e.rel) && !has_id(seeds, other) && !has_neighbor(nb, other) && has_id(
            existing,
            other,
        ) {
            let nb2 = nb.push((other, seed));
            assert forall|a: int, b: int| 0 <= a < b < nb2.len() implies nb2[a].0 != nb2[b].0 by {
                if b == nb.len() {
                    if nb2[a].0 == other {
                        assert(nb[a].0 == other);
                    }
                }
            }
            assert forall|a: int| 0 <= a < nb2.len() implies !has_id(seeds, #[trigger] nb2[a].0) by {
                if a < nb.len() {
                    assert(nb2[a] == nb[a]);
                }
            }
            assert forall|a: int| 0 <= a < nb2.len() implies has_id(seeds, #[trigger] nb2[a].1) by {
                if a < nb.len() {
                    assert(nb2[a] == nb[a]);
                }
            }
            assert forall|a: int| 0 <= a < nb2.len() implies has_id(existing, #[trigger] nb2[a].0) by {
                if a < nb.len() {
                    assert(nb2[a] == nb[a]);
                }
            }
            lemma_take_edges(
                nb2,
                edges.drop_first(),
                outgoing,
                seed,
                seeds,
                existing,
                count + 1,
                max,
            );
            let r = take_edges(nb2, edges.drop_first(), outgoing, seed, seeds, existing, count + 1, max);
            assert(r.0.take(nb.len() as int) == r.0.take(nb2.len() as int).take(nb.len() as int));
            assert(nb2.take(nb.len() as int) == nb);
        } else {
            lemma_take_edges(nb, edges.drop_first(), outgoing, seed, seeds, existing, count, max);
        }
    }
}

pub proof fn lemma_expand_from(
    nb: Seq<(Seq<char>, Seq<char>)>,
    seeds: Seq<String>,
    outgoing: Seq<Vec<Edge>>,
    incoming: Seq<Vec<Edge>>,
    existing: Seq<String>,
    max: nat,
    i: int,
)
    requires
        0 <= i,
        outgoing.len() == seeds.len(),
        incoming.len() == seeds.len(),
        well_formed_neighbors(nb, seeds, existing),
    ensures
        well_formed_neighbors(expand_from(nb, seeds, outgoing, incoming, existing, max, i), seeds, existing),
    decreases seeds.len() - i,
{
    if i < seeds.len() {
        let seed = seeds[i]@;
        assert(has_id(seeds, seed));
        lemma_take_edges(nb, outgoing[i]@, true, seed, seeds, existing, 0, max);
        let after_out = take_edges(nb, outgoing[i]@, true, seed, seeds, existing, 0, max);
        lemma_take_edges(after_out.0, incoming[i]@, false, seed, seeds, existing, after_out.1, max);
        let after_in = take_edges(after_out.0, incoming[i]@, false, seed, seeds, existing, after_out.1, max);
        lemma_expand_from(after_in.0, seeds, outgoing, incoming, existing, max, i + 1);
    }
}

/// A neighbor reached from a seed.
#[derive(Debug, Clone)]
pub struct Neighbor {
    pub entity_id: String,
    pub via: String,
}

pub open spec fn neighbor_view(n: Neighbor) -> (Seq<char>, Seq<char>) {
    (n.entity_id@, n.via@)
}

fn contains_id(ids: &Vec<String>, id: &str) -> (res: bool)
    ensures
        res == has_id(ids@, id@),
{
    let mut i: usize = 0;
    while i < ids.len()
        invariant
            i <= ids@.len(),
            forall|j: int| 0 <= j < i ==> ids@[j]@ != id@,
        decreases ids.len() - i,
    {
        if str_eq(ids[i].as_str(), id) {
            return true;
        }
        i += 1;
    }
    false
}

fn contains_neighbor(nb: &Vec<Neighbor>, id: &str) -> (res: bool)
    ensures
        res == has_neighbor(nb@.map_values(|n: Neighbor| neighbor_view(n)), id@),
{
    let ghost v = nb@.map_values(|n: Neighbor| neighbor_view(n));
    let mut i: usize = 0;
    while i < nb.len()
        invariant
            i <= nb@.len(),
            v == nb@.map_values(|n: Neighbor| neighbor_view(n)),
            forall|j: int| 0 <= j < i ==> v[j].0 != id@,
        decreases nb.len() - i,
    {
        if str_eq(nb[i].entity_id.as_str(), id) {
            assert(v[i as int].0 == id@);
            return true;
        }
        i += 1;
    }
    false
}

fn take_edges_exec(
    nb: &mut Vec<Neighbor>,
    edges: &Vec<Edge>,
    outgoing: bool,
    seed: &String,
    seeds: &Vec<String>,
    existing: &Vec<String>,
    count: usize,
    max: usize,
) -> (res: usize)
    requires
        count <= max,
    ensures
        (final(nb)@.map_values(|n: Neighbor| neighbor_view(n)), res as nat) == take_edges(
            old(nb)@.map_values(|n: Neighbor| neighbor_view(n)),
            edges@,
            outgoing,
            seed@,
            seeds@,
            existing@,
            count as nat,
            max as nat,
        ),
        res <= max,
{
    let ghost total = take_edges(
        nb@.map_values(|n: Neighbor| neighbor_view(n)),
        edges@,
        outgoing,
        seed@,
        seeds@,
        existing@,
        count as nat,
        max as nat,
    );
    let ghost old_count = count;
    let mut count = count;
    let mut k: usize = 0;
    assert(edges@.skip(0) == edges@);
    while k < edges.len() && count < max
        invariant
            k <= edges@.len(),
            count <= max,
            total == take_edges(
                old(nb)@.map_values(|n: Neighbor| neighbor_view(n)),
                edges@,
                outgoing,
                seed@,
                seeds@,
                existing@,
                old_count as nat,
                max as nat,
            ),
            take_edges(
                nb@.map_values(|n: Neighbor| neighbor_view(n)),
                edges@.skip(k as int),
                outgoing,
                seed@,
                seeds@,
                existing@,
                count as nat,
                max as nat,
            ) == total,
        decreases edges.len() - k,
    {
        let ghost rest = edges@.skip(k as int);
        assert(rest.drop_first() == edges@.skip(k + 1));
        let e = &edges[k];
        assert(rest[0] == *e);
        let other: &String = if outgoing {
            &e.dst_id
        } else {
            &e.src_id
        };
        if useful_edge_kind(e.rel) && !contains_id(seeds, other.as_str()) && !contains_neighbor(
            nb,
            other.as_str(),
        ) && contains_id(existing, other.as_str()) {
            let ghost before = nb@.map_values(|n: Neighbor| neighbor_view(n));
            nb.push(Neighbor { entity_id: owned(other.as_str()), via: owned(seed.as_str()) });
            assert(nb@.map_values(|n: Neighbor| neighbor_view(n)) == before.push(
                (other@, seed@),
            ));
            count += 1;
        }
        k += 1;
    }
    assert(take_edges(
        nb@.map_values(|n: Neighbor| neighbor_view(n)),
        edges@.skip(k as int),
        outgoing,
        seed@,
        seeds@,
        existing@,
        count as nat,
        max as nat,
    ) == (nb@.map_values(|n: Neighbor| neighbor_view(n)), count as nat));
    count
}

/// Expands seeds by one hop: for each seed in order, its outgoing edges
/// (`outgoing[i]`) and then its incoming edges (`incoming[i]`) are walked,
/// and each useful edge to an existing entity that is neither a seed nor
/// already a neighbor adds that entity, at most `max_neighbors_per_seed`
/// per seed.
pub fn expand(
    seeds: &Vec<String>,
    outgoing: &Vec<Vec<Edge>>,
    incoming: &Vec<Vec<Edge>>,
    existing: &Vec<String>,
    max_neighbors_per_seed: usize,
) -> (res: Vec<Neighbor>)
    requires
        outgoing@.len() == seeds@.len(),
        incoming@.len() == seeds@.len(),
    ensures
        res@.map_values(|n: Neighbor| neighbor_view(n)) == expand_from(
            seq![],
            seeds@,
            outgoing@,
            incoming@,
            existing@,
            max_neighbors_per_seed as nat,
            0,
        ),
        well_formed_neighbors(res@.map_values(|n: Neighbor| neighbor_view(n)), seeds@, existing@),
{
    let mut nb: Vec<Neighbor> = Vec::new();
    let ghost total = expand_from(
        seq![],
        seeds@,
        outgoing@,
        incoming@,
        existing@,
        max_neighbors_per_seed as nat,
        0,
    );
    assert(nb@.map_values(|n: Neighbor| neighbor_view(n)) == Seq::<(Seq<char>, Seq<char>)>::empty());
    proof {
        lemma_expand_from(
            seq![],
            seeds@,
            outgoing@,
            incoming@,
            existing@,
            max_neighbors_per_seed as nat,
            0,
        );
    }
    let mut i: usize = 0;
    while i < seeds.len()
        invariant
            i <= seeds@.len(),
            outgoing@.len() == seeds@.len(),
            incoming@.len() == seeds@.len(),
            expand_from(
                nb@.map_values(|n: Neighbor| neighbor_view(n)),
                seeds@,
                outgoing@,
                incoming@,
                existing@,
                max_neighbors_per_seed as nat,
                i as int,
            ) == total,
        decreases seeds.len() - i,
    {
        let c = take_edges_exec(
            &mut nb,
            &outgoing[i],
            true,
            &seeds[i],
            seeds,
            existing,
            0,
            max_neighbors_per_seed,
        );
        take_edges_exec(
            &mut nb,
            &incoming[i],
            false,
            &seeds[i],
            seeds,
            existing,
            c,
            max_neighbors_per_seed,
        );
        i += 1;
    }
    nb
}

/// Taking edges adds one neighbor per counted edge, and the count stops at
/// the cap.
pub proof fn lemma_take_edges_count(
    nb: Seq<(Seq<char>, Seq<char>)>,
    edges: Seq<Edge>,
    outgoing: bool,
    seed: Seq<char>,
    seeds: Seq<String>,
    existing: Seq<String>,
    count: nat,
    max: nat,
)
    requires
        count <= max,
    ensures
        ({
            let r = take_edges(nb, edges, outgoing, seed, seeds, existing, count, max);
            &&& count <= r.1 <= max
            &&& r.0.len() == nb.len() + (r.1 - count)
        }),
    decreases edges.len(),
{
    if edges.len() > 0 && count < max {
        let e = edges[0];
        let other = other_end(e, outgoing);
        if is_useful_edge(e.rel) && !has_id(seeds, other) && !has_neighbor(nb, other) && has_id(existing, other) {
            lemma_take_edges_count(nb.push((other, seed)), edges.drop_first(), outgoing, seed, seeds, existing, count + 1, max);
        } else {
            lemma_take_edges_count(nb, edges.drop_first(), outgoing, seed, seeds, existing, count, max);
        }
    }
}

/// Expansion adds at most `max` neighbors per seed.
pub proof fn lemma_expand_at_most_per_seed(
    nb: Seq<(Seq<char>, Seq<char>)>,
    seeds: Seq<String>,
    outgoing: Seq<Vec<Edge>>,
    incoming: Seq<Vec<Edge>>,
    existing: Seq<String>,
    max: nat,
    i: int,
)
    requires
        0 <= i <= seeds.len(),
        outgoing.len() == seeds.len(),
        incoming.len() == seeds.len(),
    ensures
        expand_from(nb, seeds, outgoing, incoming, existing, max, i).len() <= nb.len() + (seeds.len() - i) * max,
    decreases seeds.len() - i,
{
    if i < seeds.len() {
        let seed = seeds[i]@;
        let after_out = take_edges(nb, outgoing[i]@, true, seed, seeds, existing, 0, max);
        lemma_take_edges_count(nb, outgoing[i]@, true, seed, seeds, existing, 0, max);
        let after_in = take_edges(after_out.0, incoming[i]@, false, seed, seeds, existing, after_out.1, max);
        lemma_take_edges_count(after_out.0, incoming[i]@, false, seed, seeds, existing, after_out.1, max);
        lemma_expand_at_most_per_seed(after_in.0, seeds, outgoing, incoming, existing, max, i + 1);
        assert(after_in.0.len() <= nb.len() + max);
        assert((seeds.len() - i) * max == max + (seeds.len() - (i + 1)) * max) by (nonlinear_arith);
    }
}

/// How many neighbors were reached from `seed`.
pub open spec fn count_via(nb: Seq<(Seq<char>, Seq<char>)>, seed: Seq<char>) -> nat
    decreases nb.len(),
{
    if nb.len() == 0 {
        0
    } else {
        count_via(nb.drop_last(), seed) + (if nb.last().1 == seed {
            1nat
        } else {
            0nat
        })
    }
}

/// An edge that expansion may follow: of a useful kind, to an entity that
/// exists and is not a seed.
pub open spec fn followable(e: Edge, outgoing: bool, seeds: Seq<String>, existing: Seq<String>) -> bool {
    &&& is_useful_edge(e.rel)
    &&& !has_id(seeds, other_end(e, outgoing))
    &&& has_id(existing, other_end(e, outgoing))
}

/// Every followable edge among `edges` leads to a neighbor of `nb`.
pub open spec fn all_followed(
    nb: Seq<(Seq<char>, Seq<char>)>,
    edges: Seq<Edge>,
    outgoing: bool,
    seeds: Seq<String>,
    existing: Seq<String>,
) -> bool {
    forall|k: int|
        0 <= k < edges.len() && followable(#[trigger] edges[k], outgoing, seeds, existing) ==> has_neighbor(
            nb,
            other_end(edges[k], outgoing),
        )
}

proof fn lemma_count_via_prefix(nb: Seq<(Seq<char>, Seq<char>)>, k: int, seed: Seq<char>)
    requires
        0 <= k <= nb.len(),
    ensures
        count_via(nb.take(k), seed) <= count_via(nb, seed),
    decreases nb.len(),
{
    if k < nb.len() {
        lemma_count_via_prefix(nb.drop_last(), k, seed);
        assert(nb.drop_last().take(k) == nb.take(k));
    } else {
        assert(nb.take(k) == nb);
    }
}

proof fn lemma_neighbor_persists(nb: Seq<(Seq<char>, Seq<char>)>, r: Seq<(Seq<char>, Seq<char>)>, x: Seq<char>)
    requires
        nb.len() <= r.len(),
        r.take(nb.len() as int) == nb,
        has_neighbor(nb, x),
    ensures
        has_neighbor(r, x),
{
    let i = choose|i: int| 0 <= i < nb.len() && #[trigger] nb[i].0 == x;
    assert(r.take(nb.len() as int)[i] == r[i]);
    assert(r[i].0 == x);
}

proof fn lemma_take_edges_facts(
    nb: Seq<(Seq<char>, Seq<char>)>,
    edges: Seq<Edge>,
    outgoing: bool,
    seed: Seq<char>,
    seeds: Seq<String>,
    existing: Seq<String>,
    count: nat,
    max: nat,
)
    ensures
        ({
            let r = take_edges(nb, edges, outgoing, seed, seeds, existing, count, max);
            &&& nb.len() <= r.0.len()
            &&& r.0.take(nb.len() as int) == nb
            &&& count <= r.1
            &&& count_via(r.0, seed) + count == count_via(nb, seed) + r.1
            &&& forall|s: Seq<char>| s != seed ==> #[trigger] count_via(r.0, s) == count_via(nb, s)
            &&& r.1 < max ==> all_followed(r.0, edges, outgoing, seeds, existing)
        }),
    decreases edges.len(),
{
    let r = take_edges(nb, edges, outgoing, seed, seeds, existing, count, max);
    if edges.len() == 0 || count >= max {
        assert(nb.take(nb.len() as int) == nb);
    } else {
        let e = edges[0];
        let other = other_end(e, outgoing);
        let rest = edges.drop_first();
        if is_useful_edge(e.rel) && !has_id(seeds, other) && !has_neighbor(nb, other) && has_id(existing, other) {
            let nb2 = nb.push((other, seed));
            lemma_take_edges_facts(nb2, rest, outgoing, seed, seeds, existing, count + 1, max);
            assert(nb2.drop_last() == nb);
            assert(r.0.take(nb.len() as int) == r.0.take(nb2.len() as int).take(nb.len() as int));
            assert(nb2.take(nb.len() as int) == nb);
            assert forall|s: Seq<char>| s != seed implies #[trigger] count_via(r.0, s) == count_via(nb, s) by {
                assert(count_via(nb2, s) == count_via(nb, s));
            }
            if r.1 < max {
                assert forall|k: int|
                    0 <= k < edges.len() && followable(#[trigger] edges[k], outgoing, seeds, existing)
                        implies has_neighbor(r.0, other_end(edges[k], outgoing)) by {
                    if k == 0 {
                        assert(nb2[nb.len() as int].0 == other);
                        lemma_neighbor_persists(nb2, r.0, other);
                    } else {
                        assert(rest[k - 1] == edges[k]);
                    }
                }
            }
        } else {
            lemma_take_edges_facts(nb, rest, outgoing, seed, seeds, existing, count, max);
            if r.1 < max {
                assert forall|k: int|
                    0 <= k < edges.len() && followable(#[trigger] edges[k], outgoing, seeds, existing)
                        implies has_neighbor(r.0, other_end(edges[k], outgoing)) by {
                    if k == 0 {
                        lemma_neighbor_persists(nb, r.0, other);
                    } else {
                        assert(rest[k - 1] == edges[k]);
                    }
                }
            }
        }
    }
}

proof fn lemma_expand_facts(
    nb: Seq<(Seq<char>, Seq<char>)>,
    seeds: Seq<String>,
    outgoing: Seq<Vec<Edge>>,
    incoming: Seq<Vec<Edge>>,
    existing: Seq<String>,
    max: nat,
    i: int,
)
    requires
        0 <= i,
        outgoing.len() == seeds.len(),
        incoming.len() == seeds.len(),
    ensures
        ({
            let r = expand_from(nb, seeds, outgoing, incoming, existing, max, i);
            &&& nb.len() <= r.len()
            &&& r.take(nb.len() as int) == nb
            &&& forall|j: int|
                i <= j < seeds.len() && count_via(r, #[trigger] seeds[j]@) < max ==> all_followed(
                    r,
                    outgoing[j]@,
                    true,
                    seeds,
                    existing,
                ) && all_followed(r, incoming[j]@, false, seeds, existing)
            &&& forall|s: Seq<char>|
                (forall|j: int| i <= j < seeds.len() ==> #[trigger] seeds[j]@ != s) ==> #[trigger] count_via(r, s)
                    == count_via(nb, s)
            &&& forall|j: int|
                i <= j < seeds.len() && (forall|a: int, b: int|
                    i <= a < b < seeds.len() ==> seeds[a]@ != seeds[b]@) ==> count_via(r, #[trigger] seeds[j]@)
                    <= count_via(nb, seeds[j]@) + max
        }),
    decreases seeds.len() - i,
{
    let r = expand_from(nb, seeds, outgoing, incoming, existing, max, i);
    if i >= seeds.len() {
        assert(nb.take(nb.len() as int) == nb);
    } else {
        let seed = seeds[i]@;
        let a = take_edges(nb, outgoing[i]@, true, seed, seeds, existing, 0, max);
        let b = take_edges(a.0, incoming[i]@, false, seed, seeds, existing, a.1, max);
        lemma_take_edges_facts(nb, outgoing[i]@, true, seed, seeds, existing, 0, max);
        lemma_take_edges_facts(a.0, incoming[i]@, false, seed, seeds, existing, a.1, max);
        lemma_take_edges_count(nb, outgoing[i]@, true, seed, seeds, existing, 0, max);
        lemma_take_edges_count(a.0, incoming[i]@, false, seed, seeds, existing, a.1, max);
        lemma_expand_facts(b.0, seeds, outgoing, incoming, existing, max, i + 1);
        assert(r == expand_from(b.0, seeds, outgoing, incoming, existing, max, i + 1));
        // prefixes compose
        assert(b.0.take(nb.len() as int) == b.0.take(a.0.len() as int).take(nb.len() as int));
        assert(r.take(nb.len() as int) == r.take(b.0.len() as int).take(nb.len() as int));
        assert(count_via(b.0, seed) == count_via(nb, seed) + b.1);
        lemma_count_via_prefix(r, b.0.len() as int, seed);
        assert forall|j: int|
            i <= j < seeds.len() && count_via(r, #[trigger] seeds[j]@) < max implies all_followed(
                r,
                outgoing[j]@,
                true,
                seeds,
                existing,
            ) && all_followed(r, incoming[j]@, false, seeds, existing) by {
            if j == i {
                assert(b.1 < max);
                assert forall|k: int|
                    0 <= k < outgoing[i]@.len() && followable(#[trigger] outgoing[i]@[k], true, seeds, existing)
                        implies has_neighbor(r, other_end(outgoing[i]@[k], true)) by {
                    assert(has_neighbor(a.0, other_end(outgoing[i]@[k], true)));
                    lemma_neighbor_persists(a.0, b.0, other_end(outgoing[i]@[k], true));
                    lemma_neighbor_persists(b.0, r, other_end(outgoing[i]@[k], true));
                }
                assert forall|k: int|
                    0 <= k < incoming[i]@.len() && followable(#[trigger] incoming[i]@[k], false, seeds, existing)
                        implies has_neighbor(r, other_end(incoming[i]@[k], false)) by {
                    assert(has_neighbor(b.0, other_end(incoming[i]@[k], false)));
                    lemma_neighbor_persists(b.0, r, other_end(incoming[i]@[k], false));
                }
            }
        }
        assert forall|s: Seq<char>|
            (forall|j: int| i <= j < seeds.len() ==> #[trigger] seeds[j]@ != s) implies #[trigger] count_via(r, s)
                == count_via(nb, s) by {
            assert(seeds[i]@ != s);
            assert(count_via(a.0, s) == count_via(nb, s));
            assert(count_via(b.0, s) == count_via(a.0, s));
            assert forall|j: int| i + 1 <= j < seeds.len() implies #[trigger] seeds[j]@ != s by {
                assert(seeds[j]@ != s);
            }
        }
        assert forall|j: int|
            i <= j < seeds.len() && (forall|a2: int, b2: int|
                i <= a2 < b2 < seeds.len() ==> seeds[a2]@ != seeds[b2]@) implies count_via(r, #[trigger] seeds[j]@)
                <= count_via(nb, seeds[j]@) + max by {
            if j == i {
                assert forall|j2: int| i + 1 <= j2 < seeds.len() implies #[trigger] seeds[j2]@ != seed by {
                    assert(seeds[i]@ != seeds[j2]@);
                }
                assert(count_via(r, seed) == count_via(b.0, seed));
            } else {
                assert(seeds[i]@ != seeds[j]@);
                assert(count_via(a.0, seeds[j]@) == count_via(nb, seeds[j]@));
                assert(count_via(b.0, seeds[j]@) == count_via(a.0, seeds[j]@));
                assert forall|a2: int, b2: int| i + 1 <= a2 < b2 < seeds.len() implies seeds[a2]@ != seeds[b2]@ by {
                }
            }
        }
    }
}

/// The neighbor cap applies to each seed on its own: a seed from which
/// fewer than `max` neighbors were reached had every useful edge to an
/// existing non-seed entity, outgoing and incoming, followed (its other end
/// is a neighbor, reached from this seed or an earlier one), whatever the
/// other seeds took; and when the seeds are distinct, no seed reaches more
/// than `max` neighbors.
pub proof fn lemma_expand_cap_is_per_seed(
    seeds: Seq<String>,
    outgoing: Seq<Vec<Edge>>,
    incoming: Seq<Vec<Edge>>,
    existing: Seq<String>,
    max: nat,
)
    requires
        outgoing.len() == seeds.len(),
        incoming.len() == seeds.len(),
    ensures
        ({
            let r = expand_from(seq![], seeds, outgoing, incoming, existing, max, 0);
            &&& forall|i: int, k: int|
                0 <= i < seeds.len() && count_via(r, seeds[i]@) < max && 0 <= k < outgoing[i]@.len()
                    && is_useful_edge(#[trigger] outgoing[i]@[k].rel) && !has_id(seeds, outgoing[i]@[k].dst_id@)
                    && has_id(existing, outgoing[i]@[k].dst_id@) ==> has_neighbor(r, outgoing[i]@[k].dst_id@)
            &&& forall|i: int, k: int|
                0 <= i < seeds.len() && count_via(r, seeds[i]@) < max && 0 <= k < incoming[i]@.len()
                    && is_useful_edge(#[trigger] incoming[i]@[k].rel) && !has_id(seeds, incoming[i]@[k].src_id@)
                    && has_id(existing, incoming[i]@[k].src_id@) ==> has_neighbor(r, incoming[i]@[k].src_id@)
            &&& (forall|a: int, b: int| 0 <= a < b < seeds.len() ==> seeds[a]@ != seeds[b]@) ==> forall|i: int|
                0 <= i < seeds.len() ==> #[trigger] count_via(r, seeds[i]@) <= max
        }),
{
    let r = expand_from(seq![], seeds, outgoing, incoming, existing, max, 0);
    lemma_expand_facts(seq![], seeds, outgoing, incoming, existing, max, 0);
    assert forall|i: int, k: int|
        0 <= i < seeds.len() && count_via(r, seeds[i]@) < max && 0 <= k < outgoing[i]@.len()
            && is_useful_edge(#[trigger] outgoing[i]@[k].rel) && !has_id(seeds, outgoing[i]@[k].dst_id@)
            && has_id(existing, outgoing[i]@[k].dst_id@) implies has_neighbor(r, outgoing[i]@[k].dst_id@) by {
        assert(all_followed(r, outgoing[i]@, true, seeds, existing));
        assert(followable(outgoing[i]@[k], true, seeds, existing));
    }
    assert forall|i: int, k: int|
        0 <= i < seeds.len() && count_via(r, seeds[i]@) < max && 0 <= k < incoming[i]@.len()
            && is_useful_edge(#[trigger] incoming[i]@[k].rel) && !has_id(seeds, incoming[i]@[k].src_id@)
            && has_id(existing, incoming[i]@[k].src_id@) implies has_neighbor(r, incoming[i]@[k].src_id@) by {
        assert(all_followed(r, incoming[i]@, false, seeds, existing));
        assert(followable(incoming[i]@[k], false, seeds, existing));
    }
    if forall|a: int, b: int| 0 <= a < b < seeds.len() ==> seeds[a]@ != seeds[b]@ {
        assert forall|i: int| 0 <= i < seeds.len() implies #[trigger] count_via(r, seeds[i]@) <= max by {
            assert(count_via(Seq::<(Seq<char>, Seq<char>)>::empty(), seeds[i]@) == 0);
        }
    }
}

} // verus!
