//! The rows of a layered diagram: each node's breadth-first level from the
//! nodes that nothing points to.

use vstd::prelude::*;

verus! {

/// Some edge points to node `v`.
pub open spec fn has_incoming(edges: Seq<(usize, usize)>, v: int) -> bool {
    exists|k: int| 0 <= k < edges.len() && edges[k].1 == v
}

/// Every node has an incoming edge.
pub open spec fn no_roots(n: nat, edges: Seq<(usize, usize)>) -> bool {
    forall|u: int| 0 <= u < n ==> has_incoming(edges, u)
}

/// Where the layering starts: the nodes without incoming edges, or node 0
/// when every node has one.
pub open spec fn is_start(n: nat, edges: Seq<(usize, usize)>, v: int) -> bool {
    &&& 0 <= v < n
    &&& !has_incoming(edges, v) || (no_roots(n, edges) && v == 0)
}

/// Node `v` is reached from a start node in at most `d` steps along edges.
pub open spec fn reach(n: nat, edges: Seq<(usize, usize)>, d: nat, v: int) -> bool
    decreases d,
{
    if d == 0 {
        is_start(n, edges, v)
    } else {
        ||| reach(n, edges, (d - 1) as nat, v)
        ||| exists|k: int|
            0 <= k < edges.len() && edges[k].1 == v && reach(n, edges, (d - 1) as nat, #[trigger] edges[k].0 as int)
    }
}

/// `l` is the least number of steps in which `v` is reached.
pub open spec fn is_level(n: nat, edges: Seq<(usize, usize)>, v: int, l: nat) -> bool {
    &&& reach(n, edges, l, v)
    &&& forall|e: nat| e < l ==> !reach(n, edges, e, v)
}

/// Nodes reached in fewer steps are reached in more.
pub proof fn lemma_reach_monotone(n: nat, edges: Seq<(usize, usize)>, a: nat, b: nat, v: int)
    requires
        a <= b,
        reach(n, edges, a, v),
    ensures
        reach(n, edges, b, v),
    decreases b - a,
{
    if a < b {
        lemma_reach_monotone(n, edges, a, (b - 1) as nat, v);
    }
}

/// Once a step reaches nothing new, no later step does.
proof fn lemma_reach_stable(n: nat, edges: Seq<(usize, usize)>, d: nat, e: nat)
    requires
        forall|v: int| reach(n, edges, d + 1, v) ==> reach(n, edges, d, v),
        d <= e,
    ensures
        forall|v: int| reach(n, edges, e, v) ==> reach(n, edges, d, v),
    decreases e - d,
{
    if d < e {
        lemma_reach_stable(n, edges, d, (e - 1) as nat);
        assert forall|v: int| reach(n, edges, e, v) implies reach(n, edges, d, v) by {
            if !reach(n, edges, (e - 1) as nat, v) {
                let k = choose|k: int|
                    0 <= k < edges.len() && edges[k].1 == v && reach(n, edges, (e - 1) as nat, #[trigger] edges[k].0 as int);
                assert(reach(n, edges, d, edges[k].0 as int));
                assert(reach(n, edges, d + 1, v));
            }
        }
    }
}

/// How many nodes have a level so far.
pub open spec fn found_count(lv: Seq<Option<usize>>) -> nat
    decreases lv.len(),
{
    if lv.len() == 0 {
        0
    } else {
        found_count(lv.drop_last()) + (if lv.last() is Some {
            1nat
        } else {
            0nat
        })
    }
}

proof fn lemma_found_count_le(lv: Seq<Option<usize>>)
    ensures
        found_count(lv) <= lv.len(),
    decreases lv.len(),
{
    if lv.len() > 0 {
        lemma_found_count_le(lv.drop_last());
    }
}

proof fn lemma_found_count_set(lv: Seq<Option<usize>>, i: int, x: usize)
    requires
        0 <= i < lv.len(),
        lv[i] is None,
    ensures
        found_count(lv.update(i, Some(x))) == found_count(lv) + 1,
    decreases lv.len(),
{
    let u = lv.update(i, Some(x));
    if i == lv.len() - 1 {
        assert(u.drop_last() =~= lv.drop_last());
    } else {
        lemma_found_count_set(lv.drop_last(), i, x);
        assert(u.drop_last() =~= lv.drop_last().update(i, Some(x)));
    }
}

proof fn lemma_found_count_positive(lv: Seq<Option<usize>>, i: int)
    requires
        0 <= i < lv.len(),
        lv[i] is Some,
    ensures
        found_count(lv) >= 1,
    decreases lv.len(),
{
    if i < lv.len() - 1 {
        lemma_found_count_positive(lv.drop_last(), i);
    }
}

/// Whether some edge points to each node.
fn incoming_flags(n: usize, edges: &Vec<(usize, usize)>) -> (res: Vec<bool>)
    requires
        forall|k: int| 0 <= k < edges@.len() ==> (#[trigger] edges@[k]).1 < n,
    ensures
        res@.len() == n,
        forall|v: int| 0 <= v < n ==> res@[v] == has_incoming(edges@, v),
{
    let mut inc: Vec<bool> = Vec::new();
    let mut v: usize = 0;
    while v < n
        invariant
            v <= n,
            inc@.len() == v,
            forall|u: int| 0 <= u < v ==> !inc@[u],
        decreases n - v,
    {
        inc.push(false);
        v += 1;
    }
    let mut k: usize = 0;
    while k < edges.len()
        invariant
            k <= edges@.len(),
            inc@.len() == n,
            forall|j: int| 0 <= j < edges@.len() ==> (#[trigger] edges@[j]).1 < n,
            forall|u: int|
                0 <= u < n ==> inc@[u] == exists|j: int| 0 <= j < k && (#[trigger] edges@[j]).1 == u,
        decreases edges.len() - k,
    {
        let t = edges[k].1;
        inc.set(t, true);
        assert forall|u: int| 0 <= u < n implies inc@[u] == exists|j: int|
            0 <= j < k + 1 && (#[trigger] edges@[j]).1 == u by {
            if u == t as int {
                assert(edges@[k as int].1 == u);
            } else {
                if exists|j: int| 0 <= j < k + 1 && (#[trigger] edges@[j]).1 == u {
                    let j = choose|j: int| 0 <= j < k + 1 && (#[trigger] edges@[j]).1 == u;
                    assert(j < k);
                }
            }
        }
        k += 1;
    }
    inc
}

/// The start levels: 0 for each start node, nothing for the others.
fn start_levels(n: usize, edges: &Vec<(usize, usize)>) -> (res: Vec<Option<usize>>)
    requires
        forall|k: int| 0 <= k < edges@.len() ==> (#[trigger] edges@[k]).1 < n,
    ensures
        res@.len() == n,
        forall|v: int| 0 <= v < n ==> (res@[v] is Some <==> is_start(n as nat, edges@, v)),
        forall|v: int| 0 <= v < n && res@[v] is Some ==> res@[v] == Some(0usize),
{
    let inc = incoming_flags(n, edges);
    let mut lv: Vec<Option<usize>> = Vec::new();
    let mut any_root = false;
    let mut v: usize = 0;
    while v < n
        invariant
            v <= n,
            inc@.len() == n,
            forall|u: int| 0 <= u < n ==> inc@[u] == has_incoming(edges@, u),
            lv@.len() == v,
            forall|u: int| 0 <= u < v ==> (lv@[u] is Some <==> !has_incoming(edges@, u)),
            forall|u: int| 0 <= u < v && lv@[u] is Some ==> lv@[u] == Some(0usize),
            any_root == exists|u: int| 0 <= u < v && !has_incoming(edges@, u),
        decreases n - v,
    {
        if inc[v] {
            lv.push(None);
        } else {
            lv.push(Some(0));
        }
        proof {
            if !any_root && !inc@[v as int] {
                assert(!has_incoming(edges@, v as int));
            }
            if any_root {
                let u = choose|u: int| 0 <= u < v && !has_incoming(edges@, u);
                assert(0 <= u < v + 1 && !has_incoming(edges@, u));
            }
            if exists|u: int| 0 <= u < v + 1 && !has_incoming(edges@, u) {
                let u = choose|u: int| 0 <= u < v + 1 && !has_incoming(edges@, u);
                if u < v {
                    assert(any_root);
                }
            }
        }
        any_root = any_root || !inc[v];
        v += 1;
    }
    if !any_root && n > 0 {
        lv.set(0, Some(0));
        assert(no_roots(n as nat, edges@));
    }
    proof {
        if any_root {
            let u = choose|u: int| 0 <= u < n && !has_incoming(edges@, u);
            assert(!no_roots(n as nat, edges@));
        }
    }
    lv
}

/// One round: every node without a level that an edge from a node of level
/// `d` points to gets level `d + 1`. Returns whether any did.
fn next_round(n: usize, edges: &Vec<(usize, usize)>, lv: &mut Vec<Option<usize>>, d: usize) -> (changed: bool)
    requires
        d + 1 < usize::MAX,
        old(lv)@.len() == n,
        forall|k: int| 0 <= k < edges@.len() ==> (#[trigger] edges@[k]).0 < n && edges@[k].1 < n,
        forall|v: int| 0 <= v < n && old(lv)@[v] is Some ==> old(lv)@[v]->0 <= d,
    ensures
        final(lv)@.len() == n,
        forall|v: int| 0 <= v < n && old(lv)@[v] is Some ==> final(lv)@[v] == old(lv)@[v],
        forall|v: int|
            0 <= v < n && old(lv)@[v] is None && final(lv)@[v] is Some ==> {
                &&& final(lv)@[v] == Some((d + 1) as usize)
                &&& exists|k: int|
                    0 <= k < edges@.len() && edges@[k].1 == v && old(lv)@[#[trigger] edges@[k].0 as int] == Some(d)
            },
        forall|k: int|
            0 <= k < edges@.len() && old(lv)@[#[trigger] edges@[k].0 as int] == Some(d) ==> final(lv)@[edges@[k].1 as int] is Some,
        changed ==> found_count(final(lv)@) > found_count(old(lv)@),
        !changed ==> final(lv)@ == old(lv)@,
{
    let ghost lv0 = lv@;
    let mut changed = false;
    let mut k: usize = 0;
    while k < edges.len()
        invariant
            d + 1 < usize::MAX,
            lv0.len() == n,
            lv@.len() == n,
            k <= edges@.len(),
            forall|j: int| 0 <= j < edges@.len() ==> (#[trigger] edges@[j]).0 < n && edges@[j].1 < n,
            forall|v: int| 0 <= v < n && lv0[v] is Some ==> lv0[v]->0 <= d,
            forall|v: int| 0 <= v < n && lv0[v] is Some ==> lv@[v] == lv0[v],
            forall|v: int|
                0 <= v < n && lv0[v] is None && lv@[v] is Some ==> {
                    &&& lv@[v] == Some((d + 1) as usize)
                    &&& exists|j: int|
                        0 <= j < edges@.len() && edges@[j].1 == v && lv0[#[trigger] edges@[j].0 as int] == Some(d)
                },
            forall|j: int|
                0 <= j < k && lv0[#[trigger] edges@[j].0 as int] == Some(d) ==> lv@[edges@[j].1 as int] is Some,
            changed ==> found_count(lv@) > found_count(lv0),
            !changed ==> lv@ == lv0,
        decreases edges.len() - k,
    {
        let (a, b) = edges[k];
        let la = lv[a];
        let from_frontier = match la {
            Some(l) => l == d,
            None => false,
        };
        proof {
            if lv0[a as int] == Some(d) {
                assert(lv@[a as int] == lv0[a as int]);
            }
            if from_frontier && lv0[a as int] is None {
                assert(lv@[a as int] == Some((d + 1) as usize));
                assert(false);
            }
        }
        if from_frontier && lv[b].is_none() {
            let ghost before = lv@;
            lv.set(b, Some(d + 1));
            proof {
                lemma_found_count_set(before, b as int, (d + 1) as usize);
                assert(lv0[a as int] == Some(d));
                assert(edges@[k as int].1 == b as int);
                assert forall|v: int|
                    0 <= v < n && lv0[v] is None && lv@[v] is Some implies {
                        &&& lv@[v] == Some((d + 1) as usize)
                        &&& exists|j: int|
                            0 <= j < edges@.len() && edges@[j].1 == v && lv0[#[trigger] edges@[j].0 as int] == Some(d)
                    } by {
                    if v == b as int {
                        assert(edges@[k as int].1 == v && lv0[edges@[k as int].0 as int] == Some(d));
                    } else {
                        assert(lv@[v] == before[v]);
                    }
                }
                if !changed {
                    assert(before == lv0);
                }
            }
            changed = true;
        }
        proof {
            assert forall|j: int|
                0 <= j < k + 1 && lv0[#[trigger] edges@[j].0 as int] == Some(d) implies lv@[edges@[j].1 as int] is Some by {
                if j == k as int {
                    assert(edges@[j].0 == a && edges@[j].1 == b);
                    assert(lv@[a as int] == Some(d));
                }
            }
        }
        k += 1;
    }
    changed
}

/// Each node's level: the least number of steps along edges from a start
/// node (a node without incoming edges, or node 0 when there is none) to
/// it, and 0 for nodes that are not reached at all. Edges are pairs of node
/// positions.
pub fn layout_levels(n: usize, edges: &Vec<(usize, usize)>) -> (res: Vec<usize>)
    requires
        n < usize::MAX,
        forall|k: int| 0 <= k < edges@.len() ==> (#[trigger] edges@[k]).0 < n && edges@[k].1 < n,
    ensures
        res@.len() == n,
        forall|v: int|
            0 <= v < n ==> if exists|d: nat| reach(n as nat, edges@, d, v) {
                is_level(n as nat, edges@, v, res@[v] as nat)
            } else {
                res@[v] == 0
            },
{
    let mut lv = start_levels(n, edges);
    let mut d: usize = 0;
    let mut changed = n > 0;
    proof {
        lemma_found_count_le(lv@);
        if n > 0 {
            if no_roots(n as nat, edges@) {
                assert(is_start(n as nat, edges@, 0));
                lemma_found_count_positive(lv@, 0);
            } else {
                let u = choose|u: int| 0 <= u < n && !has_incoming(edges@, u);
                assert(is_start(n as nat, edges@, u));
                lemma_found_count_positive(lv@, u);
            }
        }
        assert forall|v: int| 0 <= v < n && lv@[v] is Some implies is_level(n as nat, edges@, v, 0) by {
            assert(reach(n as nat, edges@, 0, v));
        }
        if n == 0 {
            assert(edges@.len() == 0) by {
                if edges@.len() > 0 {
                    assert(edges@[0].0 < n);
                }
            }
            assert forall|v: int| reach(n as nat, edges@, 1, v) implies reach(n as nat, edges@, 0, v) by {
                assert(!reach(n as nat, edges@, 0, v));
            }
        }
    }
    while changed
        invariant
            n < usize::MAX,
            lv@.len() == n,
            forall|k: int| 0 <= k < edges@.len() ==> (#[trigger] edges@[k]).0 < n && edges@[k].1 < n,
            n > 0 ==> d + 1 <= found_count(lv@),
            changed ==> n > 0,
            found_count(lv@) <= n,
            forall|v: int|
                0 <= v < n && lv@[v] is Some ==> lv@[v]->0 <= d && is_level(n as nat, edges@, v, lv@[v]->0 as nat),
            forall|v: int| 0 <= v < n && reach(n as nat, edges@, d as nat, v) ==> lv@[v] is Some,
            forall|k: int|
                0 <= k < edges@.len() && (#[trigger] lv@[edges@[k].0 as int]) is Some && lv@[edges@[k].0 as int]->0 < d
                    ==> lv@[edges@[k].1 as int] is Some,
            !changed ==> forall|v: int| reach(n as nat, edges@, (d + 1) as nat, v) ==> reach(n as nat, edges@, d as nat, v),
        decreases n - found_count(lv@) + (if changed {
            1int
        } else {
            0int
        }),
    {
        let ghost lv0 = lv@;
        proof {
            lemma_found_count_le(lv@);
        }
        let grew = next_round(n, edges, &mut lv, d);
        proof {
            lemma_found_count_le(lv@);
        }
        if grew {
            proof {
                // levels of the newly reached nodes are exact
                assert forall|v: int|
                    0 <= v < n && lv@[v] is Some implies lv@[v]->0 <= d + 1 && is_level(
                    n as nat,
                    edges@,
                    v,
                    lv@[v]->0 as nat,
                ) by {
                    if lv0[v] is None {
                        let k = choose|k: int|
                            0 <= k < edges@.len() && edges@[k].1 == v && lv0[#[trigger] edges@[k].0 as int] == Some(d);
                        let a = edges@[k].0 as int;
                        assert(is_level(n as nat, edges@, a, d as nat));
                        assert(reach(n as nat, edges@, (d + 1) as nat, v));
                        assert forall|e: nat| e < d + 1 implies !reach(n as nat, edges@, e, v) by {
                            if reach(n as nat, edges@, e, v) {
                                lemma_reach_monotone(n as nat, edges@, e, d as nat, v);
                            }
                        }
                    }
                }
                // everything reached in d + 1 steps has a level
                assert forall|v: int| 0 <= v < n && reach(n as nat, edges@, (d + 1) as nat, v) implies lv@[v] is Some by {
                    if !reach(n as nat, edges@, d as nat, v) {
                        let k = choose|k: int|
                            0 <= k < edges@.len() && edges@[k].1 == v && reach(n as nat, edges@, d as nat, #[trigger] edges@[k].0 as int);
                        let a = edges@[k].0 as int;
                        assert(lv0[a] is Some);
                        if lv0[a]->0 < d {
                            assert(lv0[edges@[k].1 as int] is Some);
                        } else {
                            assert(lv0[a] == Some(d));
                        }
                    }
                }
                assert forall|k: int|
                    0 <= k < edges@.len() && (#[trigger] lv@[edges@[k].0 as int]) is Some && lv@[edges@[k].0 as int]->0 < d + 1
                        implies lv@[edges@[k].1 as int] is Some by {
                    let a = edges@[k].0 as int;
                    if lv0[a] is Some {
                        assert(lv@[a] == lv0[a]);
                        if lv0[a]->0 < d {
                            assert(lv0[edges@[k].1 as int] is Some);
                        } else {
                            assert(lv0[a] == Some(d));
                        }
                    } else {
                        assert(lv@[a] == Some((d + 1) as usize));
                    }
                }
            }
            d = d + 1;
        } else {
            proof {
                assert forall|v: int| reach(n as nat, edges@, (d + 1) as nat, v) implies reach(n as nat, edges@, d as nat, v) by {
                    if !reach(n as nat, edges@, d as nat, v) {
                        let k = choose|k: int|
                            0 <= k < edges@.len() && edges@[k].1 == v && reach(n as nat, edges@, d as nat, #[trigger] edges@[k].0 as int);
                        let a = edges@[k].0 as int;
                        assert(lv0[a] is Some);
                        assert(lv0[edges@[k].1 as int] is Some);
                        assert(is_level(n as nat, edges@, v, lv0[v]->0 as nat));
                        lemma_reach_monotone(n as nat, edges@, lv0[v]->0 as nat, d as nat, v);
                    }
                }
            }
        }
        changed = grew;
    }
    // reached nodes have their levels; the others are never reached
    proof {
        if n > 0 {
            assert forall|v: int| 0 <= v < n && lv@[v] is None implies !exists|e: nat| reach(n as nat, edges@, e, v) by {
                if exists|e: nat| reach(n as nat, edges@, e, v) {
                    let e = choose|e: nat| reach(n as nat, edges@, e, v);
                    if e <= d {
                        lemma_reach_monotone(n as nat, edges@, e, d as nat, v);
                    } else {
                        lemma_reach_stable(n as nat, edges@, d as nat, e);
                    }
                }
            }
        }
    }
    let mut res: Vec<usize> = Vec::new();
    let mut v: usize = 0;
    while v < n
        invariant
            v <= n,
            lv@.len() == n,
            res@.len() == v,
            forall|u: int| 0 <= u < v ==> res@[u] == match lv@[u] {
                Some(l) => l,
                None => 0usize,
            },
        decreases n - v,
    {
        let l = match lv[v] {
            Some(l) => l,
            None => 0,
        };
        res.push(l);
        v += 1;
    }
    proof {
        assert forall|u: int|
            0 <= u < n implies if exists|e: nat| reach(n as nat, edges@, e, u) {
                is_level(n as nat, edges@, u, res@[u] as nat)
            } else {
                res@[u] == 0
            } by {
            if lv@[u] is Some {
                assert(reach(n as nat, edges@, lv@[u]->0 as nat, u));
            }
        }
    }
    res
}

} // verus!
