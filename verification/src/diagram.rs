//! Which entities and edges a diagram of the graph shows: a selection by
//! kind, the edges among the selected entities, or a bounded breadth-first
//! walk from one entity.

use vstd::prelude::*;
use crate::model::edge::Edge;
use crate::model::entity::{Entity, EntityKind};
use crate::paths::{contains_string, string_views};
use crate::text::{lowercase, owned, to_lowercase};

verus! {

/// The name of a kind as diagrams compare it: its variant name in lower
/// case, without separators.
pub open spec fn kind_label(k: EntityKind) -> Seq<char> {
    match k {
        EntityKind::Repo => "repo"@,
        EntityKind::Directory => "directory"@,
        EntityKind::Component => "component"@,
        EntityKind::SourceUnit => "sourceunit"@,
        EntityKind::Symbol => "symbol"@,
        EntityKind::Doc => "doc"@,
        EntityKind::Test => "test"@,
        EntityKind::Bench => "bench"@,
        EntityKind::Task => "task"@,
        EntityKind::Containerized => "containerized"@,
        EntityKind::InfraRoot => "infraroot"@,
        EntityKind::Command => "command"@,
        EntityKind::Feature => "feature"@,
        EntityKind::ContentPage => "contentpage"@,
        EntityKind::Template => "template"@,
        EntityKind::Site => "site"@,
        EntityKind::Migration => "migration"@,
        EntityKind::Spec => "spec"@,
        EntityKind::Workflow => "workflow"@,
        EntityKind::AgentConfig => "agentconfig"@,
    }
}

/// The label of a kind (see `kind_label`).
pub fn kind_label_of(k: &EntityKind) -> (res: &'static str)
    ensures
        res@ == kind_label(*k),
{
    match k {
        EntityKind::Repo => "repo",
        EntityKind::Directory => "directory",
        EntityKind::Component => "component",
        EntityKind::SourceUnit => "sourceunit",
        EntityKind::Symbol => "symbol",
        EntityKind::Doc => "doc",
        EntityKind::Test => "test",
        EntityKind::Bench => "bench",
        EntityKind::Task => "task",
        EntityKind::Containerized => "containerized",
        EntityKind::InfraRoot => "infraroot",
        EntityKind::Command => "command",
        EntityKind::Feature => "feature",
        EntityKind::ContentPage => "contentpage",
        EntityKind::Template => "template",
        EntityKind::Site => "site",
        EntityKind::Migration => "migration",
        EntityKind::Spec => "spec",
        EntityKind::Workflow => "workflow",
        EntityKind::AgentConfig => "agentconfig",
    }
}

/// The kinds a diagram shows when none are asked for.
pub open spec fn default_kind_names() -> Seq<Seq<char>> {
    seq!["repo"@, "directory"@, "component"@, "sourceunit"@]
}

/// The kinds a diagram shows when none are asked for (see
/// `default_kind_names`).
pub fn default_diagram_kinds() -> (res: Vec<String>)
    ensures
        string_views(res@) == default_kind_names(),
{
    let mut v: Vec<String> = Vec::new();
    v.push(owned("repo"));
    v.push(owned("directory"));
    v.push(owned("component"));
    v.push(owned("sourceunit"));
    assert(string_views(v@) =~= default_kind_names());
    v
}

/// One of the names, in lower case, is the label of the kind.
pub open spec fn names_kind(names: Seq<Seq<char>>, k: EntityKind) -> bool {
    exists|i: int| 0 <= i < names.len() && lowercase(#[trigger] names[i]) == kind_label(k)
}

/// An entity of this kind is shown: its kind is among those asked for (the
/// default kinds when none are) and not among those left out.
pub open spec fn kind_shown(k: EntityKind, kinds: Seq<Seq<char>>, left_out: Seq<Seq<char>>) -> bool {
    let wanted = if kinds.len() == 0 {
        default_kind_names()
    } else {
        kinds
    };
    names_kind(wanted, k) && !names_kind(left_out, k)
}

/// The positions of the entities whose kind is shown, in order.
pub open spec fn shown_positions(entities: Seq<Entity>, kinds: Seq<Seq<char>>, left_out: Seq<Seq<char>>) -> Seq<int>
    decreases entities.len(),
{
    if entities.len() == 0 {
        Seq::empty()
    } else {
        let init = shown_positions(entities.drop_last(), kinds, left_out);
        if kind_shown(entities.last().kind, kinds, left_out) {
            init.push(entities.len() - 1)
        } else {
            init
        }
    }
}

/// At most `max` of the positions, the first ones.
pub open spec fn at_most(s: Seq<int>, max: nat) -> Seq<int> {
    if s.len() > max {
        s.take(max as int)
    } else {
        s
    }
}

/// The names in lower case.
fn lowered(names: &Vec<String>) -> (res: Vec<String>)
    ensures
        res@.len() == names@.len(),
        forall|i: int| 0 <= i < names@.len() ==> (#[trigger] res@[i])@ == lowercase(names@[i]@),
{
    let mut res: Vec<String> = Vec::new();
    let mut i: usize = 0;
    while i < names.len()
        invariant
            i <= names@.len(),
            res@.len() == i,
            forall|j: int| 0 <= j < i ==> (#[trigger] res@[j])@ == lowercase(names@[j]@),
        decreases names.len() - i,
    {
        res.push(to_lowercase(names[i].as_str()));
        i += 1;
    }
    res
}

proof fn lemma_lowered_names_kind(names: Seq<Seq<char>>, low: Seq<String>, k: EntityKind)
    requires
        low.len() == names.len(),
        forall|i: int| 0 <= i < names.len() ==> (#[trigger] low[i])@ == lowercase(names[i]),
    ensures
        names_kind(names, k) == string_views(low).contains(kind_label(k)),
{
    if names_kind(names, k) {
        let i = choose|i: int| 0 <= i < names.len() && lowercase(#[trigger] names[i]) == kind_label(k);
        assert(string_views(low)[i] == low[i]@);
    }
    if string_views(low).contains(kind_label(k)) {
        let i = choose|i: int| 0 <= i < string_views(low).len() && string_views(low)[i] == kind_label(k);
        assert(low[i]@ == lowercase(names[i]));
    }
}

/// The positions of the entities that a diagram by kind shows: those whose
/// kind is shown (see `kind_shown`), in order, at most `max_nodes` of them.
pub fn select_diagram_entities(
    entities: &Vec<Entity>,
    kinds: &Vec<String>,
    left_out: &Vec<String>,
    max_nodes: usize,
) -> (res: Vec<usize>)
    ensures
        res@.map_values(|i: usize| i as int) == at_most(
            shown_positions(entities@, string_views(kinds@), string_views(left_out@)),
            max_nodes as nat,
        ),
{
    let ghost inc = string_views(kinds@);
    let ghost exc = string_views(left_out@);
    let wanted = if kinds.len() == 0 {
        default_diagram_kinds()
    } else {
        let mut copy: Vec<String> = Vec::new();
        let mut j: usize = 0;
        while j < kinds.len()
            invariant
                j <= kinds@.len(),
                string_views(copy@) == string_views(kinds@).take(j as int),
            decreases kinds.len() - j,
        {
            let ghost before = string_views(copy@);
            copy.push(owned(kinds[j].as_str()));
            assert(string_views(copy@) =~= before.push(kinds@[j as int]@));
            assert(string_views(kinds@).take(j + 1) =~= string_views(kinds@).take(j as int).push(kinds@[j as int]@));
            j += 1;
        }
        assert(string_views(kinds@).take(kinds@.len() as int) =~= string_views(kinds@));
        copy
    };
    let ghost wanted_names = string_views(wanted@);
    assert(wanted_names == if inc.len() == 0 {
        default_kind_names()
    } else {
        inc
    });
    let wanted_low = lowered(&wanted);
    let excluded_low = lowered(left_out);
    let mut res: Vec<usize> = Vec::new();
    let mut i: usize = 0;
    assert(entities@.take(0) == Seq::<Entity>::empty());
    while i < entities.len()
        invariant
            i <= entities@.len(),
            wanted_low@.len() == wanted_names.len(),
            forall|j: int| 0 <= j < wanted_names.len() ==> (#[trigger] wanted_low@[j])@ == lowercase(wanted_names[j]),
            excluded_low@.len() == exc.len(),
            forall|j: int| 0 <= j < exc.len() ==> (#[trigger] excluded_low@[j])@ == lowercase(exc[j]),
            wanted_names == if inc.len() == 0 {
                default_kind_names()
            } else {
                inc
            },
            inc == string_views(kinds@),
            exc == string_views(left_out@),
            res@.map_values(|i: usize| i as int) == at_most(
                shown_positions(entities@.take(i as int), inc, exc),
                max_nodes as nat,
            ),
        decreases entities.len() - i,
    {
        let ghost prefix = entities@.take(i as int);
        let ghost s = shown_positions(prefix, inc, exc);
        assert(entities@.take(i + 1).drop_last() == prefix);
        assert(entities@.take(i + 1).last() == entities@[i as int]);
        let label = kind_label_of(&entities[i].kind);
        proof {
            lemma_lowered_names_kind(wanted_names, wanted_low@, entities@[i as int].kind);
            lemma_lowered_names_kind(exc, excluded_low@, entities@[i as int].kind);
        }
        let shown = contains_string(&wanted_low, label) && !contains_string(&excluded_low, label);
        assert(shown == kind_shown(entities@[i as int].kind, inc, exc));
        if shown && res.len() < max_nodes {
            let ghost before = res@.map_values(|i: usize| i as int);
            res.push(i);
            assert(res@.map_values(|i: usize| i as int) =~= before.push(i as int));
            assert(s.len() <= max_nodes);
            assert(s.push(i as int).len() <= max_nodes);
        } else if shown {
            proof {
                assert(s.len() >= max_nodes);
                assert(s.push(i as int).take(max_nodes as int) =~= s.take(max_nodes as int));
                if s.len() == max_nodes {
                    assert(s.take(max_nodes as int) =~= s);
                }
            }
        }
        i += 1;
    }
    assert(entities@.take(entities@.len() as int) == entities@);
    res
}

/// The positions of the edges that end at one of the ids, in order.
pub open spec fn edges_into_ids(ids: Seq<Seq<char>>, edges: Seq<Edge>) -> Seq<int>
    decreases edges.len(),
{
    if edges.len() == 0 {
        Seq::empty()
    } else {
        let init = edges_into_ids(ids, edges.drop_last());
        if ids.contains(edges.last().dst_id@) {
            init.push(edges.len() - 1)
        } else {
            init
        }
    }
}

/// The positions of the edges that end at one of the ids (see
/// `edges_into_ids`): of the edges leaving the shown entities, those drawn.
pub fn edges_into(ids: &Vec<String>, edges: &Vec<Edge>) -> (res: Vec<usize>)
    ensures
        res@.map_values(|i: usize| i as int) == edges_into_ids(string_views(ids@), edges@),
{
    let mut res: Vec<usize> = Vec::new();
    let mut i: usize = 0;
    assert(edges@.take(0) == Seq::<Edge>::empty());
    while i < edges.len()
        invariant
            i <= edges@.len(),
            res@.map_values(|i: usize| i as int) == edges_into_ids(string_views(ids@), edges@.take(i as int)),
        decreases edges.len() - i,
    {
        assert(edges@.take(i + 1).drop_last() == edges@.take(i as int));
        assert(edges@.take(i + 1).last() == edges@[i as int]);
        if contains_string(ids, edges[i].dst_id.as_str()) {
            let ghost before = res@.map_values(|i: usize| i as int);
            res.push(i);
            assert(res@.map_values(|i: usize| i as int) == before.push(i as int));
        }
        i += 1;
    }
    assert(edges@.take(edges@.len() as int) == edges@);
    res
}

/// The state of a walk, as values: the queue of ids with their depths, the
/// position of its head, the ids seen, and how many entities were found.
pub struct WalkView {
    pub queue: Seq<(Seq<char>, usize)>,
    pub head: int,
    pub seen: Seq<Seq<char>>,
    pub found: nat,
}

/// The queue, the ids seen and the positions taken after following the links
/// to `ids` from an entity at `depth`, in order, when `found` entities have
/// been found: while fewer than `max` entities were found, a link is taken
/// when its id was not seen yet; once `max` were found, none is.
pub open spec fn take_links(
    queue: Seq<(Seq<char>, usize)>,
    seen: Seq<Seq<char>>,
    ids: Seq<Seq<char>>,
    depth: usize,
    found: nat,
    max: nat,
) -> (Seq<(Seq<char>, usize)>, Seq<Seq<char>>, Seq<int>)
    decreases ids.len(),
{
    if ids.len() == 0 {
        (queue, seen, Seq::empty())
    } else {
        let (q, s, t) = take_links(queue, seen, ids.drop_last(), depth, found, max);
        let id = ids.last();
        if !s.contains(id) && found < max {
            (q.push((id, (depth + 1) as usize)), s.push(id), t.push(ids.len() - 1))
        } else {
            (q, s, t)
        }
    }
}

/// The first position from `head` on whose depth is at most `max_depth`, or
/// the queue's length when there is none.
pub open spec fn next_position(queue: Seq<(Seq<char>, usize)>, head: int, max_depth: usize) -> int
    decreases queue.len() - head,
{
    if head >= queue.len() || head < 0 {
        queue.len() as int
    } else if queue[head].1 <= max_depth {
        head
    } else {
        next_position(queue, head + 1, max_depth)
    }
}

proof fn lemma_next_position_range(queue: Seq<(Seq<char>, usize)>, head: int, max_depth: usize)
    requires
        0 <= head <= queue.len(),
    ensures
        head <= next_position(queue, head, max_depth) <= queue.len(),
        next_position(queue, head, max_depth) < queue.len() ==> queue[next_position(queue, head, max_depth)].1
            <= max_depth,
    decreases queue.len() - head,
{
    if head < queue.len() && queue[head].1 > max_depth {
        lemma_next_position_range(queue, head + 1, max_depth);
    }
}

/// A breadth-first walk of the graph from one entity, for a diagram: the
/// caller takes the next entry, looks the entity and its edges up, and
/// hands them back; the walk decides which links it follows.
pub struct DiagramWalk {
    queue: Vec<(String, usize)>,
    head: usize,
    seen: Vec<String>,
    found: usize,
}

impl View for DiagramWalk {
    type V = WalkView;

    closed spec fn view(&self) -> WalkView {
        WalkView {
            queue: self.queue@.map_values(|e: (String, usize)| (e.0@, e.1)),
            head: self.head as int,
            seen: string_views(self.seen@),
            found: self.found as nat,
        }
    }
}

impl DiagramWalk {
    /// The walk is consistent: its head is within its queue.
    pub closed spec fn wf(&self) -> bool {
        self.head <= self.queue@.len()
    }

    /// A walk from `root`: the root queued at depth 0 and seen, nothing
    /// found yet.
    pub fn new(root: &str) -> (res: Self)
        ensures
            res.wf(),
            res@.queue == seq![(root@, 0usize)],
            res@.head == 0,
            res@.seen == seq![root@],
            res@.found == 0,
    {
        let mut queue: Vec<(String, usize)> = Vec::new();
        queue.push((owned(root), 0));
        let mut seen: Vec<String> = Vec::new();
        seen.push(owned(root));
        let w = DiagramWalk { queue, head: 0, seen, found: 0 };
        assert(w@.queue =~= seq![(root@, 0usize)]);
        assert(w@.seen =~= seq![root@]);
        w
    }

    /// How many entities the walk has found.
    pub fn found(&self) -> (res: usize)
        ensures
            res == self@.found,
    {
        self.found
    }

    /// The next queued id whose depth is at most `max_depth`, with its depth;
    /// entries that are deeper are passed over. `None` when the queue is
    /// used up.
    pub fn next(&mut self, max_depth: usize) -> (res: Option<(String, usize)>)
        requires
            old(self).wf(),
        ensures
            final(self).wf(),
            final(self)@.queue == old(self)@.queue,
            final(self)@.seen == old(self)@.seen,
            final(self)@.found == old(self)@.found,
            final(self)@.head <= final(self)@.queue.len(),
            ({
                let p = next_position(old(self)@.queue, old(self)@.head, max_depth);
                if p < old(self)@.queue.len() {
                    &&& res matches Some(r) && r.0@ == old(self)@.queue[p].0 && r.1 == old(self)@.queue[p].1
                    &&& final(self)@.head == p + 1
                } else {
                    &&& res is None
                    &&& final(self)@.head == old(self)@.queue.len()
                }
            }),
    {
        let ghost q = self@.queue;
        let ghost h0 = self@.head;
        let ghost s0 = self@.seen;
        let ghost f0 = self@.found;
        proof {
            lemma_next_position_range(q, h0, max_depth);
        }
        while self.head < self.queue.len() && self.queue[self.head].1 > max_depth
            invariant
                self.head <= self.queue@.len(),
                self@.queue == q,
                self@.seen == s0,
                self@.found == f0,
                h0 <= self.head,
                next_position(q, self.head as int, max_depth) == next_position(q, h0, max_depth),
            decreases self.queue.len() - self.head,
        {
            self.head = self.head + 1;
        }
        if self.head < self.queue.len() {
            let depth = self.queue[self.head].1;
            let id = owned(self.queue[self.head].0.as_str());
            proof {
                assert(q[self.head as int] == (self.queue@[self.head as int].0@, self.queue@[self.head as int].1));
            }
            self.head = self.head + 1;
            Some((id, depth))
        } else {
            None
        }
    }

    fn follow(&mut self, ids: &Vec<String>, depth: usize, max_nodes: usize) -> (taken: Vec<usize>)
        requires
            old(self).wf(),
            depth < usize::MAX,
        ensures
            final(self).wf(),
            final(self)@.head == old(self)@.head,
            final(self)@.found == old(self)@.found,
            ({
                let (q, s, t) = take_links(
                    old(self)@.queue,
                    old(self)@.seen,
                    string_views(ids@),
                    depth,
                    old(self)@.found,
                    max_nodes as nat,
                );
                &&& final(self)@.queue == q
                &&& final(self)@.seen == s
                &&& taken@.map_values(|i: usize| i as int) == t
            }),
    {
        let ghost q0 = self@.queue;
        let ghost s0 = self@.seen;
        let ghost f0 = self@.found;
        let mut taken: Vec<usize> = Vec::new();
        let mut i: usize = 0;
        assert(string_views(ids@).take(0) =~= Seq::<Seq<char>>::empty());
        while i < ids.len()
            invariant
                i <= ids@.len(),
                depth < usize::MAX,
                self.wf(),
                self@.head == old(self)@.head,
                self@.found == f0,
                ({
                    let (q, s, t) = take_links(q0, s0, string_views(ids@).take(i as int), depth, f0, max_nodes as nat);
                    &&& self@.queue == q
                    &&& self@.seen == s
                    &&& taken@.map_values(|i: usize| i as int) == t
                }),
            decreases ids.len() - i,
        {
            let ghost pre = string_views(ids@).take(i as int);
            assert(string_views(ids@).take(i + 1).drop_last() =~= pre);
            assert(string_views(ids@).take(i + 1).last() == ids@[i as int]@);
            let id = ids[i].as_str();
            if !contains_string(&self.seen, id) && self.found < max_nodes {
                let ghost before_q = self@.queue;
                let ghost before_s = self@.seen;
                let ghost before_t = taken@.map_values(|i: usize| i as int);
                self.queue.push((owned(id), depth + 1));
                self.seen.push(owned(id));
                taken.push(i);
                assert(self@.queue =~= before_q.push((id@, (depth + 1) as usize)));
                assert(self@.seen =~= before_s.push(id@));
                assert(taken@.map_values(|i: usize| i as int) =~= before_t.push(i as int));
            }
            i += 1;
        }
        assert(string_views(ids@).take(ids@.len() as int) =~= string_views(ids@));
        taken
    }

    /// Records a visit to the entry last taken, at `depth`. The entity is
    /// recorded when it was found and fewer than `max_nodes` entities were
    /// found before; then it is counted, and the links to `targets` (its
    /// outgoing edges) and then to `sources` (its incoming edges) are
    /// followed: while, with it, fewer than `max_nodes` entities were found,
    /// each to an id not seen yet is queued one level deeper and seen.
    /// Returns whether the entity was recorded, and the positions of the
    /// outgoing and of the incoming edges followed; when it was not recorded
    /// nothing changes.
    pub fn visit(
        &mut self,
        depth: usize,
        entity_found: bool,
        targets: &Vec<String>,
        sources: &Vec<String>,
        max_nodes: usize,
    ) -> (res: (bool, Vec<usize>, Vec<usize>))
        requires
            old(self).wf(),
            depth < usize::MAX,
        ensures
            final(self).wf(),
            res.0 == (entity_found && old(self)@.found < max_nodes),
            final(self)@.found <= if old(self)@.found > max_nodes {
                old(self)@.found
            } else {
                max_nodes as nat
            },
            !res.0 ==> final(self)@ == old(self)@ && res.1@.len() == 0 && res.2@.len() == 0,
            res.0 ==> {
                let f = old(self)@.found + 1;
                let (q1, s1, t1) = take_links(
                    old(self)@.queue,
                    old(self)@.seen,
                    string_views(targets@),
                    depth,
                    f,
                    max_nodes as nat,
                );
                let (q2, s2, t2) = take_links(q1, s1, string_views(sources@), depth, f, max_nodes as nat);
                &&& final(self)@ == WalkView { queue: q2, head: old(self)@.head, seen: s2, found: f }
                &&& res.1@.map_values(|i: usize| i as int) == t1
                &&& res.2@.map_values(|i: usize| i as int) == t2
            },
    {
        if !entity_found || self.found >= max_nodes {
            return (false, Vec::new(), Vec::new());
        }
        self.found = self.found + 1;
        let out = self.follow(targets, depth, max_nodes);
        let inc = self.follow(sources, depth, max_nodes);
        (true, out, inc)
    }
}

} // verus!
