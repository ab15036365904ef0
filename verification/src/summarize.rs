//! The decisions of a summarisation run: which components and files are
//! summarised, which summaries are still current, and the run's report.

use vstd::prelude::*;
use crate::model::edge::{Edge, EdgeKind};
use crate::model::entity::{opt_view, Entity, EntityKind};
use crate::model::records::Summary;
use crate::numfmt::{decimal, usize_to_string};
use crate::text::{owned, push_str, str_eq};

verus! {

/// What a summarisation run did.
#[derive(Debug, Clone, Copy, PartialEq, Eq)]
pub struct SummarizeStats {
    pub source_units_summarized: usize,
    pub source_units_skipped: usize,
    pub components_summarized: usize,
    pub errors: usize,
}

/// The report of a summarisation run.
pub open spec fn summarize_stats_text(s: SummarizeStats) -> Seq<char> {
    "source_units: "@ + decimal(s.source_units_summarized as nat) + " summarized, "@ + decimal(
        s.source_units_skipped as nat,
    ) + " skipped\ncomponents: "@ + decimal(s.components_summarized as nat) + " summarized\nerrors: "@
        + decimal(s.errors as nat)
}

impl SummarizeStats {
    /// All counters at zero.
    pub fn new() -> (res: Self)
        ensures
            res.source_units_summarized == 0,
            res.source_units_skipped == 0,
            res.components_summarized == 0,
            res.errors == 0,
    {
        SummarizeStats { source_units_summarized: 0, source_units_skipped: 0, components_summarized: 0, errors: 0 }
    }

    /// The report of the run (see `summarize_stats_text`).
    pub fn to_string(&self) -> (res: String)
        ensures
            res@ == summarize_stats_text(*self),
    {
        let mut out = owned("source_units: ");
        let n = usize_to_string(self.source_units_summarized);
        push_str(&mut out, n.as_str());
        push_str(&mut out, " summarized, ");
        let n = usize_to_string(self.source_units_skipped);
        push_str(&mut out, n.as_str());
        push_str(&mut out, " skipped\ncomponents: ");
        let n = usize_to_string(self.components_summarized);
        push_str(&mut out, n.as_str());
        push_str(&mut out, " summarized\nerrors: ");
        let n = usize_to_string(self.errors);
        push_str(&mut out, n.as_str());
        out
    }
}

/// Which entities a summarisation run covers.
#[derive(Debug, Clone, PartialEq, Eq)]
pub struct SummarizeOptions {
    /// Only the entities of this component.
    pub component: Option<String>,
    /// Summarise again even what is current.
    pub force: bool,
    /// The workspace root that relative file paths are resolved from.
    pub workspace_root: Option<String>,
}

/// Whether the summary of a file is current: not forced, and the stored
/// summary was made from content with the same hash.
pub open spec fn summary_is_current_spec(force: bool, existing: Option<Summary>, current_hash: Option<Seq<char>>) -> bool {
    &&& !force
    &&& existing matches Some(s) && opt_view(s.source_hash) is Some && opt_view(s.source_hash) == current_hash
}

/// Whether a file's summary can be kept (see `summary_is_current_spec`).
pub fn summary_is_current(force: bool, existing: &Option<Summary>, current_hash: &Option<String>) -> (res: bool)
    ensures
        res == summary_is_current_spec(force, *existing, opt_view(*current_hash)),
{
    if force {
        return false;
    }
    match existing {
        Some(s) => match (&s.source_hash, current_hash) {
            (Some(a), Some(b)) => str_eq(a.as_str(), b.as_str()),
            _ => false,
        },
        None => false,
    }
}

/// The indices of the entities of a kind, in order.
pub open spec fn indices_of_kind(es: Seq<Entity>, kind: EntityKind) -> Seq<int>
    decreases es.len(),
{
    if es.len() == 0 {
        Seq::empty()
    } else {
        let init = indices_of_kind(es.drop_last(), kind);
        if es.last().kind == kind {
            init.push(es.len() - 1)
        } else {
            init
        }
    }
}

/// The indices of the entities of a kind (the components of a run, the
/// source units of a component), in order.
pub fn entities_of_kind(entities: &Vec<Entity>, kind: EntityKind) -> (res: Vec<usize>)
    ensures
        res@.map_values(|i: usize| i as int) == indices_of_kind(entities@, kind),
{
    let mut res: Vec<usize> = Vec::new();
    let mut i: usize = 0;
    assert(entities@.take(0) == Seq::<Entity>::empty());
    while i < entities.len()
        invariant
            i <= entities@.len(),
            res@.map_values(|i: usize| i as int) == indices_of_kind(entities@.take(i as int), kind),
        decreases entities.len() - i,
    {
        assert(entities@.take(i + 1).drop_last() == entities@.take(i as int));
        assert(entities@.take(i + 1).last() == entities@[i as int]);
        if entities[i].kind == kind {
            let ghost before = res@.map_values(|i: usize| i as int);
            res.push(i);
            assert(res@.map_values(|i: usize| i as int) == before.push(i as int));
        }
        i += 1;
    }
    assert(entities@.take(entities@.len() as int) == entities@);
    res
}

/// The targets of the edges of the given relations, in order: the symbols
/// a file defines or contains, the components one depends on.
pub open spec fn targets_by(edges: Seq<Edge>, a: EdgeKind, b: EdgeKind) -> Seq<Seq<char>>
    decreases edges.len(),
{
    if edges.len() == 0 {
        Seq::empty()
    } else {
        let init = targets_by(edges.drop_last(), a, b);
        let e = edges.last();
        if e.rel == a || e.rel == b {
            init.push(e.dst_id@)
        } else {
            init
        }
    }
}

/// The targets of the edges of relation `a` or `b`, in order (see
/// `targets_by`).
pub fn edge_targets(edges: &Vec<Edge>, a: EdgeKind, b: EdgeKind) -> (res: Vec<String>)
    ensures
        crate::paths::string_views(res@) == targets_by(edges@, a, b),
{
    let mut res: Vec<String> = Vec::new();
    let mut i: usize = 0;
    assert(edges@.take(0) == Seq::<Edge>::empty());
    while i < edges.len()
        invariant
            i <= edges@.len(),
            crate::paths::string_views(res@) == targets_by(edges@.take(i as int), a, b),
        decreases edges.len() - i,
    {
        assert(edges@.take(i + 1).drop_last() == edges@.take(i as int));
        assert(edges@.take(i + 1).last() == edges@[i as int]);
        let e = &edges[i];
        if e.rel == a || e.rel == b {
            let ghost before = crate::paths::string_views(res@);
            res.push(owned(e.dst_id.as_str()));
            assert(crate::paths::string_views(res@) == before.push(e.dst_id@));
        }
        i += 1;
    }
    assert(edges@.take(edges@.len() as int) == edges@);
    res
}

/// Attempts of a chat request after the first, at most.
pub const MAX_RETRIES: u32 = 3;

/// Seconds waited before the second attempt; later waits grow linearly.
pub const BASE_BACKOFF_SECS: u64 = 2;

/// What the chat client does after an attempt that got an HTTP status.
#[derive(Debug, Clone, Copy, PartialEq, Eq, Structural)]
pub enum ChatStep {
    /// The response is read.
    Done,
    /// The request is sent again, after a wait.
    Retry,
    /// The request fails with this status.
    Fail,
}

/// Success on 200; rate limits (429) and server errors (5xx) are retried
/// until the retries run out; any other status fails at once.
pub open spec fn chat_step_spec(attempt: u32, status: u16) -> ChatStep {
    if status == 200 {
        ChatStep::Done
    } else if status == 429 || status >= 500 {
        if attempt < MAX_RETRIES {
            ChatStep::Retry
        } else {
            ChatStep::Fail
        }
    } else {
        ChatStep::Fail
    }
}

/// What the chat client does after attempt `attempt` (counted from 0) got
/// `status` (see `chat_step_spec`). A request is thus sent at most
/// `MAX_RETRIES + 1` times.
pub fn chat_step(attempt: u32, status: u16) -> (res: ChatStep)
    ensures
        res == chat_step_spec(attempt, status),
        res == ChatStep::Retry ==> attempt < MAX_RETRIES,
{
    if status == 200 {
        ChatStep::Done
    } else if status == 429 || status >= 500 {
        if attempt < MAX_RETRIES {
            ChatStep::Retry
        } else {
            ChatStep::Fail
        }
    } else {
        ChatStep::Fail
    }
}

/// The seconds waited before attempt `attempt`.
pub fn backoff_secs(attempt: u32) -> (res: u64)
    requires
        attempt <= MAX_RETRIES,
    ensures
        res == BASE_BACKOFF_SECS * attempt,
{
    BASE_BACKOFF_SECS * (attempt as u64)
}

// ---------------------------------------------------------------------------
// The run: a state machine driven by the caller, who asks the store, reads
// the files and calls the model.
// ---------------------------------------------------------------------------

/// The work of a run: for each component, in order, whether each of its
/// source units has a path (those without one are passed over).
pub struct SummarizeWork {
    pub units_with_path: Vec<Vec<bool>>,
}

impl View for SummarizeWork {
    type V = Seq<Seq<bool>>;

    open spec fn view(&self) -> Seq<Seq<bool>> {
        self.units_with_path@.map_values(|v: Vec<bool>| v@)
    }
}

/// How many of the first `u` units have a path.
pub open spec fn paths_before(flags: Seq<bool>, u: int) -> nat
    decreases u,
{
    if u <= 0 {
        0
    } else {
        paths_before(flags, u - 1) + (if flags[u - 1] {
            1nat
        } else {
            0nat
        })
    }
}

/// How many units with a path all the components have.
pub open spec fn path_total(work: Seq<Seq<bool>>) -> nat
    decreases work.len(),
{
    if work.len() == 0 {
        0
    } else {
        path_total(work.drop_last()) + paths_before(work.last(), work.last().len() as int)
    }
}

/// The number of summaries a run over `work` attempts: one per component
/// and one per unit with a path.
pub open spec fn work_size(work: Seq<Seq<bool>>) -> nat {
    work.len() + path_total(work)
}

/// Where a run is.
#[derive(Debug, Clone, Copy, PartialEq, Eq, Structural)]
pub enum SummarizePhase {
    Start,
    CheckingUnit,
    SummarizingUnit,
    SummarizingComponent,
    Done,
}

/// The state of a run: the component and unit at hand, the phase, whether
/// current summaries are made again, and the counts so far.
#[derive(Debug, Clone, Copy, PartialEq, Eq)]
pub struct SummarizeState {
    pub component: usize,
    pub unit: usize,
    pub phase: SummarizePhase,
    pub force: bool,
    pub stats: SummarizeStats,
}

/// What the caller reports.
#[derive(Debug)]
pub enum SummarizeEvent {
    /// The run begins.
    Begin,
    /// The unit at hand was looked at: its stored summary, and the hash of
    /// its file's content (`None` when the file could not be read).
    UnitChecked { existing: Option<Summary>, current_hash: Option<String> },
    /// The summary asked for was made and stored (`ok`) or failed.
    Finished { ok: bool },
}

/// What the caller does next.
#[derive(Debug, Clone, Copy, PartialEq, Eq, Structural)]
pub enum SummarizeAction {
    /// Look up the stored summary of this unit and hash its file.
    CheckUnit { component: usize, unit: usize },
    /// Summarise this unit and store the summary with the file's hash.
    SummarizeUnit { component: usize, unit: usize },
    /// Summarise this component from its units' summaries and store it.
    SummarizeComponent { component: usize },
    /// The run is over.
    Done,
    /// The event does not fit the phase; nothing changes.
    Ignored,
}

/// The state and action at component `c`, from unit `u` on: the next unit
/// with a path is checked; when there is none the component is summarised;
/// past the last component the run is done.
pub open spec fn next_unit(flags: Seq<bool>, u: int) -> int
    decreases flags.len() - u,
{
    if u < 0 || u >= flags.len() {
        flags.len() as int
    } else if flags[u] {
        u
    } else {
        next_unit(flags, u + 1)
    }
}

pub open spec fn settle(work: Seq<Seq<bool>>, force: bool, stats: SummarizeStats, c: int, u: int) -> (
    SummarizeState,
    SummarizeAction,
) {
    if c >= work.len() {
        (
            SummarizeState { component: c as usize, unit: 0, phase: SummarizePhase::Done, force, stats },
            SummarizeAction::Done,
        )
    } else {
        let j = next_unit(work[c], u);
        if j < work[c].len() {
            (
                SummarizeState { component: c as usize, unit: j as usize, phase: SummarizePhase::CheckingUnit, force, stats },
                SummarizeAction::CheckUnit { component: c as usize, unit: j as usize },
            )
        } else {
            (
                SummarizeState {
                    component: c as usize,
                    unit: j as usize,
                    phase: SummarizePhase::SummarizingComponent,
                    force,
                    stats,
                },
                SummarizeAction::SummarizeComponent { component: c as usize },
            )
        }
    }
}

pub open spec fn with_skipped(s: SummarizeStats) -> SummarizeStats {
    SummarizeStats { source_units_skipped: (s.source_units_skipped + 1) as usize, ..s }
}

pub open spec fn with_unit_done(s: SummarizeStats) -> SummarizeStats {
    SummarizeStats { source_units_summarized: (s.source_units_summarized + 1) as usize, ..s }
}

pub open spec fn with_component_done(s: SummarizeStats) -> SummarizeStats {
    SummarizeStats { components_summarized: (s.components_summarized + 1) as usize, ..s }
}

pub open spec fn with_error(s: SummarizeStats) -> SummarizeStats {
    SummarizeStats { errors: (s.errors + 1) as usize, ..s }
}

/// One step of a run. It begins at the first component. A unit whose
/// summary is current (see `summary_is_current_spec`) is counted as skipped
/// and the run moves on; otherwise it is summarised, and counted as
/// summarised or as an error. After the units of a component the component
/// is summarised, and counted as summarised or as an error; then the next
/// component follows. An event that does not fit the phase changes nothing.
pub open spec fn summarize_next(work: Seq<Seq<bool>>, s: SummarizeState, e: SummarizeEvent) -> (
    SummarizeState,
    SummarizeAction,
) {
    let c = s.component as int;
    let u = s.unit as int;
    match (s.phase, e) {
        (SummarizePhase::Start, SummarizeEvent::Begin) => settle(work, s.force, s.stats, 0, 0),
        (SummarizePhase::CheckingUnit, SummarizeEvent::UnitChecked { existing, current_hash }) => {
            if summary_is_current_spec(s.force, existing, opt_view(current_hash)) {
                settle(work, s.force, with_skipped(s.stats), c, u + 1)
            } else {
                (
                    SummarizeState { phase: SummarizePhase::SummarizingUnit, ..s },
                    SummarizeAction::SummarizeUnit { component: s.component, unit: s.unit },
                )
            }
        },
        (SummarizePhase::SummarizingUnit, SummarizeEvent::Finished { ok }) => settle(
            work,
            s.force,
            if ok {
                with_unit_done(s.stats)
            } else {
                with_error(s.stats)
            },
            c,
            u + 1,
        ),
        (SummarizePhase::SummarizingComponent, SummarizeEvent::Finished { ok }) => settle(
            work,
            s.force,
            if ok {
                with_component_done(s.stats)
            } else {
                with_error(s.stats)
            },
            c + 1,
            0,
        ),
        _ => (s, SummarizeAction::Ignored),
    }
}

/// The summaries attempted so far: skipped, summarised and failed.
pub open spec fn attempted(s: SummarizeStats) -> nat {
    (s.source_units_summarized + s.source_units_skipped + s.components_summarized + s.errors) as nat
}

/// The state is one a run over `work` reaches: the counts match the work
/// done before the component and unit at hand.
pub open spec fn run_consistent(work: Seq<Seq<bool>>, s: SummarizeState) -> bool {
    let c = s.component as int;
    let u = s.unit as int;
    match s.phase {
        SummarizePhase::Start => c == 0 && u == 0 && attempted(s.stats) == 0,
        SummarizePhase::CheckingUnit | SummarizePhase::SummarizingUnit => {
            &&& 0 <= c < work.len()
            &&& 0 <= u < work[c].len()
            &&& work[c][u]
            &&& attempted(s.stats) == c + path_total(work.take(c)) + paths_before(work[c], u)
        },
        SummarizePhase::SummarizingComponent => {
            &&& 0 <= c < work.len()
            &&& attempted(s.stats) == c + path_total(work.take(c)) + paths_before(work[c], work[c].len() as int)
        },
        SummarizePhase::Done => c == work.len() && attempted(s.stats) == work_size(work),
    }
}

proof fn lemma_next_unit(flags: Seq<bool>, u: int)
    requires
        0 <= u <= flags.len(),
    ensures
        u <= next_unit(flags, u) <= flags.len(),
        next_unit(flags, u) < flags.len() ==> flags[next_unit(flags, u)],
        paths_before(flags, next_unit(flags, u)) == paths_before(flags, u),
    decreases flags.len() - u,
{
    if u < flags.len() && !flags[u] {
        lemma_next_unit(flags, u + 1);
    }
}

proof fn lemma_path_total_step(work: Seq<Seq<bool>>, c: int)
    requires
        0 <= c < work.len(),
    ensures
        path_total(work.take(c + 1)) == path_total(work.take(c)) + paths_before(work[c], work[c].len() as int),
{
    assert(work.take(c + 1).drop_last() =~= work.take(c));
    assert(work.take(c + 1).last() == work[c]);
}

proof fn lemma_path_total_bound(work: Seq<Seq<bool>>, c: int)
    requires
        0 <= c <= work.len(),
    ensures
        c + path_total(work.take(c)) <= work_size(work),
    decreases work.len() - c,
{
    if c < work.len() {
        lemma_path_total_step(work, c);
        lemma_path_total_bound(work, c + 1);
    } else {
        assert(work.take(c) =~= work);
    }
}

proof fn lemma_path_total_prefix(work: Seq<Seq<bool>>, c: int)
    requires
        0 <= c <= work.len(),
    ensures
        path_total(work.take(c)) <= path_total(work),
    decreases work.len() - c,
{
    if c < work.len() {
        lemma_path_total_step(work, c);
        lemma_path_total_prefix(work, c + 1);
    } else {
        assert(work.take(c) =~= work);
    }
}

proof fn lemma_paths_before_bound(flags: Seq<bool>, u: int)
    requires
        0 <= u <= flags.len(),
    ensures
        paths_before(flags, u) <= paths_before(flags, flags.len() as int),
    decreases flags.len() - u,
{
    if u < flags.len() {
        lemma_paths_before_bound(flags, u + 1);
    }
}

/// Settling keeps the run consistent when the counts cover the work before
/// unit `u` of component `c`.
proof fn lemma_settle_consistent(work: Seq<Seq<bool>>, force: bool, stats: SummarizeStats, c: int, u: int)
    requires
        0 <= c <= work.len(),
        c <= usize::MAX,
        c < work.len() ==> work[c].len() <= usize::MAX,
        c < work.len() ==> 0 <= u <= work[c].len() && attempted(stats) == c + path_total(work.take(c))
            + paths_before(work[c], u),
        c == work.len() ==> u == 0 && attempted(stats) == c + path_total(work.take(c)),
    ensures
        run_consistent(work, settle(work, force, stats, c, u).0),
{
    if c < work.len() {
        lemma_next_unit(work[c], u);
    } else {
        assert(work.take(c) =~= work);
    }
}

impl SummarizeState {
    /// A run that has not begun.
    pub fn new(force: bool) -> (res: Self)
        ensures
            res == (SummarizeState { component: 0, unit: 0, phase: SummarizePhase::Start, force, stats: res.stats }),
            attempted(res.stats) == 0,
            res.stats.source_units_summarized == 0 && res.stats.source_units_skipped == 0
                && res.stats.components_summarized == 0 && res.stats.errors == 0,
    {
        SummarizeState { component: 0, unit: 0, phase: SummarizePhase::Start, force, stats: SummarizeStats::new() }
    }
}

/// Whether the counts of a run over the work fit in a `usize`.
pub fn work_fits(work: &SummarizeWork) -> (res: bool)
    ensures
        res == (work_size(work@) < usize::MAX),
{
    let ghost w = work@;
    if work.units_with_path.len() == usize::MAX {
        return false;
    }
    let mut total: usize = work.units_with_path.len();
    let mut c: usize = 0;
    assert(w.take(0) =~= Seq::<Seq<bool>>::empty());
    while c < work.units_with_path.len()
        invariant
            w == work@,
            w.len() == work.units_with_path@.len(),
            c <= w.len(),
            total == w.len() + path_total(w.take(c as int)),
            total < usize::MAX,
        decreases work.units_with_path.len() - c,
    {
        let flags = &work.units_with_path[c];
        assert(w[c as int] == flags@);
        let mut u: usize = 0;
        while u < flags.len()
            invariant
                u <= flags@.len(),
                w == work@,
                w[c as int] == flags@,
                c < w.len(),
                total == w.len() + path_total(w.take(c as int)) + paths_before(flags@, u as int),
                total < usize::MAX,
            decreases flags.len() - u,
        {
            if flags[u] {
                if total == usize::MAX - 1 {
                    proof {
                        lemma_paths_before_bound(flags@, u + 1);
                        lemma_path_total_step(w, c as int);
                        lemma_path_total_prefix(w, c + 1);
                        assert(paths_before(flags@, u + 1) == paths_before(flags@, u as int) + 1);
                        assert(path_total(w.take(c + 1)) == path_total(w.take(c as int)) + paths_before(
                            flags@,
                            flags@.len() as int,
                        ));
                        assert(w.len() + path_total(w) >= usize::MAX);
                        assert(work_size(work@) >= usize::MAX);
                    }
                    return false;
                }
                total = total + 1;
            }
            u += 1;
        }
        proof {
            lemma_path_total_step(w, c as int);
        }
        c += 1;
    }
    assert(w.take(w.len() as int) =~= w);
    true
}

/// One step of a run over `work` (see `summarize_next`).
pub fn summarize_step(work: &SummarizeWork, state: &SummarizeState, event: SummarizeEvent) -> (res: (
    SummarizeState,
    SummarizeAction,
))
    requires
        work_size(work@) < usize::MAX,
        run_consistent(work@, *state),
    ensures
        res == summarize_next(work@, *state, event),
        run_consistent(work@, res.0),
{
    let ghost w = work@;
    let s = *state;
    let c = s.component;
    let u = s.unit;
    proof {
        assert forall|k: int| 0 <= k < w.len() implies (#[trigger] w[k]).len() <= usize::MAX by {
            let v = work.units_with_path@[k];
            assert(w[k] == v@);
            assert(v.len() == v@.len());
        }
        assert(work.units_with_path.len() == w.len());
        if s.phase == SummarizePhase::CheckingUnit || s.phase == SummarizePhase::SummarizingUnit
            || s.phase == SummarizePhase::SummarizingComponent {
            assert(w[c as int] == work.units_with_path@[c as int]@);
            lemma_path_total_step(w, c as int);
            lemma_path_total_bound(w, c + 1);
        }
        if s.phase == SummarizePhase::CheckingUnit || s.phase == SummarizePhase::SummarizingUnit {
            lemma_paths_before_bound(w[c as int], (u + 1) as int);
            assert(paths_before(w[c as int], u + 1) == paths_before(w[c as int], u as int) + 1);
        }
    }
    match (s.phase, event) {
        (SummarizePhase::Start, SummarizeEvent::Begin) => {
            proof {
                lemma_settle_consistent(w, s.force, s.stats, 0, 0);
                assert(w.take(0) =~= Seq::<Seq<bool>>::empty());
            }
            settle_exec(work, s.force, s.stats, 0, 0)
        },
        (SummarizePhase::CheckingUnit, SummarizeEvent::UnitChecked { existing, current_hash }) => {
            if summary_is_current(s.force, &existing, &current_hash) {
                let mut st = s.stats;
                st.source_units_skipped = st.source_units_skipped + 1;
                proof {
                    lemma_settle_consistent(w, s.force, st, c as int, u + 1);
                }
                settle_exec(work, s.force, st, c, u + 1)
            } else {
                (
                    SummarizeState { phase: SummarizePhase::SummarizingUnit, ..s },
                    SummarizeAction::SummarizeUnit { component: c, unit: u },
                )
            }
        },
        (SummarizePhase::SummarizingUnit, SummarizeEvent::Finished { ok }) => {
            let mut st = s.stats;
            if ok {
                st.source_units_summarized = st.source_units_summarized + 1;
            } else {
                st.errors = st.errors + 1;
            }
            proof {
                lemma_settle_consistent(w, s.force, st, c as int, u + 1);
            }
            settle_exec(work, s.force, st, c, u + 1)
        },
        (SummarizePhase::SummarizingComponent, SummarizeEvent::Finished { ok }) => {
            let mut st = s.stats;
            if ok {
                st.components_summarized = st.components_summarized + 1;
            } else {
                st.errors = st.errors + 1;
            }
            proof {
                lemma_settle_consistent(w, s.force, st, c + 1, 0);
            }
            settle_exec(work, s.force, st, c + 1, 0)
        },
        _ => (s, SummarizeAction::Ignored),
    }
}

fn settle_exec(work: &SummarizeWork, force: bool, stats: SummarizeStats, c: usize, u: usize) -> (res: (
    SummarizeState,
    SummarizeAction,
))
    requires
        c <= work@.len(),
        c < work@.len() ==> u <= work@[c as int].len(),
    ensures
        res == settle(work@, force, stats, c as int, u as int),
{
    if c >= work.units_with_path.len() {
        return (
            SummarizeState { component: c, unit: 0, phase: SummarizePhase::Done, force, stats },
            SummarizeAction::Done,
        );
    }
    let flags = &work.units_with_path[c];
    assert(work@[c as int] == flags@);
    let mut j = u;
    while j < flags.len() && !flags[j]
        invariant
            u <= j <= flags@.len(),
            next_unit(flags@, u as int) == next_unit(flags@, j as int),
        decreases flags.len() - j,
    {
        j += 1;
    }
    if j < flags.len() {
        (
            SummarizeState { component: c, unit: j, phase: SummarizePhase::CheckingUnit, force, stats },
            SummarizeAction::CheckUnit { component: c, unit: j },
        )
    } else {
        (
            SummarizeState { component: c, unit: j, phase: SummarizePhase::SummarizingComponent, force, stats },
            SummarizeAction::SummarizeComponent { component: c },
        )
    }
}

/// At the end of a run every summary was attempted once: the units
/// skipped, the units and components summarised and the errors add up to
/// the number of components plus the number of source units with a path.
pub proof fn lemma_run_counts_everything(work: Seq<Seq<bool>>, s: SummarizeState)
    requires
        run_consistent(work, s),
        s.phase == SummarizePhase::Done,
    ensures
        s.stats.source_units_skipped + s.stats.source_units_summarized + s.stats.components_summarized
            + s.stats.errors == work.len() + path_total(work),
{
}

} // verus!
