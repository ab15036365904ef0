//! Which file-system changes make watch mode index the repository again.

use vstd::prelude::*;
use crate::index::{extension_of, file_extension};
use crate::paths::{components, path_components, views};
use crate::scan::file_name_of;
use crate::text::{chars_of, contains_seq, str_eq};

verus! {

/// Paths under build outputs, version control or dependencies, and
/// database files, are ignored.
pub open spec fn is_ignored_path(path: Seq<char>) -> bool {
    ||| exists|k: int|
        0 <= k < components(path).len() && {
            let c = #[trigger] components(path)[k];
            c == "target"@ || c == ".git"@ || c == "node_modules"@
        }
    ||| file_extension(file_name_of(components(path))) == Some("db"@)
}

/// Files whose changes matter: sources, manifests, documents,
/// infrastructure and container files.
pub open spec fn is_relevant_file(path: Seq<char>) -> bool {
    let name = file_name_of(components(path));
    ||| match file_extension(name) {
        Some(e) => e == "rs"@ || e == "toml"@ || e == "md"@ || e == "tf"@ || e == "tla"@ || e == "astro"@
            || e == "sql"@ || e == "yml"@ || e == "yaml"@ || e == "html"@,
        None => false,
    }
    ||| contains_seq(name, "Dockerfile"@)
}

fn name_of(path: &str) -> (res: (Vec<Vec<char>>, String))
    ensures
        views(res.0@) == components(path@),
        res.1@ == file_name_of(components(path@)),
{
    let v = chars_of(path);
    let cs = path_components(&v);
    assert(views(cs@).take(cs@.len() as int) == views(cs@));
    let name = crate::scan::file_name_in_parts(&cs, cs.len());
    (cs, crate::text::string_of(&name))
}

/// Whether a changed path makes watch mode index again: it is not ignored
/// and it is a relevant file.
pub fn is_relevant_change(path: &str) -> (res: bool)
    ensures
        res == (!is_ignored_path(path@) && is_relevant_file(path@)),
{
    let (cs, name) = name_of(path);
    let mut k: usize = 0;
    while k < cs.len()
        invariant
            k <= cs@.len(),
            views(cs@) == components(path@),
            forall|j: int| 0 <= j < k ==> {
                let c = #[trigger] components(path@)[j];
                !(c == "target"@ || c == ".git"@ || c == "node_modules"@)
            },
        decreases cs.len() - k,
    {
        let c = crate::text::string_of(&cs[k]);
        assert(components(path@)[k as int] == cs@[k as int]@);
        if str_eq(c.as_str(), "target") || str_eq(c.as_str(), ".git") || str_eq(c.as_str(), "node_modules") {
            return false;
        }
        k += 1;
    }
    let ext = extension_of(name.as_str());
    let is_db = match &ext {
        Some(e) => str_eq(e.as_str(), "db"),
        None => false,
    };
    if is_db {
        return false;
    }
    let relevant_ext = match &ext {
        Some(e) => {
            let e = e.as_str();
            str_eq(e, "rs") || str_eq(e, "toml") || str_eq(e, "md") || str_eq(e, "tf") || str_eq(e, "tla")
                || str_eq(e, "astro") || str_eq(e, "sql") || str_eq(e, "yml") || str_eq(e, "yaml") || str_eq(
                e,
                "html",
            )
        },
        None => false,
    };
    let nv = chars_of(name.as_str());
    let docker = chars_of("Dockerfile");
    relevant_ext || crate::text::contains_chars(&nv, &docker)
}

/// Whether a file-system event touching these paths starts a re-index.
pub fn event_triggers_reindex(paths: &Vec<String>) -> (res: bool)
    ensures
        res == exists|k: int|
            0 <= k < paths@.len() && !is_ignored_path(#[trigger] paths@[k]@) && is_relevant_file(paths@[k]@),
{
    let mut k: usize = 0;
    while k < paths.len()
        invariant
            k <= paths@.len(),
            forall|j: int| 0 <= j < k ==> !(!is_ignored_path(#[trigger] paths@[j]@) && is_relevant_file(paths@[j]@)),
        decreases paths.len() - k,
    {
        if is_relevant_change(paths[k].as_str()) {
            return true;
        }
        k += 1;
    }
    false
}

/// Where watch mode is: waiting for a relevant change, or letting a burst of
/// changes settle before indexing again.
#[derive(Debug, Clone, Copy, PartialEq, Eq, Structural)]
pub enum WatchPhase {
    Waiting,
    Settling,
}

/// What happened while watching.
#[derive(Debug)]
pub enum WatchEvent {
    /// A file-system event touched these paths.
    Changed(Vec<String>),
    /// The settling window ended without further events.
    Settled,
    /// The watcher stopped delivering events.
    Closed,
}

/// What watch mode does next.
#[derive(Debug, Clone, Copy, PartialEq, Eq, Structural)]
pub enum WatchAction {
    /// Keep waiting for events.
    Wait,
    /// Open the settling window.
    StartSettling,
    /// Absorb the event; the window keeps its end.
    KeepSettling,
    /// Index again.
    Reindex,
    /// Stop watching.
    Stop,
}

/// The next phase and action: while waiting, a change to a relevant path
/// opens the settling window and other changes are ignored; while settling,
/// changes are absorbed until the window ends, which starts a re-index;
/// a closed watcher stops watch mode.
pub open spec fn watch_next(phase: WatchPhase, event: WatchEvent) -> (WatchPhase, WatchAction) {
    match event {
        WatchEvent::Closed => (phase, WatchAction::Stop),
        WatchEvent::Changed(paths) => match phase {
            WatchPhase::Waiting => if exists|k: int|
                0 <= k < paths@.len() && !is_ignored_path(#[trigger] paths@[k]@) && is_relevant_file(paths@[k]@) {
                (WatchPhase::Settling, WatchAction::StartSettling)
            } else {
                (WatchPhase::Waiting, WatchAction::Wait)
            },
            WatchPhase::Settling => (WatchPhase::Settling, WatchAction::KeepSettling),
        },
        WatchEvent::Settled => match phase {
            WatchPhase::Waiting => (WatchPhase::Waiting, WatchAction::Wait),
            WatchPhase::Settling => (WatchPhase::Waiting, WatchAction::Reindex),
        },
    }
}

/// One step of watch mode (see `watch_next`).
pub fn watch_step(phase: WatchPhase, event: &WatchEvent) -> (res: (WatchPhase, WatchAction))
    ensures
        res == watch_next(phase, *event),
{
    match event {
        WatchEvent::Closed => (phase, WatchAction::Stop),
        WatchEvent::Changed(paths) => match phase {
            WatchPhase::Waiting => if event_triggers_reindex(paths) {
                (WatchPhase::Settling, WatchAction::StartSettling)
            } else {
                (WatchPhase::Waiting, WatchAction::Wait)
            },
            WatchPhase::Settling => (WatchPhase::Settling, WatchAction::KeepSettling),
        },
        WatchEvent::Settled => match phase {
            WatchPhase::Waiting => (WatchPhase::Waiting, WatchAction::Wait),
            WatchPhase::Settling => (WatchPhase::Waiting, WatchAction::Reindex),
        },
    }
}

/// Watch mode indexes again only from the settling phase, and goes back to
/// waiting when it does; it starts settling only from the waiting phase.
pub proof fn lemma_reindex_only_after_settling(phase: WatchPhase, event: WatchEvent)
    ensures
        watch_next(phase, event).1 == WatchAction::Reindex ==> phase == WatchPhase::Settling && watch_next(
            phase,
            event,
        ).0 == WatchPhase::Waiting,
        watch_next(phase, event).1 == WatchAction::StartSettling ==> phase == WatchPhase::Waiting,
{
}

} // verus!
