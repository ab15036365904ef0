//! Counters of an indexing run and their report.

use vstd::prelude::*;
use crate::numfmt::{decimal, usize_to_string};
use crate::text::push_str;

verus! {

/// What an indexing run did.
#[derive(Debug, Clone, Copy, PartialEq, Eq, Default)]
pub struct IndexStats {
    pub crates_found: usize,
    pub components_found: usize,
    pub files_indexed: usize,
    pub files_skipped: usize,
    pub files_removed: usize,
    pub symbols_extracted: usize,
    pub edges_created: usize,
    pub features_extracted: usize,
    pub docs_indexed: usize,
    pub tasks_extracted: usize,
    pub task_routes_generated: usize,
    pub migrations_indexed: usize,
    pub specs_indexed: usize,
    pub workflows_indexed: usize,
    pub agent_configs_indexed: usize,
    pub templates_indexed: usize,
    pub infra_roots_indexed: usize,
    pub containerized_indexed: usize,
    pub commands_indexed: usize,
    pub sites_detected: usize,
    pub content_pages_indexed: usize,
    pub packages_indexed: usize,
    pub parse_failures: usize,
}

/// A report line: its label, then the count.
pub open spec fn stat_line(label: Seq<char>, n: usize) -> Seq<char> {
    label + decimal(n as nat)
}

/// The report of an indexing run: one labelled count per line.
pub open spec fn index_stats_text(s: IndexStats) -> Seq<char> {
    stat_line("crates:        "@, s.crates_found) + "\n"@
        + stat_line("files:         "@, s.files_indexed) + "\n"@
        + stat_line("skipped:       "@, s.files_skipped) + "\n"@
        + stat_line("removed:       "@, s.files_removed) + "\n"@
        + stat_line("symbols:       "@, s.symbols_extracted) + "\n"@
        + stat_line("features:      "@, s.features_extracted) + "\n"@
        + stat_line("docs:          "@, s.docs_indexed) + "\n"@
        + stat_line("tasks:         "@, s.tasks_extracted) + "\n"@
        + stat_line("migrations:    "@, s.migrations_indexed) + "\n"@
        + stat_line("specs:         "@, s.specs_indexed) + "\n"@
        + stat_line("workflows:     "@, s.workflows_indexed) + "\n"@
        + stat_line("agent_configs: "@, s.agent_configs_indexed) + "\n"@
        + stat_line("templates:     "@, s.templates_indexed) + "\n"@
        + stat_line("infra_roots:   "@, s.infra_roots_indexed) + "\n"@
        + stat_line("containerized: "@, s.containerized_indexed) + "\n"@
        + stat_line("commands:      "@, s.commands_indexed) + "\n"@
        + stat_line("sites:         "@, s.sites_detected) + "\n"@
        + stat_line("content_pages: "@, s.content_pages_indexed) + "\n"@
        + stat_line("packages:      "@, s.packages_indexed) + "\n"@
        + stat_line("parse_errors:  "@, s.parse_failures) + "\n"@
        + stat_line("routes:        "@, s.task_routes_generated) + "\n"@
        + stat_line("edges:         "@, s.edges_created)
}

fn push_stat(out: &mut String, label: &str, n: usize, newline: bool)
    ensures
        final(out)@ == old(out)@ + stat_line(label@, n) + if newline {
            "\n"@
        } else {
            Seq::<char>::empty()
        },
{
    push_str(out, label);
    let digits = usize_to_string(n);
    push_str(out, digits.as_str());
    if newline {
        push_str(out, "\n");
    }
    assert(old(out)@ + label@ + digits@ == old(out)@ + stat_line(label@, n));
}

impl IndexStats {
    /// All counters at zero.
    pub fn new() -> (res: Self)
        ensures
            res.crates_found == 0,
            res.components_found == 0,
            res.files_indexed == 0,
            res.files_skipped == 0,
            res.files_removed == 0,
            res.symbols_extracted == 0,
            res.edges_created == 0,
            res.features_extracted == 0,
            res.docs_indexed == 0,
            res.tasks_extracted == 0,
            res.task_routes_generated == 0,
            res.migrations_indexed == 0,
            res.specs_indexed == 0,
            res.workflows_indexed == 0,
            res.agent_configs_indexed == 0,
            res.templates_indexed == 0,
            res.infra_roots_indexed == 0,
            res.containerized_indexed == 0,
            res.commands_indexed == 0,
            res.sites_detected == 0,
            res.content_pages_indexed == 0,
            res.packages_indexed == 0,
            res.parse_failures == 0,
    {
        IndexStats {
            crates_found: 0,
            components_found: 0,
            files_indexed: 0,
            files_skipped: 0,
            files_removed: 0,
            symbols_extracted: 0,
            edges_created: 0,
            features_extracted: 0,
            docs_indexed: 0,
            tasks_extracted: 0,
            task_routes_generated: 0,
            migrations_indexed: 0,
            specs_indexed: 0,
            workflows_indexed: 0,
            agent_configs_indexed: 0,
            templates_indexed: 0,
            infra_roots_indexed: 0,
            containerized_indexed: 0,
            commands_indexed: 0,
            sites_detected: 0,
            content_pages_indexed: 0,
            packages_indexed: 0,
            parse_failures: 0,
        }
    }

    /// The report of the run (see `index_stats_text`).
    pub fn to_string(&self) -> (res: String)
        ensures
            res@ == index_stats_text(*self),
    {
        let mut out = String::new();
        push_stat(&mut out, "crates:        ", self.crates_found, true);
        push_stat(&mut out, "files:         ", self.files_indexed, true);
        push_stat(&mut out, "skipped:       ", self.files_skipped, true);
        push_stat(&mut out, "removed:       ", self.files_removed, true);
        push_stat(&mut out, "symbols:       ", self.symbols_extracted, true);
        push_stat(&mut out, "features:      ", self.features_extracted, true);
        push_stat(&mut out, "docs:          ", self.docs_indexed, true);
        push_stat(&mut out, "tasks:         ", self.tasks_extracted, true);
        push_stat(&mut out, "migrations:    ", self.migrations_indexed, true);
        push_stat(&mut out, "specs:         ", self.specs_indexed, true);
        push_stat(&mut out, "workflows:     ", self.workflows_indexed, true);
        push_stat(&mut out, "agent_configs: ", self.agent_configs_indexed, true);
        push_stat(&mut out, "templates:     ", self.templates_indexed, true);
        push_stat(&mut out, "infra_roots:   ", self.infra_roots_indexed, true);
        push_stat(&mut out, "containerized: ", self.containerized_indexed, true);
        push_stat(&mut out, "commands:      ", self.commands_indexed, true);
        push_stat(&mut out, "sites:         ", self.sites_detected, true);
        push_stat(&mut out, "content_pages: ", self.content_pages_indexed, true);
        push_stat(&mut out, "packages:      ", self.packages_indexed, true);
        push_stat(&mut out, "parse_errors:  ", self.parse_failures, true);
        push_stat(&mut out, "routes:        ", self.task_routes_generated, true);
        push_stat(&mut out, "edges:         ", self.edges_created, false);
        proof {
            reveal_strlit("\n");
            assert(out@ =~= index_stats_text(*self));
        }
        out
    }
}

} // verus!
