//! Entities of the repository graph and their kinds.

use vstd::prelude::*;
use crate::text::str_eq;

verus! {

/// The kind of a graph entity.
#[derive(Debug, Clone, Copy, PartialEq, Eq, Hash, Structural)]
pub enum EntityKind {
    Repo,
    Directory,
    Component,
    SourceUnit,
    Symbol,
    Doc,
    Test,
    Bench,
    Task,
    Containerized,
    InfraRoot,
    Command,
    Feature,
    ContentPage,
    Template,
    Site,
    Migration,
    Spec,
    Workflow,
    AgentConfig,
}

/// The stable snake_case name of an entity kind.
pub open spec fn entity_kind_name(k: EntityKind) -> Seq<char> {
    match k {
        EntityKind::Repo => "repo"@,
        EntityKind::Directory => "directory"@,
        EntityKind::Component => "component"@,
        EntityKind::SourceUnit => "source_unit"@,
        EntityKind::Symbol => "symbol"@,
        EntityKind::Doc => "doc"@,
        EntityKind::Test => "test"@,
        EntityKind::Bench => "bench"@,
        EntityKind::Task => "task"@,
        EntityKind::Containerized => "containerized"@,
        EntityKind::InfraRoot => "infra_root"@,
        EntityKind::Command => "command"@,
        EntityKind::Feature => "feature"@,
        EntityKind::ContentPage => "content_page"@,
        EntityKind::Template => "template"@,
        EntityKind::Site => "site"@,
        EntityKind::Migration => "migration"@,
        EntityKind::Spec => "spec"@,
        EntityKind::Workflow => "workflow"@,
        EntityKind::AgentConfig => "agent_config"@,
    }
}

/// The kind whose name is `s`, if any.
pub open spec fn parse_entity_kind(s: Seq<char>) -> Option<EntityKind> {
    if s == "repo"@ {
        Some(EntityKind::Repo)
    } else if s == "directory"@ {
        Some(EntityKind::Directory)
    } else if s == "component"@ {
        Some(EntityKind::Component)
    } else if s == "source_unit"@ {
        Some(EntityKind::SourceUnit)
    } else if s == "symbol"@ {
        Some(EntityKind::Symbol)
    } else if s == "doc"@ {
        Some(EntityKind::Doc)
    } else if s == "test"@ {
        Some(EntityKind::Test)
    } else if s == "bench"@ {
        Some(EntityKind::Bench)
    } else if s == "task"@ {
        Some(EntityKind::Task)
    } else if s == "containerized"@ {
        Some(EntityKind::Containerized)
    } else if s == "infra_root"@ {
        Some(EntityKind::InfraRoot)
    } else if s == "command"@ {
        Some(EntityKind::Command)
    } else if s == "feature"@ {
        Some(EntityKind::Feature)
    } else if s == "content_page"@ {
        Some(EntityKind::ContentPage)
    } else if s == "template"@ {
        Some(EntityKind::Template)
    } else if s == "site"@ {
        Some(EntityKind::Site)
    } else if s == "migration"@ {
        Some(EntityKind::Migration)
    } else if s == "spec"@ {
        Some(EntityKind::Spec)
    } else if s == "workflow"@ {
        Some(EntityKind::Workflow)
    } else if s == "agent_config"@ {
        Some(EntityKind::AgentConfig)
    } else {
        None
    }
}

impl EntityKind {
    /// The stable name of this kind.
    pub fn as_str(&self) -> (res: &'static str)
        ensures
            res@ == entity_kind_name(*self),
    {
        match self {
            EntityKind::Repo => "repo",
            EntityKind::Directory => "directory",
            EntityKind::Component => "component",
            EntityKind::SourceUnit => "source_unit",
            EntityKind::Symbol => "symbol",
            EntityKind::Doc => "doc",
            EntityKind::Test => "test",
            EntityKind::Bench => "bench",
            EntityKind::Task => "task",
            EntityKind::Containerized => "containerized",
            EntityKind::InfraRoot => "infra_root",
            EntityKind::Command => "command",
            EntityKind::Feature => "feature",
            EntityKind::ContentPage => "content_page",
            EntityKind::Template => "template",
            EntityKind::Site => "site",
            EntityKind::Migration => "migration",
            EntityKind::Spec => "spec",
            EntityKind::Workflow => "workflow",
            EntityKind::AgentConfig => "agent_config",
        }
    }

    /// The kind named `s`; `None` for an unknown name.
    pub fn parse(s: &str) -> (res: Option<EntityKind>)
        ensures
            res == parse_entity_kind(s@),
    {
        if str_eq(s, "repo") {
            Some(EntityKind::Repo)
        } else if str_eq(s, "directory") {
            Some(EntityKind::Directory)
        } else if str_eq(s, "component") {
            Some(EntityKind::Component)
        } else if str_eq(s, "source_unit") {
            Some(EntityKind::SourceUnit)
        } else if str_eq(s, "symbol") {
            Some(EntityKind::Symbol)
        } else if str_eq(s, "doc") {
            Some(EntityKind::Doc)
        } else if str_eq(s, "test") {
            Some(EntityKind::Test)
        } else if str_eq(s, "bench") {
            Some(EntityKind::Bench)
        } else if str_eq(s, "task") {
            Some(EntityKind::Task)
        } else if str_eq(s, "containerized") {
            Some(EntityKind::Containerized)
        } else if str_eq(s, "infra_root") {
            Some(EntityKind::InfraRoot)
        } else if str_eq(s, "command") {
            Some(EntityKind::Command)
        } else if str_eq(s, "feature") {
            Some(EntityKind::Feature)
        } else if str_eq(s, "content_page") {
            Some(EntityKind::ContentPage)
        } else if str_eq(s, "template") {
            Some(EntityKind::Template)
        } else if str_eq(s, "site") {
            Some(EntityKind::Site)
        } else if str_eq(s, "migration") {
            Some(EntityKind::Migration)
        } else if str_eq(s, "spec") {
            Some(EntityKind::Spec)
        } else if str_eq(s, "workflow") {
            Some(EntityKind::Workflow)
        } else if str_eq(s, "agent_config") {
            Some(EntityKind::AgentConfig)
        } else {
            None
        }
    }

    /// The name of this kind as an owned string (what `Display` prints).
    pub fn to_string(&self) -> (res: String)
        ensures
            res@ == entity_kind_name(*self),
    {
        crate::text::owned(self.as_str())
    }
}

/// Parsing the name of a kind gives that kind back.
pub proof fn lemma_entity_kind_round_trip(k: EntityKind)
    ensures
        parse_entity_kind(entity_kind_name(k)) == Some(k),
{
    match k {
        EntityKind::Repo => {
            reveal_strlit("repo");
        },
        EntityKind::Directory => {
            reveal_strlit("repo");
            reveal_strlit("directory");
            assert("directory"@.len() == 9 && "repo"@.len() == 4);
        },
        EntityKind::Component => {
            reveal_strlit("repo");
            reveal_strlit("directory");
            reveal_strlit("component");
            assert("component"@.len() == 9 && "repo"@.len() == 4);
            assert("component"@[0] == 'c' && "directory"@[0] == 'd');
        },
        EntityKind::SourceUnit => {
            reveal_strlit("repo");
            reveal_strlit("directory");
            reveal_strlit("component");
            reveal_strlit("source_unit");
            assert("source_unit"@.len() == 11 && "repo"@.len() == 4);
            assert("source_unit"@.len() == 11 && "directory"@.len() == 9);
            assert("source_unit"@.len() == 11 && "component"@.len() == 9);
        },
        EntityKind::Symbol => {
            reveal_strlit("repo");
            reveal_strlit("directory");
            reveal_strlit("component");
            reveal_strlit("source_unit");
            reveal_strlit("symbol");
            assert("symbol"@.len() == 6 && "repo"@.len() == 4);
            assert("symbol"@.len() == 6 && "directory"@.len() == 9);
            assert("symbol"@.len() == 6 && "component"@.len() == 9);
            assert("symbol"@.len() == 6 && "source_unit"@.len() == 11);
        },
        EntityKind::Doc => {
            reveal_strlit("repo");
            reveal_strlit("directory");
            reveal_strlit("component");
            reveal_strlit("source_unit");
            reveal_strlit("symbol");
            reveal_strlit("doc");
            assert("doc"@.len() == 3 && "repo"@.len() == 4);
            assert("doc"@.len() == 3 && "directory"@.len() == 9);
            assert("doc"@.len() == 3 && "component"@.len() == 9);
            assert("doc"@.len() == 3 && "source_unit"@.len() == 11);
            assert("doc"@.len() == 3 && "symbol"@.len() == 6);
        },
        EntityKind::Test => {
            reveal_strlit("repo");
            reveal_strlit("directory");
            reveal_strlit("component");
            reveal_strlit("source_unit");
            reveal_strlit("symbol");
            reveal_strlit("doc");
            reveal_strlit("test");
            assert("test"@[0] == 't' && "repo"@[0] == 'r');
            assert("test"@.len() == 4 && "directory"@.len() == 9);
            assert("test"@.len() == 4 && "component"@.len() == 9);
            assert("test"@.len() == 4 && "source_unit"@.len() == 11);
            assert("test"@.len() == 4 && "symbol"@.len() == 6);
            assert("test"@.len() == 4 && "doc"@.len() == 3);
        },
        EntityKind::Bench => {
            reveal_strlit("repo");
            reveal_strlit("directory");
            reveal_strlit("component");
            reveal_strlit("source_unit");
            reveal_strlit("symbol");
            reveal_strlit("doc");
            reveal_strlit("test");
            reveal_strlit("bench");
            assert("bench"@.len() == 5 && "repo"@.len() == 4);
            assert("bench"@.len() == 5 && "directory"@.len() == 9);
            assert("bench"@.len() == 5 && "component"@.len() == 9);
            assert("bench"@.len() == 5 && "source_unit"@.len() == 11);
            assert("bench"@.len() == 5 && "symbol"@.len() == 6);
            assert("bench"@.len() == 5 && "doc"@.len() == 3);
            assert("bench"@.len() == 5 && "test"@.len() == 4);
        },
        EntityKind::Task => {
            reveal_strlit("repo");
            reveal_strlit("directory");
            reveal_strlit("component");
            reveal_strlit("source_unit");
            reveal_strlit("symbol");
            reveal_strlit("doc");
            reveal_strlit("test");
            reveal_strlit("bench");
            reveal_strlit("task");
            assert("task"@[0] == 't' && "repo"@[0] == 'r');
            assert("task"@.len() == 4 && "directory"@.len() == 9);
            assert("task"@.len() == 4 && "component"@.len() == 9);
            assert("task"@.len() == 4 && "source_unit"@.len() == 11);
            assert("task"@.len() == 4 && "symbol"@.len() == 6);
            assert("task"@.len() == 4 && "doc"@.len() == 3);
            assert("task"@[1] == 'a' && "test"@[1] == 'e');
            assert("task"@.len() == 4 && "bench"@.len() == 5);
        },
        EntityKind::Containerized => {
            reveal_strlit("repo");
            reveal_strlit("directory");
            reveal_strlit("component");
            reveal_strlit("source_unit");
            reveal_strlit("symbol");
            reveal_strlit("doc");
            reveal_strlit("test");
            reveal_strlit("bench");
            reveal_strlit("task");
            reveal_strlit("containerized");
            assert("containerized"@.len() == 13 && "repo"@.len() == 4);
            assert("containerized"@.len() == 13 && "directory"@.len() == 9);
            assert("containerized"@.len() == 13 && "component"@.len() == 9);
            assert("containerized"@.len() == 13 && "source_unit"@.len() == 11);
            assert("containerized"@.len() == 13 && "symbol"@.len() == 6);
            assert("containerized"@.len() == 13 && "doc"@.len() == 3);
            assert("containerized"@.len() == 13 && "test"@.len() == 4);
            assert("containerized"@.len() == 13 && "bench"@.len() == 5);
            assert("containerized"@.len() == 13 && "task"@.len() == 4);
        },
        EntityKind::InfraRoot => {
            reveal_strlit("repo");
            reveal_strlit("directory");
            reveal_strlit("component");
            reveal_strlit("source_unit");
            reveal_strlit("symbol");
            reveal_strlit("doc");
            reveal_strlit("test");
            reveal_strlit("bench");
            reveal_strlit("task");
            reveal_strlit("containerized");
            reveal_strlit("infra_root");
            assert("infra_root"@.len() == 10 && "repo"@.len() == 4);
            assert("infra_root"@.len() == 10 && "directory"@.len() == 9);
            assert("infra_root"@.len() == 10 && "component"@.len() == 9);
            assert("infra_root"@.len() == 10 && "source_unit"@.len() == 11);
            assert("infra_root"@.len() == 10 && "symbol"@.len() == 6);
            assert("infra_root"@.len() == 10 && "doc"@.len() == 3);
            assert("infra_root"@.len() == 10 && "test"@.len() == 4);
            assert("infra_root"@.len() == 10 && "bench"@.len() == 5);
            assert("infra_root"@.len() == 10 && "task"@.len() == 4);
            assert("infra_root"@.len() == 10 && "containerized"@.len() == 13);
        },
        EntityKind::Command => {
            reveal_strlit("repo");
            reveal_strlit("directory");
            reveal_strlit("component");
            reveal_strlit("source_unit");
            reveal_strlit("symbol");
            reveal_strlit("doc");
            reveal_strlit("test");
            reveal_strlit("bench");
            reveal_strlit("task");
            reveal_strlit("containerized");
            reveal_strlit("infra_root");
            reveal_strlit("command");
            assert("command"@.len() == 7 && "repo"@.len() == 4);
            assert("command"@.len() == 7 && "directory"@.len() == 9);
            assert("command"@.len() == 7 && "component"@.len() == 9);
            assert("command"@.len() == 7 && "source_unit"@.len() == 11);
            assert("command"@.len() == 7 && "symbol"@.len() == 6);
            assert("command"@.len() == 7 && "doc"@.len() == 3);
            assert("command"@.len() == 7 && "test"@.len() == 4);
            assert("command"@.len() == 7 && "bench"@.len() == 5);
            assert("command"@.len() == 7 && "task"@.len() == 4);
            assert("command"@.len() == 7 && "containerized"@.len() == 13);
            assert("command"@.len() == 7 && "infra_root"@.len() == 10);
        },
        EntityKind::Feature => {
            reveal_strlit("repo");
            reveal_strlit("directory");
            reveal_strlit("component");
            reveal_strlit("source_unit");
            reveal_strlit("symbol");
            reveal_strlit("doc");
            reveal_strlit("test");
            reveal_strlit("bench");
            reveal_strlit("task");
            reveal_strlit("containerized");
            reveal_strlit("infra_root");
            reveal_strlit("command");
            reveal_strlit("feature");
            assert("feature"@.len() == 7 && "repo"@.len() == 4);
            assert("feature"@.len() == 7 && "directory"@.len() == 9);
            assert("feature"@.len() == 7 && "component"@.len() == 9);
            assert("feature"@.len() == 7 && "source_unit"@.len() == 11);
            assert("feature"@.len() == 7 && "symbol"@.len() == 6);
            assert("feature"@.len() == 7 && "doc"@.len() == 3);
            assert("feature"@.len() == 7 && "test"@.len() == 4);
            assert("feature"@.len() == 7 && "bench"@.len() == 5);
            assert("feature"@.len() == 7 && "task"@.len() == 4);
            assert("feature"@.len() == 7 && "containerized"@.len() == 13);
            assert("feature"@.len() == 7 && "infra_root"@.len() == 10);
            assert("feature"@[0] == 'f' && "command"@[0] == 'c');
        },
        EntityKind::ContentPage => {
            reveal_strlit("repo");
            reveal_strlit("directory");
            reveal_strlit("component");
            reveal_strlit("source_unit");
            reveal_strlit("symbol");
            reveal_strlit("doc");
            reveal_strlit("test");
            reveal_strlit("bench");
            reveal_strlit("task");
            reveal_strlit("containerized");
            reveal_strlit("infra_root");
            reveal_strlit("command");
            reveal_strlit("feature");
            reveal_strlit("content_page");
            assert("content_page"@.len() == 12 && "repo"@.len() == 4);
            assert("content_page"@.len() == 12 && "directory"@.len() == 9);
            assert("content_page"@.len() == 12 && "component"@.len() == 9);
            assert("content_page"@.len() == 12 && "source_unit"@.len() == 11);
            assert("content_page"@.len() == 12 && "symbol"@.len() == 6);
            assert("content_page"@.len() == 12 && "doc"@.len() == 3);
            assert("content_page"@.len() == 12 && "test"@.len() == 4);
            assert("content_page"@.len() == 12 && "bench"@.len() == 5);
            assert("content_page"@.len() == 12 && "task"@.len() == 4);
            assert("content_page"@.len() == 12 && "containerized"@.len() == 13);
            assert("content_page"@.len() == 12 && "infra_root"@.len() == 10);
            assert("content_page"@.len() == 12 && "command"@.len() == 7);
            assert("content_page"@.len() == 12 && "feature"@.len() == 7);
        },
        EntityKind::Template => {
            reveal_strlit("repo");
            reveal_strlit("directory");
            reveal_strlit("component");
            reveal_strlit("source_unit");
            reveal_strlit("symbol");
            reveal_strlit("doc");
            reveal_strlit("test");
            reveal_strlit("bench");
            reveal_strlit("task");
            reveal_strlit("containerized");
            reveal_strlit("infra_root");
            reveal_strlit("command");
            reveal_strlit("feature");
            reveal_strlit("content_page");
            reveal_strlit("template");
            assert("template"@.len() == 8 && "repo"@.len() == 4);
            assert("template"@.len() == 8 && "directory"@.len() == 9);
            assert("template"@.len() == 8 && "component"@.len() == 9);
            assert("template"@.len() == 8 && "source_unit"@.len() == 11);
            assert("template"@.len() == 8 && "symbol"@.len() == 6);
            assert("template"@.len() == 8 && "doc"@.len() == 3);
            assert("template"@.len() == 8 && "test"@.len() == 4);
            assert("template"@.len() == 8 && "bench"@.len() == 5);
            assert("template"@.len() == 8 && "task"@.len() == 4);
            assert("template"@.len() == 8 && "containerized"@.len() == 13);
            assert("template"@.len() == 8 && "infra_root"@.len() == 10);
            assert("template"@.len() == 8 && "command"@.len() == 7);
            assert("template"@.len() == 8 && "feature"@.len() == 7);
            assert("template"@.len() == 8 && "content_page"@.len() == 12);
        },
        EntityKind::Site => {
            reveal_strlit("repo");
            reveal_strlit("directory");
            reveal_strlit("component");
            reveal_strlit("source_unit");
            reveal_strlit("symbol");
            reveal_strlit("doc");
            reveal_strlit("test");
            reveal_strlit("bench");
            reveal_strlit("task");
            reveal_strlit("containerized");
            reveal_strlit("infra_root");
            reveal_strlit("command");
            reveal_strlit("feature");
            reveal_strlit("content_page");
            reveal_strlit("template");
            reveal_strlit("site");
            assert("site"@[0] == 's' && "repo"@[0] == 'r');
            assert("site"@.len() == 4 && "directory"@.len() == 9);
            assert("site"@.len() == 4 && "component"@.len() == 9);
            assert("site"@.len() == 4 && "source_unit"@.len() == 11);
            assert("site"@.len() == 4 && "symbol"@.len() == 6);
            assert("site"@.len() == 4 && "doc"@.len() == 3);
            assert("site"@[0] == 's' && "test"@[0] == 't');
            assert("site"@.len() == 4 && "bench"@.len() == 5);
            assert("site"@[0] == 's' && "task"@[0] == 't');
            assert("site"@.len() == 4 && "containerized"@.len() == 13);
            assert("site"@.len() == 4 && "infra_root"@.len() == 10);
            assert("site"@.len() == 4 && "command"@.len() == 7);
            assert("site"@.len() == 4 && "feature"@.len() == 7);
            assert("site"@.len() == 4 && "content_page"@.len() == 12);
            assert("site"@.len() == 4 && "template"@.len() == 8);
        },
        EntityKind::Migration => {
            reveal_strlit("repo");
            reveal_strlit("directory");
            reveal_strlit("component");
            reveal_strlit("source_unit");
            reveal_strlit("symbol");
            reveal_strlit("doc");
            reveal_strlit("test");
            reveal_strlit("bench");
            reveal_strlit("task");
            reveal_strlit("containerized");
            reveal_strlit("infra_root");
            reveal_strlit("command");
            reveal_strlit("feature");
            reveal_strlit("content_page");
            reveal_strlit("template");
            reveal_strlit("site");
            reveal_strlit("migration");
            assert("migration"@.len() == 9 && "repo"@.len() == 4);
            assert("migration"@[0] == 'm' && "directory"@[0] == 'd');
            assert("migration"@[0] == 'm' && "component"@[0] == 'c');
            assert("migration"@.len() == 9 && "source_unit"@.len() == 11);
            assert("migration"@.len() == 9 && "symbol"@.len() == 6);
            assert("migration"@.len() == 9 && "doc"@.len() == 3);
            assert("migration"@.len() == 9 && "test"@.len() == 4);
            assert("migration"@.len() == 9 && "bench"@.len() == 5);
            assert("migration"@.len() == 9 && "task"@.len() == 4);
            assert("migration"@.len() == 9 && "containerized"@.len() == 13);
            assert("migration"@.len() == 9 && "infra_root"@.len() == 10);
            assert("migration"@.len() == 9 && "command"@.len() == 7);
            assert("migration"@.len() == 9 && "feature"@.len() == 7);
            assert("migration"@.len() == 9 && "content_page"@.len() == 12);
            assert("migration"@.len() == 9 && "template"@.len() == 8);
            assert("migration"@.len() == 9 && "site"@.len() == 4);
        },
        EntityKind::Spec => {
            reveal_strlit("repo");
            reveal_strlit("directory");
            reveal_strlit("component");
            reveal_strlit("source_unit");
            reveal_strlit("symbol");
            reveal_strlit("doc");
            reveal_strlit("test");
            reveal_strlit("bench");
            reveal_strlit("task");
            reveal_strlit("containerized");
            reveal_strlit("infra_root");
            reveal_strlit("command");
            reveal_strlit("feature");
            reveal_strlit("content_page");
            reveal_strlit("template");
            reveal_strlit("site");
            reveal_strlit("migration");
            reveal_strlit("spec");
            assert("spec"@[0] == 's' && "repo"@[0] == 'r');
            assert("spec"@.len() == 4 && "directory"@.len() == 9);
            assert("spec"@.len() == 4 && "component"@.len() == 9);
            assert("spec"@.len() == 4 && "source_unit"@.len() == 11);
            assert("spec"@.len() == 4 && "symbol"@.len() == 6);
            assert("spec"@.len() == 4 && "doc"@.len() == 3);
            assert("spec"@[0] == 's' && "test"@[0] == 't');
            assert("spec"@.len() == 4 && "bench"@.len() == 5);
            assert("spec"@[0] == 's' && "task"@[0] == 't');
            assert("spec"@.len() == 4 && "containerized"@.len() == 13);
            assert("spec"@.len() == 4 && "infra_root"@.len() == 10);
            assert("spec"@.len() == 4 && "command"@.len() == 7);
            assert("spec"@.len() == 4 && "feature"@.len() == 7);
            assert("spec"@.len() == 4 && "content_page"@.len() == 12);
            assert("spec"@.len() == 4 && "template"@.len() == 8);
            assert("spec"@[1] == 'p' && "site"@[1] == 'i');
            assert("spec"@.len() == 4 && "migration"@.len() == 9);
        },
        EntityKind::Workflow => {
            reveal_strlit("repo");
            reveal_strlit("directory");
            reveal_strlit("component");
            reveal_strlit("source_unit");
            reveal_strlit("symbol");
            reveal_strlit("doc");
            reveal_strlit("test");
            reveal_strlit("bench");
            reveal_strlit("task");
            reveal_strlit("containerized");
            reveal_strlit("infra_root");
            reveal_strlit("command");
            reveal_strlit("feature");
            reveal_strlit("content_page");
            reveal_strlit("template");
            reveal_strlit("site");
            reveal_strlit("migration");
            reveal_strlit("spec");
            reveal_strlit("workflow");
            assert("workflow"@.len() == 8 && "repo"@.len() == 4);
            assert("workflow"@.len() == 8 && "directory"@.len() == 9);
            assert("workflow"@.len() == 8 && "component"@.len() == 9);
            assert("workflow"@.len() == 8 && "source_unit"@.len() == 11);
            assert("workflow"@.len() == 8 && "symbol"@.len() == 6);
            assert("workflow"@.len() == 8 && "doc"@.len() == 3);
            assert("workflow"@.len() == 8 && "test"@.len() == 4);
            assert("workflow"@.len() == 8 && "bench"@.len() == 5);
            assert("workflow"@.len() == 8 && "task"@.len() == 4);
            assert("workflow"@.len() == 8 && "containerized"@.len() == 13);
            assert("workflow"@.len() == 8 && "infra_root"@.len() == 10);
            assert("workflow"@.len() == 8 && "command"@.len() == 7);
            assert("workflow"@.len() == 8 && "feature"@.len() == 7);
            assert("workflow"@.len() == 8 && "content_page"@.len() == 12);
            assert("workflow"@[0] == 'w' && "template"@[0] == 't');
            assert("workflow"@.len() == 8 && "site"@.len() == 4);
            assert("workflow"@.len() == 8 && "migration"@.len() == 9);
            assert("workflow"@.len() == 8 && "spec"@.len() == 4);
        },
        EntityKind::AgentConfig => {
            reveal_strlit("repo");
            reveal_strlit("directory");
            reveal_strlit("component");
            reveal_strlit("source_unit");
            reveal_strlit("symbol");
            reveal_strlit("doc");
            reveal_strlit("test");
            reveal_strlit("bench");
            reveal_strlit("task");
            reveal_strlit("containerized");
            reveal_strlit("infra_root");
            reveal_strlit("command");
            reveal_strlit("feature");
            reveal_strlit("content_page");
            reveal_strlit("template");
            reveal_strlit("site");
            reveal_strlit("migration");
            reveal_strlit("spec");
            reveal_strlit("workflow");
            reveal_strlit("agent_config");
            assert("agent_config"@.len() == 12 && "repo"@.len() == 4);
            assert("agent_config"@.len() == 12 && "directory"@.len() == 9);
            assert("agent_config"@.len() == 12 && "component"@.len() == 9);
            assert("agent_config"@.len() == 12 && "source_unit"@.len() == 11);
            assert("agent_config"@.len() == 12 && "symbol"@.len() == 6);
            assert("agent_config"@.len() == 12 && "doc"@.len() == 3);
            assert("agent_config"@.len() == 12 && "test"@.len() == 4);
            assert("agent_config"@.len() == 12 && "bench"@.len() == 5);
            assert("agent_config"@.len() == 12 && "task"@.len() == 4);
            assert("agent_config"@.len() == 12 && "containerized"@.len() == 13);
            assert("agent_config"@.len() == 12 && "infra_root"@.len() == 10);
            assert("agent_config"@.len() == 12 && "command"@.len() == 7);
            assert("agent_config"@.len() == 12 && "feature"@.len() == 7);
            assert("agent_config"@[0] == 'a' && "content_page"@[0] == 'c');
            assert("agent_config"@.len() == 12 && "template"@.len() == 8);
            assert("agent_config"@.len() == 12 && "site"@.len() == 4);
            assert("agent_config"@.len() == 12 && "migration"@.len() == 9);
            assert("agent_config"@.len() == 12 && "spec"@.len() == 4);
            assert("agent_config"@.len() == 12 && "workflow"@.len() == 8);
        },
    }
}

/// A name parses to a kind only if it is exactly that kind's name.
pub proof fn lemma_entity_kind_parse_exact(s: Seq<char>)
    ensures
        parse_entity_kind(s) matches Some(k) ==> entity_kind_name(k) == s,
{
}

/// Distinct kinds have distinct names.
pub proof fn lemma_entity_kind_names_distinct(a: EntityKind, b: EntityKind)
    ensures
        entity_kind_name(a) == entity_kind_name(b) ==> a == b,
{
    lemma_entity_kind_round_trip(a);
    lemma_entity_kind_round_trip(b);
}


/// A node of the repository graph.
#[derive(Debug, Clone, PartialEq, Eq)]
pub struct Entity {
    pub id: String,
    pub kind: EntityKind,
    pub name: String,
    pub component_id: Option<String>,
    pub path: Option<String>,
    pub language: Option<String>,
    pub line_start: Option<i64>,
    pub line_end: Option<i64>,
    pub visibility: Option<String>,
    pub exported: bool,
}

/// The text of an optional string.
pub open spec fn opt_view(o: Option<String>) -> Option<Seq<char>> {
    match o {
        Some(s) => Some(s@),
        None => None,
    }
}

/// An entity with its texts as character sequences.
pub struct EntityView {
    pub id: Seq<char>,
    pub kind: EntityKind,
    pub name: Seq<char>,
    pub component_id: Option<Seq<char>>,
    pub path: Option<Seq<char>>,
    pub language: Option<Seq<char>>,
    pub line_start: Option<i64>,
    pub line_end: Option<i64>,
    pub visibility: Option<Seq<char>>,
    pub exported: bool,
}

impl View for Entity {
    type V = EntityView;

    open spec fn view(&self) -> EntityView {
        EntityView {
            id: self.id@,
            kind: self.kind,
            name: self.name@,
            component_id: opt_view(self.component_id),
            path: opt_view(self.path),
            language: opt_view(self.language),
            line_start: self.line_start,
            line_end: self.line_end,
            visibility: opt_view(self.visibility),
            exported: self.exported,
        }
    }
}

/// The views of a sequence of entities.
pub open spec fn entity_views(v: Seq<Entity>) -> Seq<EntityView> {
    v.map_values(|e: Entity| e@)
}

} // verus!
