//! Heuristic classification of a query into a task category.

use vstd::prelude::*;
use crate::model::entity::EntityKind;
use crate::text::{
    all_ascii, ascii_lower_seq, chars_of, contains_chars, contains_seq, lowercase, owned, push_str, str_eq, to_lowercase,
};

verus! {

/// What a query asks for.
#[derive(Debug, Clone, Copy, PartialEq, Eq, Hash, Structural)]
pub enum TaskCategory {
    Understand,
    Debug,
    Build,
    Test,
    Deploy,
    Configure,
    General,
}

/// The lowercased query mentions a keyword. Keywords hold no white space,
/// so an occurrence in the text is an occurrence inside one of its words.
pub open spec fn mentions(lower: Seq<char>, kw: Seq<char>) -> bool {
    contains_seq(lower, kw)
}

/// The category of an already lowercased query; the first matching group
/// of keywords wins, in the order debug, test, deploy, configure, build,
/// understand.
pub open spec fn classify_lowered_spec(l: Seq<char>) -> TaskCategory {
    if mentions(l, "fix"@) || mentions(l, "bug"@) || mentions(l, "error"@) || mentions(l, "crash"@)
        || mentions(l, "panic"@) {
        TaskCategory::Debug
    } else if mentions(l, "test"@) || mentions(l, "coverage"@) || mentions(l, "bench"@) {
        TaskCategory::Test
    } else if mentions(l, "deploy"@) || mentions(l, "release"@) || mentions(l, "ci"@) || mentions(
        l,
        "infra"@,
    ) {
        TaskCategory::Deploy
    } else if mentions(l, "config"@) || mentions(l, "setup"@) || mentions(l, "environment"@) {
        TaskCategory::Configure
    } else if mentions(l, "add"@) || mentions(l, "implement"@) || mentions(l, "create"@)
        || mentions(l, "feature"@) {
        TaskCategory::Build
    } else if mentions(l, "how"@) || mentions(l, "what"@) || mentions(l, "explain"@) || mentions(
        l,
        "architecture"@,
    ) || mentions(l, "understand"@) {
        TaskCategory::Understand
    } else {
        TaskCategory::General
    }
}

/// The name of a category.
pub open spec fn category_name(c: TaskCategory) -> Seq<char> {
    match c {
        TaskCategory::Understand => "understand"@,
        TaskCategory::Debug => "debug"@,
        TaskCategory::Build => "build"@,
        TaskCategory::Test => "test"@,
        TaskCategory::Deploy => "deploy"@,
        TaskCategory::Configure => "configure"@,
        TaskCategory::General => "general"@,
    }
}

/// The category named `s` (already lowercased), if any.
pub open spec fn parse_category_spec(s: Seq<char>) -> Option<TaskCategory> {
    if s == "understand"@ {
        Some(TaskCategory::Understand)
    } else if s == "debug"@ {
        Some(TaskCategory::Debug)
    } else if s == "build"@ {
        Some(TaskCategory::Build)
    } else if s == "test"@ {
        Some(TaskCategory::Test)
    } else if s == "deploy"@ {
        Some(TaskCategory::Deploy)
    } else if s == "configure"@ {
        Some(TaskCategory::Configure)
    } else if s == "general"@ {
        Some(TaskCategory::General)
    } else {
        None
    }
}

/// The task-route names consulted for a category.
pub open spec fn route_names_spec(c: TaskCategory) -> Seq<Seq<char>> {
    match c {
        TaskCategory::Understand => seq!["understand"@, "architecture"@],
        TaskCategory::Debug => seq!["debug"@, "fix"@],
        TaskCategory::Build => seq!["build"@, "implement"@],
        TaskCategory::Test => seq!["test"@, "bench"@],
        TaskCategory::Deploy => seq!["deploy"@, "release"@],
        TaskCategory::Configure => seq!["configure"@, "setup"@],
        TaskCategory::General => seq![],
    }
}

/// The entity kinds that receive a rerank boost for a category.
pub open spec fn preferred_kinds_spec(c: TaskCategory) -> Seq<EntityKind> {
    match c {
        TaskCategory::Understand => seq![
            EntityKind::Component,
            EntityKind::SourceUnit,
            EntityKind::Doc,
            EntityKind::Symbol,
            EntityKind::ContentPage,
            EntityKind::AgentConfig,
        ],
        TaskCategory::Debug => seq![
            EntityKind::SourceUnit,
            EntityKind::Symbol,
            EntityKind::Test,
            EntityKind::Spec,
        ],
        TaskCategory::Build => seq![
            EntityKind::Component,
            EntityKind::SourceUnit,
            EntityKind::Symbol,
            EntityKind::Feature,
            EntityKind::Template,
            EntityKind::Migration,
        ],
        TaskCategory::Test => seq![
            EntityKind::Test,
            EntityKind::Bench,
            EntityKind::SourceUnit,
            EntityKind::Spec,
        ],
        TaskCategory::Deploy => seq![
            EntityKind::Containerized,
            EntityKind::InfraRoot,
            EntityKind::Task,
            EntityKind::Command,
            EntityKind::Site,
        ],
        TaskCategory::Configure => seq![
            EntityKind::Component,
            EntityKind::Feature,
            EntityKind::InfraRoot,
            EntityKind::AgentConfig,
            EntityKind::Workflow,
        ],
        TaskCategory::General => seq![
            EntityKind::Component,
            EntityKind::SourceUnit,
            EntityKind::Symbol,
        ],
    }
}

fn mentions_exec(l: &Vec<char>, kw: &str) -> (res: bool)
    ensures
        res == mentions(l@, kw@),
{
    let k = chars_of(kw);
    contains_chars(l, &k)
}

/// Builds a vector from string literals, keeping their views.
fn static_strs2(a: &'static str, b: &'static str) -> (res: Vec<&'static str>)
    ensures
        res@.len() == 2,
        res@[0]@ == a@,
        res@[1]@ == b@,
{
    let mut v = Vec::new();
    v.push(a);
    v.push(b);
    v
}

impl TaskCategory {
    /// Classifies a query by keyword matching on its lowercased text.
    pub fn classify(query: &str) -> (res: TaskCategory)
        ensures
            res == classify_lowered_spec(lowercase(query@)),
            all_ascii(query@) ==> res == classify_lowered_spec(ascii_lower_seq(query@)),
    {
        let lower = to_lowercase(query);
        Self::classify_lowered(lower.as_str())
    }

    /// Classifies a query that is already lowercased.
    pub fn classify_lowered(lower: &str) -> (res: TaskCategory)
        ensures
            res == classify_lowered_spec(lower@),
    {
        let l = chars_of(lower);
        if mentions_exec(&l, "fix") || mentions_exec(&l, "bug") || mentions_exec(&l, "error")
            || mentions_exec(&l, "crash") || mentions_exec(&l, "panic") {
            TaskCategory::Debug
        } else if mentions_exec(&l, "test") || mentions_exec(&l, "coverage") || mentions_exec(
            &l,
            "bench",
        ) {
            TaskCategory::Test
        } else if mentions_exec(&l, "deploy") || mentions_exec(&l, "release") || mentions_exec(
            &l,
            "ci",
        ) || mentions_exec(&l, "infra") {
            TaskCategory::Deploy
        } else if mentions_exec(&l, "config") || mentions_exec(&l, "setup") || mentions_exec(
            &l,
            "environment",
        ) {
            TaskCategory::Configure
        } else if mentions_exec(&l, "add") || mentions_exec(&l, "implement") || mentions_exec(
            &l,
            "create",
        ) || mentions_exec(&l, "feature") {
            TaskCategory::Build
        } else if mentions_exec(&l, "how") || mentions_exec(&l, "what") || mentions_exec(
            &l,
            "explain",
        ) || mentions_exec(&l, "architecture") || mentions_exec(&l, "understand") {
            TaskCategory::Understand
        } else {
            TaskCategory::General
        }
    }

    /// The task-route names associated with this category.
    pub fn route_names(&self) -> (res: Vec<&'static str>)
        ensures
            res@.len() == route_names_spec(*self).len(),
            forall|i: int| 0 <= i < res@.len() ==> #[trigger] res@[i]@ == route_names_spec(*self)[i],
    {
        match self {
            TaskCategory::Understand => static_strs2("understand", "architecture"),
            TaskCategory::Debug => static_strs2("debug", "fix"),
            TaskCategory::Build => static_strs2("build", "implement"),
            TaskCategory::Test => static_strs2("test", "bench"),
            TaskCategory::Deploy => static_strs2("deploy", "release"),
            TaskCategory::Configure => static_strs2("configure", "setup"),
            TaskCategory::General => Vec::new(),
        }
    }

    /// The entity kinds that should receive a rerank boost for this category.
    pub fn preferred_kinds(&self) -> (res: Vec<EntityKind>)
        ensures
            res@ == preferred_kinds_spec(*self),
    {
        let v = match self {
            TaskCategory::Understand => vec![
                EntityKind::Component,
                EntityKind::SourceUnit,
                EntityKind::Doc,
                EntityKind::Symbol,
                EntityKind::ContentPage,
                EntityKind::AgentConfig,
            ],
            TaskCategory::Debug => vec![
                EntityKind::SourceUnit,
                EntityKind::Symbol,
                EntityKind::Test,
                EntityKind::Spec,
            ],
            TaskCategory::Build => vec![
                EntityKind::Component,
                EntityKind::SourceUnit,
                EntityKind::Symbol,
                EntityKind::Feature,
                EntityKind::Template,
                EntityKind::Migration,
            ],
            TaskCategory::Test => vec![
                EntityKind::Test,
                EntityKind::Bench,
                EntityKind::SourceUnit,
                EntityKind::Spec,
            ],
            TaskCategory::Deploy => vec![
                EntityKind::Containerized,
                EntityKind::InfraRoot,
                EntityKind::Task,
                EntityKind::Command,
                EntityKind::Site,
            ],
            TaskCategory::Configure => vec![
                EntityKind::Component,
                EntityKind::Feature,
                EntityKind::InfraRoot,
                EntityKind::AgentConfig,
                EntityKind::Workflow,
            ],
            TaskCategory::General => vec![
                EntityKind::Component,
                EntityKind::SourceUnit,
                EntityKind::Symbol,
            ],
        };
        assert(v@ == preferred_kinds_spec(*self));
        v
    }

    /// The name of this category.
    pub fn as_str(&self) -> (res: &'static str)
        ensures
            res@ == category_name(*self),
    {
        match self {
            TaskCategory::Understand => "understand",
            TaskCategory::Debug => "debug",
            TaskCategory::Build => "build",
            TaskCategory::Test => "test",
            TaskCategory::Deploy => "deploy",
            TaskCategory::Configure => "configure",
            TaskCategory::General => "general",
        }
    }

    /// The name of this category as an owned string (what `Display` prints).
    pub fn to_string(&self) -> (res: String)
        ensures
            res@ == category_name(*self),
    {
        owned(self.as_str())
    }

    /// Parses a category name, ignoring case. The error names the input
    /// and lists the valid values.
    pub fn parse_name(s: &str) -> (res: Result<TaskCategory, String>)
        ensures
            match parse_category_spec(lowercase(s@)) {
                Some(c) => res == Ok::<TaskCategory, String>(c),
                None => res matches Err(e) && e@ == invalid_category_message(s@),
            },
            all_ascii(s@) ==> match parse_category_spec(ascii_lower_seq(s@)) {
                Some(c) => res == Ok::<TaskCategory, String>(c),
                None => res matches Err(e) && e@ == invalid_category_message(s@),
            },
    {
        let lower = to_lowercase(s);
        match Self::parse_lowered(lower.as_str()) {
            Some(c) => Ok(c),
            None => {
                let mut msg = owned("invalid category '");
                push_str(&mut msg, s);
                push_str(
                    &mut msg,
                    "'. Valid values: understand, debug, build, test, deploy, configure, general",
                );
                Err(msg)
            },
        }
    }

    /// The category named exactly `s`.
    pub fn parse_lowered(s: &str) -> (res: Option<TaskCategory>)
        ensures
            res == parse_category_spec(s@),
    {
        if str_eq(s, "understand") {
            Some(TaskCategory::Understand)
        } else if str_eq(s, "debug") {
            Some(TaskCategory::Debug)
        } else if str_eq(s, "build") {
            Some(TaskCategory::Build)
        } else if str_eq(s, "test") {
            Some(TaskCategory::Test)
        } else if str_eq(s, "deploy") {
            Some(TaskCategory::Deploy)
        } else if str_eq(s, "configure") {
            Some(TaskCategory::Configure)
        } else if str_eq(s, "general") {
            Some(TaskCategory::General)
        } else {
            None
        }
    }
}

/// The error text for an unknown category name.
pub open spec fn invalid_category_message(s: Seq<char>) -> Seq<char> {
    "invalid category '"@ + s
        + "'. Valid values: understand, debug, build, test, deploy, configure, general"@
}

impl std::str::FromStr for TaskCategory {
    type Err = String;

    fn from_str(s: &str) -> (res: Result<TaskCategory, String>)
        ensures
            match parse_category_spec(lowercase(s@)) {
                Some(c) => res == Ok::<TaskCategory, String>(c),
                None => res matches Err(e) && e@ == invalid_category_message(s@),
            },
            all_ascii(s@) ==> match parse_category_spec(ascii_lower_seq(s@)) {
                Some(c) => res == Ok::<TaskCategory, String>(c),
                None => res matches Err(e) && e@ == invalid_category_message(s@),
            },
    {
        TaskCategory::parse_name(s)
    }
}

/// Naming a category and parsing the name gives the category back.
pub proof fn lemma_category_round_trip(c: TaskCategory)
    ensures
        parse_category_spec(category_name(c)) == Some(c),
{
    match c {
        TaskCategory::Understand => {
            reveal_strlit("understand");
        },
        TaskCategory::Debug => {
            reveal_strlit("understand");
            reveal_strlit("debug");
            assert("debug"@.len() == 5 && "understand"@.len() == 10);
        },
        TaskCategory::Build => {
            reveal_strlit("understand");
            reveal_strlit("debug");
            reveal_strlit("build");
            assert("build"@.len() == 5 && "understand"@.len() == 10);
            assert("build"@[0] == 'b' && "debug"@[0] == 'd');
        },
        TaskCategory::Test => {
            reveal_strlit("understand");
            reveal_strlit("debug");
            reveal_strlit("build");
            reveal_strlit("test");
            assert("test"@.len() == 4 && "understand"@.len() == 10);
            assert("test"@.len() == 4 && "debug"@.len() == 5);
            assert("test"@.len() == 4 && "build"@.len() == 5);
        },
        TaskCategory::Deploy => {
            reveal_strlit("understand");
            reveal_strlit("debug");
            reveal_strlit("build");
            reveal_strlit("test");
            reveal_strlit("deploy");
            assert("deploy"@.len() == 6 && "understand"@.len() == 10);
            assert("deploy"@.len() == 6 && "debug"@.len() == 5);
            assert("deploy"@.len() == 6 && "build"@.len() == 5);
            assert("deploy"@.len() == 6 && "test"@.len() == 4);
        },
        TaskCategory::Configure => {
            reveal_strlit("understand");
            reveal_strlit("debug");
            reveal_strlit("build");
            reveal_strlit("test");
            reveal_strlit("deploy");
            reveal_strlit("configure");
            assert("configure"@.len() == 9 && "understand"@.len() == 10);
            assert("configure"@.len() == 9 && "debug"@.len() == 5);
            assert("configure"@.len() == 9 && "build"@.len() == 5);
            assert("configure"@.len() == 9 && "test"@.len() == 4);
            assert("configure"@.len() == 9 && "deploy"@.len() == 6);
        },
        TaskCategory::General => {
            reveal_strlit("understand");
            reveal_strlit("debug");
            reveal_strlit("build");
            reveal_strlit("test");
            reveal_strlit("deploy");
            reveal_strlit("configure");
            reveal_strlit("general");
            assert("general"@.len() == 7 && "understand"@.len() == 10);
            assert("general"@.len() == 7 && "debug"@.len() == 5);
            assert("general"@.len() == 7 && "build"@.len() == 5);
            assert("general"@.len() == 7 && "test"@.len() == 4);
            assert("general"@.len() == 7 && "deploy"@.len() == 6);
            assert("general"@.len() == 7 && "configure"@.len() == 9);
        },
    }
}

/// Category names are lowercase ASCII.
pub proof fn lemma_category_name_is_lowercase_ascii(c: TaskCategory)
    ensures
        all_ascii(category_name(c)),
        ascii_lower_seq(category_name(c)) == category_name(c),
{
    reveal_strlit("understand");
    reveal_strlit("debug");
    reveal_strlit("build");
    reveal_strlit("test");
    reveal_strlit("deploy");
    reveal_strlit("configure");
    reveal_strlit("general");
    assert(ascii_lower_seq(category_name(c)) =~= category_name(c));
}

/// A category's name, written in any mix of ASCII upper and lower case,
/// parses back to the category: `parse_name` and `from_str` give `Ok(c)`
/// for it.
pub proof fn lemma_category_parses_from_its_name(c: TaskCategory, s: Seq<char>)
    requires
        all_ascii(s),
        ascii_lower_seq(s) == category_name(c),
    ensures
        parse_category_spec(ascii_lower_seq(s)) == Some(c),
{
    lemma_category_round_trip(c);
}

/// The keyword groups of classification are tried in a fixed priority
/// order (debug, test, deploy, configure, build, understand): a lowercased
/// query falls in the first group one of whose keywords occurs in it,
/// whatever keywords of later groups it also holds, and in `General` when
/// none occurs.
pub proof fn lemma_classify_priority(l: Seq<char>)
    ensures
        ({
            let debug = contains_seq(l, "fix"@) || contains_seq(l, "bug"@) || contains_seq(l, "error"@)
                || contains_seq(l, "crash"@) || contains_seq(l, "panic"@);
            let test = contains_seq(l, "test"@) || contains_seq(l, "coverage"@) || contains_seq(l, "bench"@);
            let deploy = contains_seq(l, "deploy"@) || contains_seq(l, "release"@) || contains_seq(l, "ci"@)
                || contains_seq(l, "infra"@);
            let configure = contains_seq(l, "config"@) || contains_seq(l, "setup"@) || contains_seq(
                l,
                "environment"@,
            );
            let build = contains_seq(l, "add"@) || contains_seq(l, "implement"@) || contains_seq(l, "create"@)
                || contains_seq(l, "feature"@);
            let understand = contains_seq(l, "how"@) || contains_seq(l, "what"@) || contains_seq(l, "explain"@)
                || contains_seq(l, "architecture"@) || contains_seq(l, "understand"@);
            let c = classify_lowered_spec(l);
            &&& debug ==> c == TaskCategory::Debug
            &&& !debug && test ==> c == TaskCategory::Test
            &&& !debug && !test && deploy ==> c == TaskCategory::Deploy
            &&& !debug && !test && !deploy && configure ==> c == TaskCategory::Configure
            &&& !debug && !test && !deploy && !configure && build ==> c == TaskCategory::Build
            &&& !debug && !test && !deploy && !configure && !build && understand ==> c
                == TaskCategory::Understand
            &&& !debug && !test && !deploy && !configure && !build && !understand ==> c
                == TaskCategory::General
        }),
{
}

} // verus!
