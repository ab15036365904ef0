//! Edges of the repository graph and their kinds.

use vstd::prelude::*;
use crate::text::str_eq;

verus! {

/// The relation an edge stands for.
#[derive(Debug, Clone, Copy, PartialEq, Eq, Hash, Structural)]
pub enum EdgeKind {
    Contains,
    Defines,
    DependsOn,
    Reexports,
    DocumentedBy,
    TestedBy,
    BenchmarkedBy,
    RelatedTo,
    ConfiguredBy,
    Builds,
    Deploys,
    Implements,
    OwnsTask,
    DeclaresFeature,
    FeatureEnables,
    Mentions,
    Migrates,
    Specifies,
    Renders,
}

/// The stable snake_case name of an edge kind.
pub open spec fn edge_kind_name(k: EdgeKind) -> Seq<char> {
    match k {
        EdgeKind::Contains => "contains"@,
        EdgeKind::Defines => "defines"@,
        EdgeKind::DependsOn => "depends_on"@,
        EdgeKind::Reexports => "reexports"@,
        EdgeKind::DocumentedBy => "documented_by"@,
        EdgeKind::TestedBy => "tested_by"@,
        EdgeKind::BenchmarkedBy => "benchmarked_by"@,
        EdgeKind::RelatedTo => "related_to"@,
        EdgeKind::ConfiguredBy => "configured_by"@,
        EdgeKind::Builds => "builds"@,
        EdgeKind::Deploys => "deploys"@,
        EdgeKind::Implements => "implements"@,
        EdgeKind::OwnsTask => "owns_task"@,
        EdgeKind::DeclaresFeature => "declares_feature"@,
        EdgeKind::FeatureEnables => "feature_enables"@,
        EdgeKind::Mentions => "mentions"@,
        EdgeKind::Migrates => "migrates"@,
        EdgeKind::Specifies => "specifies"@,
        EdgeKind::Renders => "renders"@,
    }
}

/// The edge kind whose name is `s`, if any.
pub open spec fn parse_edge_kind(s: Seq<char>) -> Option<EdgeKind> {
    if s == "contains"@ {
        Some(EdgeKind::Contains)
    } else if s == "defines"@ {
        Some(EdgeKind::Defines)
    } else if s == "depends_on"@ {
        Some(EdgeKind::DependsOn)
    } else if s == "reexports"@ {
        Some(EdgeKind::Reexports)
    } else if s == "documented_by"@ {
        Some(EdgeKind::DocumentedBy)
    } else if s == "tested_by"@ {
        Some(EdgeKind::TestedBy)
    } else if s == "benchmarked_by"@ {
        Some(EdgeKind::BenchmarkedBy)
    } else if s == "related_to"@ {
        Some(EdgeKind::RelatedTo)
    } else if s == "configured_by"@ {
        Some(EdgeKind::ConfiguredBy)
    } else if s == "builds"@ {
        Some(EdgeKind::Builds)
    } else if s == "deploys"@ {
        Some(EdgeKind::Deploys)
    } else if s == "implements"@ {
        Some(EdgeKind::Implements)
    } else if s == "owns_task"@ {
        Some(EdgeKind::OwnsTask)
    } else if s == "declares_feature"@ {
        Some(EdgeKind::DeclaresFeature)
    } else if s == "feature_enables"@ {
        Some(EdgeKind::FeatureEnables)
    } else if s == "mentions"@ {
        Some(EdgeKind::Mentions)
    } else if s == "migrates"@ {
        Some(EdgeKind::Migrates)
    } else if s == "specifies"@ {
        Some(EdgeKind::Specifies)
    } else if s == "renders"@ {
        Some(EdgeKind::Renders)
    } else {
        None
    }
}

impl EdgeKind {
    /// The stable name of this kind.
    pub fn as_str(&self) -> (res: &'static str)
        ensures
            res@ == edge_kind_name(*self),
    {
        match self {
            EdgeKind::Contains => "contains",
            EdgeKind::Defines => "defines",
            EdgeKind::DependsOn => "depends_on",
            EdgeKind::Reexports => "reexports",
            EdgeKind::DocumentedBy => "documented_by",
            EdgeKind::TestedBy => "tested_by",
            EdgeKind::BenchmarkedBy => "benchmarked_by",
            EdgeKind::RelatedTo => "related_to",
            EdgeKind::ConfiguredBy => "configured_by",
            EdgeKind::Builds => "builds",
            EdgeKind::Deploys => "deploys",
            EdgeKind::Implements => "implements",
            EdgeKind::OwnsTask => "owns_task",
            EdgeKind::DeclaresFeature => "declares_feature",
            EdgeKind::FeatureEnables => "feature_enables",
            EdgeKind::Mentions => "mentions",
            EdgeKind::Migrates => "migrates",
            EdgeKind::Specifies => "specifies",
            EdgeKind::Renders => "renders",
        }
    }

    /// The kind named `s`; `None` for an unknown name.
    pub fn parse(s: &str) -> (res: Option<EdgeKind>)
        ensures
            res == parse_edge_kind(s@),
    {
        if str_eq(s, "contains") {
            Some(EdgeKind::Contains)
        } else if str_eq(s, "defines") {
            Some(EdgeKind::Defines)
        } else if str_eq(s, "depends_on") {
            Some(EdgeKind::DependsOn)
        } else if str_eq(s, "reexports") {
            Some(EdgeKind::Reexports)
        } else if str_eq(s, "documented_by") {
            Some(EdgeKind::DocumentedBy)
        } else if str_eq(s, "tested_by") {
            Some(EdgeKind::TestedBy)
        } else if str_eq(s, "benchmarked_by") {
            Some(EdgeKind::BenchmarkedBy)
        } else if str_eq(s, "related_to") {
            Some(EdgeKind::RelatedTo)
        } else if str_eq(s, "configured_by") {
            Some(EdgeKind::ConfiguredBy)
        } else if str_eq(s, "builds") {
            Some(EdgeKind::Builds)
        } else if str_eq(s, "deploys") {
            Some(EdgeKind::Deploys)
        } else if str_eq(s, "implements") {
            Some(EdgeKind::Implements)
        } else if str_eq(s, "owns_task") {
            Some(EdgeKind::OwnsTask)
        } else if str_eq(s, "declares_feature") {
            Some(EdgeKind::DeclaresFeature)
        } else if str_eq(s, "feature_enables") {
            Some(EdgeKind::FeatureEnables)
        } else if str_eq(s, "mentions") {
            Some(EdgeKind::Mentions)
        } else if str_eq(s, "migrates") {
            Some(EdgeKind::Migrates)
        } else if str_eq(s, "specifies") {
            Some(EdgeKind::Specifies)
        } else if str_eq(s, "renders") {
            Some(EdgeKind::Renders)
        } else {
            None
        }
    }

    /// The name of this kind as an owned string (what `Display` prints).
    pub fn to_string(&self) -> (res: String)
        ensures
            res@ == edge_kind_name(*self),
    {
        crate::text::owned(self.as_str())
    }
}

/// Parsing the name of an edge kind gives that kind back.
pub proof fn lemma_edge_kind_round_trip(k: EdgeKind)
    ensures
        parse_edge_kind(edge_kind_name(k)) == Some(k),
{
    match k {
        EdgeKind::Contains => {
            reveal_strlit("contains");
        },
        EdgeKind::Defines => {
            reveal_strlit("contains");
            reveal_strlit("defines");
            assert("defines"@.len() == 7 && "contains"@.len() == 8);
        },
        EdgeKind::DependsOn => {
            reveal_strlit("contains");
            reveal_strlit("defines");
            reveal_strlit("depends_on");
            assert("depends_on"@.len() == 10 && "contains"@.len() == 8);
            assert("depends_on"@.len() == 10 && "defines"@.len() == 7);
        },
        EdgeKind::Reexports => {
            reveal_strlit("contains");
            reveal_strlit("defines");
            reveal_strlit("depends_on");
            reveal_strlit("reexports");
            assert("reexports"@.len() == 9 && "contains"@.len() == 8);
            assert("reexports"@.len() == 9 && "defines"@.len() == 7);
            assert("reexports"@.len() == 9 && "depends_on"@.len() == 10);
        },
        EdgeKind::DocumentedBy => {
            reveal_strlit("contains");
            reveal_strlit("defines");
            reveal_strlit("depends_on");
            reveal_strlit("reexports");
            reveal_strlit("documented_by");
            assert("documented_by"@.len() == 13 && "contains"@.len() == 8);
            assert("documented_by"@.len() == 13 && "defines"@.len() == 7);
            assert("documented_by"@.len() == 13 && "depends_on"@.len() == 10);
            assert("documented_by"@.len() == 13 && "reexports"@.len() == 9);
        },
        EdgeKind::TestedBy => {
            reveal_strlit("contains");
            reveal_strlit("defines");
            reveal_strlit("depends_on");
            reveal_strlit("reexports");
            reveal_strlit("documented_by");
            reveal_strlit("tested_by");
            assert("tested_by"@.len() == 9 && "contains"@.len() == 8);
            assert("tested_by"@.len() == 9 && "defines"@.len() == 7);
            assert("tested_by"@.len() == 9 && "depends_on"@.len() == 10);
            assert("tested_by"@[0] == 't' && "reexports"@[0] == 'r');
            assert("tested_by"@.len() == 9 && "documented_by"@.len() == 13);
        },
        EdgeKind::BenchmarkedBy => {
            reveal_strlit("contains");
            reveal_strlit("defines");
            reveal_strlit("depends_on");
            reveal_strlit("reexports");
            reveal_strlit("documented_by");
            reveal_strlit("tested_by");
            reveal_strlit("benchmarked_by");
            assert("benchmarked_by"@.len() == 14 && "contains"@.len() == 8);
            assert("benchmarked_by"@.len() == 14 && "defines"@.len() == 7);
            assert("benchmarked_by"@.len() == 14 && "depends_on"@.len() == 10);
            assert("benchmarked_by"@.len() == 14 && "reexports"@.len() == 9);
            assert("benchmarked_by"@.len() == 14 && "documented_by"@.len() == 13);
            assert("benchmarked_by"@.len() == 14 && "tested_by"@.len() == 9);
        },
        EdgeKind::RelatedTo => {
            reveal_strlit("contains");
            reveal_strlit("defines");
            reveal_strlit("depends_on");
            reveal_strlit("reexports");
            reveal_strlit("documented_by");
            reveal_strlit("tested_by");
            reveal_strlit("benchmarked_by");
            reveal_strlit("related_to");
            assert("related_to"@.len() == 10 && "contains"@.len() == 8);
            assert("related_to"@.len() == 10 && "defines"@.len() == 7);
            assert("related_to"@[0] == 'r' && "depends_on"@[0] == 'd');
            assert("related_to"@.len() == 10 && "reexports"@.len() == 9);
            assert("related_to"@.len() == 10 && "documented_by"@.len() == 13);
            assert("related_to"@.len() == 10 && "tested_by"@.len() == 9);
            assert("related_to"@.len() == 10 && "benchmarked_by"@.len() == 14);
        },
        EdgeKind::ConfiguredBy => {
            reveal_strlit("contains");
            reveal_strlit("defines");
            reveal_strlit("depends_on");
            reveal_strlit("reexports");
            reveal_strlit("documented_by");
            reveal_strlit("tested_by");
            reveal_strlit("benchmarked_by");
            reveal_strlit("related_to");
            reveal_strlit("configured_by");
            assert("configured_by"@.len() == 13 && "contains"@.len() == 8);
            assert("configured_by"@.len() == 13 && "defines"@.len() == 7);
            assert("configured_by"@.len() == 13 && "depends_on"@.len() == 10);
            assert("configured_by"@.len() == 13 && "reexports"@.len() == 9);
            assert("configured_by"@[0] == 'c' && "documented_by"@[0] == 'd');
            assert("configured_by"@.len() == 13 && "tested_by"@.len() == 9);
            assert("configured_by"@.len() == 13 && "benchmarked_by"@.len() == 14);
            assert("configured_by"@.len() == 13 && "related_to"@.len() == 10);
        },
        EdgeKind::Builds => {
            reveal_strlit("contains");
            reveal_strlit("defines");
            reveal_strlit("depends_on");
            reveal_strlit("reexports");
            reveal_strlit("documented_by");
            reveal_strlit("tested_by");
            reveal_strlit("benchmarked_by");
            reveal_strlit("related_to");
            reveal_strlit("configured_by");
            reveal_strlit("builds");
            assert("builds"@.len() == 6 && "contains"@.len() == 8);
            assert("builds"@.len() == 6 && "defines"@.len() == 7);
            assert("builds"@.len() == 6 && "depends_on"@.len() == 10);
            assert("builds"@.len() == 6 && "reexports"@.len() == 9);
            assert("builds"@.len() == 6 && "documented_by"@.len() == 13);
            assert("builds"@.len() == 6 && "tested_by"@.len() == 9);
            assert("builds"@.len() == 6 && "benchmarked_by"@.len() == 14);
            assert("builds"@.len() == 6 && "related_to"@.len() == 10);
            assert("builds"@.len() == 6 && "configured_by"@.len() == 13);
        },
        EdgeKind::Deploys => {
            reveal_strlit("contains");
            reveal_strlit("defines");
            reveal_strlit("depends_on");
            reveal_strlit("reexports");
            reveal_strlit("documented_by");
            reveal_strlit("tested_by");
            reveal_strlit("benchmarked_by");
            reveal_strlit("related_to");
            reveal_strlit("configured_by");
            reveal_strlit("builds");
            reveal_strlit("deploys");
            assert("deploys"@.len() == 7 && "contains"@.len() == 8);
            assert("deploys"@[2] == 'p' && "defines"@[2] == 'f');
            assert("deploys"@.len() == 7 && "depends_on"@.len() == 10);
            assert("deploys"@.len() == 7 && "reexports"@.len() == 9);
            assert("deploys"@.len() == 7 && "documented_by"@.len() == 13);
            assert("deploys"@.len() == 7 && "tested_by"@.len() == 9);
            assert("deploys"@.len() == 7 && "benchmarked_by"@.len() == 14);
            assert("deploys"@.len() == 7 && "related_to"@.len() == 10);
            assert("deploys"@.len() == 7 && "configured_by"@.len() == 13);
            assert("deploys"@.len() == 7 && "builds"@.len() == 6);
        },
        EdgeKind::Implements => {
            reveal_strlit("contains");
            reveal_strlit("defines");
            reveal_strlit("depends_on");
            reveal_strlit("reexports");
            reveal_strlit("documented_by");
            reveal_strlit("tested_by");
            reveal_strlit("benchmarked_by");
            reveal_strlit("related_to");
            reveal_strlit("configured_by");
            reveal_strlit("builds");
            reveal_strlit("deploys");
            reveal_strlit("implements");
            assert("implements"@.len() == 10 && "contains"@.len() == 8);
            assert("implements"@.len() == 10 && "defines"@.len() == 7);
            assert("implements"@[0] == 'i' && "depends_on"@[0] == 'd');
            assert("implements"@.len() == 10 && "reexports"@.len() == 9);
            assert("implements"@.len() == 10 && "documented_by"@.len() == 13);
            assert("implements"@.len() == 10 && "tested_by"@.len() == 9);
            assert("implements"@.len() == 10 && "benchmarked_by"@.len() == 14);
            assert("implements"@[0] == 'i' && "related_to"@[0] == 'r');
            assert("implements"@.len() == 10 && "configured_by"@.len() == 13);
            assert("implements"@.len() == 10 && "builds"@.len() == 6);
            assert("implements"@.len() == 10 && "deploys"@.len() == 7);
        },
        EdgeKind::OwnsTask => {
            reveal_strlit("contains");
            reveal_strlit("defines");
            reveal_strlit("depends_on");
            reveal_strlit("reexports");
            reveal_strlit("documented_by");
            reveal_strlit("tested_by");
            reveal_strlit("benchmarked_by");
            reveal_strlit("related_to");
            reveal_strlit("configured_by");
            reveal_strlit("builds");
            reveal_strlit("deploys");
            reveal_strlit("implements");
            reveal_strlit("owns_task");
            assert("owns_task"@.len() == 9 && "contains"@.len() == 8);
            assert("owns_task"@.len() == 9 && "defines"@.len() == 7);
            assert("owns_task"@.len() == 9 && "depends_on"@.len() == 10);
            assert("owns_task"@[0] == 'o' && "reexports"@[0] == 'r');
            assert("owns_task"@.len() == 9 && "documented_by"@.len() == 13);
            assert("owns_task"@[0] == 'o' && "tested_by"@[0] == 't');
            assert("owns_task"@.len() == 9 && "benchmarked_by"@.len() == 14);
            assert("owns_task"@.len() == 9 && "related_to"@.len() == 10);
            assert("owns_task"@.len() == 9 && "configured_by"@.len() == 13);
            assert("owns_task"@.len() == 9 && "builds"@.len() == 6);
            assert("owns_task"@.len() == 9 && "deploys"@.len() == 7);
            assert("owns_task"@.len() == 9 && "implements"@.len() == 10);
        },
        EdgeKind::DeclaresFeature => {
            reveal_strlit("contains");
            reveal_strlit("defines");
            reveal_strlit("depends_on");
            reveal_strlit("reexports");
            reveal_strlit("documented_by");
            reveal_strlit("tested_by");
            reveal_strlit("benchmarked_by");
            reveal_strlit("related_to");
            reveal_strlit("configured_by");
            reveal_strlit("builds");
            reveal_strlit("deploys");
            reveal_strlit("implements");
            reveal_strlit("owns_task");
            reveal_strlit("declares_feature");
            assert("declares_feature"@.len() == 16 && "contains"@.len() == 8);
            assert("declares_feature"@.len() == 16 && "defines"@.len() == 7);
            assert("declares_feature"@.len() == 16 && "depends_on"@.len() == 10);
            assert("declares_feature"@.len() == 16 && "reexports"@.len() == 9);
            assert("declares_feature"@.len() == 16 && "documented_by"@.len() == 13);
            assert("declares_feature"@.len() == 16 && "tested_by"@.len() == 9);
            assert("declares_feature"@.len() == 16 && "benchmarked_by"@.len() == 14);
            assert("declares_feature"@.len() == 16 && "related_to"@.len() == 10);
            assert("declares_feature"@.len() == 16 && "configured_by"@.len() == 13);
            assert("declares_feature"@.len() == 16 && "builds"@.len() == 6);
            assert("declares_feature"@.len() == 16 && "deploys"@.len() == 7);
            assert("declares_feature"@.len() == 16 && "implements"@.len() == 10);
            assert("declares_feature"@.len() == 16 && "owns_task"@.len() == 9);
        },
        EdgeKind::FeatureEnables => {
            reveal_strlit("contains");
            reveal_strlit("defines");
            reveal_strlit("depends_on");
            reveal_strlit("reexports");
            reveal_strlit("documented_by");
            reveal_strlit("tested_by");
            reveal_strlit("benchmarked_by");
            reveal_strlit("related_to");
            reveal_strlit("configured_by");
            reveal_strlit("builds");
            reveal_strlit("deploys");
            reveal_strlit("implements");
            reveal_strlit("owns_task");
            reveal_strlit("declares_feature");
            reveal_strlit("feature_enables");
            assert("feature_enables"@.len() == 15 && "contains"@.len() == 8);
            assert("feature_enables"@.len() == 15 && "defines"@.len() == 7);
            assert("feature_enables"@.len() == 15 && "depends_on"@.len() == 10);
            assert("feature_enables"@.len() == 15 && "reexports"@.len() == 9);
            assert("feature_enables"@.len() == 15 && "documented_by"@.len() == 13);
            assert("feature_enables"@.len() == 15 && "tested_by"@.len() == 9);
            assert("feature_enables"@.len() == 15 && "benchmarked_by"@.len() == 14);
            assert("feature_enables"@.len() == 15 && "related_to"@.len() == 10);
            assert("feature_enables"@.len() == 15 && "configured_by"@.len() == 13);
            assert("feature_enables"@.len() == 15 && "builds"@.len() == 6);
            assert("feature_enables"@.len() == 15 && "deploys"@.len() == 7);
            assert("feature_enables"@.len() == 15 && "implements"@.len() == 10);
            assert("feature_enables"@.len() == 15 && "owns_task"@.len() == 9);
            assert("feature_enables"@.len() == 15 && "declares_feature"@.len() == 16);
        },
        EdgeKind::Mentions => {
            reveal_strlit("contains");
            reveal_strlit("defines");
            reveal_strlit("depends_on");
            reveal_strlit("reexports");
            reveal_strlit("documented_by");
            reveal_strlit("tested_by");
            reveal_strlit("benchmarked_by");
            reveal_strlit("related_to");
            reveal_strlit("configured_by");
            reveal_strlit("builds");
            reveal_strlit("deploys");
            reveal_strlit("implements");
            reveal_strlit("owns_task");
            reveal_strlit("declares_feature");
            reveal_strlit("feature_enables");
            reveal_strlit("mentions");
            assert("mentions"@[0] == 'm' && "contains"@[0] == 'c');
            assert("mentions"@.len() == 8 && "defines"@.len() == 7);
            assert("mentions"@.len() == 8 && "depends_on"@.len() == 10);
            assert("mentions"@.len() == 8 && "reexports"@.len() == 9);
            assert("mentions"@.len() == 8 && "documented_by"@.len() == 13);
            assert("mentions"@.len() == 8 && "tested_by"@.len() == 9);
            assert("mentions"@.len() == 8 && "benchmarked_by"@.len() == 14);
            assert("mentions"@.len() == 8 && "related_to"@.len() == 10);
            assert("mentions"@.len() == 8 && "configured_by"@.len() == 13);
            assert("mentions"@.len() == 8 && "builds"@.len() == 6);
            assert("mentions"@.len() == 8 && "deploys"@.len() == 7);
            assert("mentions"@.len() == 8 && "implements"@.len() == 10);
            assert("mentions"@.len() == 8 && "owns_task"@.len() == 9);
            assert("mentions"@.len() == 8 && "declares_feature"@.len() == 16);
            assert("mentions"@.len() == 8 && "feature_enables"@.len() == 15);
        },
        EdgeKind::Migrates => {
            reveal_strlit("contains");
            reveal_strlit("defines");
            reveal_strlit("depends_on");
            reveal_strlit("reexports");
            reveal_strlit("documented_by");
            reveal_strlit("tested_by");
            reveal_strlit("benchmarked_by");
            reveal_strlit("related_to");
            reveal_strlit("configured_by");
            reveal_strlit("builds");
            reveal_strlit("deploys");
            reveal_strlit("implements");
            reveal_strlit("owns_task");
            reveal_strlit("declares_feature");
            reveal_strlit("feature_enables");
            reveal_strlit("mentions");
            reveal_strlit("migrates");
            assert("migrates"@[0] == 'm' && "contains"@[0] == 'c');
            assert("migrates"@.len() == 8 && "defines"@.len() == 7);
            assert("migrates"@.len() == 8 && "depends_on"@.len() == 10);
            assert("migrates"@.len() == 8 && "reexports"@.len() == 9);
            assert("migrates"@.len() == 8 && "documented_by"@.len() == 13);
            assert("migrates"@.len() == 8 && "tested_by"@.len() == 9);
            assert("migrates"@.len() == 8 && "benchmarked_by"@.len() == 14);
            assert("migrates"@.len() == 8 && "related_to"@.len() == 10);
            assert("migrates"@.len() == 8 && "configured_by"@.len() == 13);
            assert("migrates"@.len() == 8 && "builds"@.len() == 6);
            assert("migrates"@.len() == 8 && "deploys"@.len() == 7);
            assert("migrates"@.len() == 8 && "implements"@.len() == 10);
            assert("migrates"@.len() == 8 && "owns_task"@.len() == 9);
            assert("migrates"@.len() == 8 && "declares_feature"@.len() == 16);
            assert("migrates"@.len() == 8 && "feature_enables"@.len() == 15);
            assert("migrates"@[1] == 'i' && "mentions"@[1] == 'e');
        },
        EdgeKind::Specifies => {
            reveal_strlit("contains");
            reveal_strlit("defines");
            reveal_strlit("depends_on");
            reveal_strlit("reexports");
            reveal_strlit("documented_by");
            reveal_strlit("tested_by");
            reveal_strlit("benchmarked_by");
            reveal_strlit("related_to");
            reveal_strlit("configured_by");
            reveal_strlit("builds");
            reveal_strlit("deploys");
            reveal_strlit("implements");
            reveal_strlit("owns_task");
            reveal_strlit("declares_feature");
            reveal_strlit("feature_enables");
            reveal_strlit("mentions");
            reveal_strlit("migrates");
            reveal_strlit("specifies");
            assert("specifies"@.len() == 9 && "contains"@.len() == 8);
            assert("specifies"@.len() == 9 && "defines"@.len() == 7);
            assert("specifies"@.len() == 9 && "depends_on"@.len() == 10);
            assert("specifies"@[0] == 's' && "reexports"@[0] == 'r');
            assert("specifies"@.len() == 9 && "documented_by"@.len() == 13);
            assert("specifies"@[0] == 's' && "tested_by"@[0] == 't');
            assert("specifies"@.len() == 9 && "benchmarked_by"@.len() == 14);
            assert("specifies"@.len() == 9 && "related_to"@.len() == 10);
            assert("specifies"@.len() == 9 && "configured_by"@.len() == 13);
            assert("specifies"@.len() == 9 && "builds"@.len() == 6);
            assert("specifies"@.len() == 9 && "deploys"@.len() == 7);
            assert("specifies"@.len() == 9 && "implements"@.len() == 10);
            assert("specifies"@[0] == 's' && "owns_task"@[0] == 'o');
            assert("specifies"@.len() == 9 && "declares_feature"@.len() == 16);
            assert("specifies"@.len() == 9 && "feature_enables"@.len() == 15);
            assert("specifies"@.len() == 9 && "mentions"@.len() == 8);
            assert("specifies"@.len() == 9 && "migrates"@.len() == 8);
        },
        EdgeKind::Renders => {
            reveal_strlit("contains");
            reveal_strlit("defines");
            reveal_strlit("depends_on");
            reveal_strlit("reexports");
            reveal_strlit("documented_by");
            reveal_strlit("tested_by");
            reveal_strlit("benchmarked_by");
            reveal_strlit("related_to");
            reveal_strlit("configured_by");
            reveal_strlit("builds");
            reveal_strlit("deploys");
            reveal_strlit("implements");
            reveal_strlit("owns_task");
            reveal_strlit("declares_feature");
            reveal_strlit("feature_enables");
            reveal_strlit("mentions");
            reveal_strlit("migrates");
            reveal_strlit("specifies");
            reveal_strlit("renders");
            assert("renders"@.len() == 7 && "contains"@.len() == 8);
            assert("renders"@[0] == 'r' && "defines"@[0] == 'd');
            assert("renders"@.len() == 7 && "depends_on"@.len() == 10);
            assert("renders"@.len() == 7 && "reexports"@.len() == 9);
            assert("renders"@.len() == 7 && "documented_by"@.len() == 13);
            assert("renders"@.len() == 7 && "tested_by"@.len() == 9);
            assert("renders"@.len() == 7 && "benchmarked_by"@.len() == 14);
            assert("renders"@.len() == 7 && "related_to"@.len() == 10);
            assert("renders"@.len() == 7 && "configured_by"@.len() == 13);
            assert("renders"@.len() == 7 && "builds"@.len() == 6);
            assert("renders"@[0] == 'r' && "deploys"@[0] == 'd');
            assert("renders"@.len() == 7 && "implements"@.len() == 10);
            assert("renders"@.len() == 7 && "owns_task"@.len() == 9);
            assert("renders"@.len() == 7 && "declares_feature"@.len() == 16);
            assert("renders"@.len() == 7 && "feature_enables"@.len() == 15);
            assert("renders"@.len() == 7 && "mentions"@.len() == 8);
            assert("renders"@.len() == 7 && "migrates"@.len() == 8);
            assert("renders"@.len() == 7 && "specifies"@.len() == 9);
        },
    }
}

/// A name parses to an edge kind only if it is exactly that kind's name.
pub proof fn lemma_edge_kind_parse_exact(s: Seq<char>)
    ensures
        parse_edge_kind(s) matches Some(k) ==> edge_kind_name(k) == s,
{
}

/// Distinct edge kinds have distinct names.
pub proof fn lemma_edge_kind_names_distinct(a: EdgeKind, b: EdgeKind)
    ensures
        edge_kind_name(a) == edge_kind_name(b) ==> a == b,
{
    lemma_edge_kind_round_trip(a);
    lemma_edge_kind_round_trip(b);
}

/// A directed, typed relation between two entities.
#[derive(Debug, Clone, PartialEq, Eq)]
pub struct Edge {
    pub src_id: String,
    pub rel: EdgeKind,
    pub dst_id: String,
    pub provenance_path: Option<String>,
    pub provenance_line: Option<i64>,
}

/// An edge with its texts as character sequences.
pub struct EdgeView {
    pub src_id: Seq<char>,
    pub rel: EdgeKind,
    pub dst_id: Seq<char>,
    pub provenance_path: Option<Seq<char>>,
    pub provenance_line: Option<i64>,
}

impl View for Edge {
    type V = EdgeView;

    open spec fn view(&self) -> EdgeView {
        EdgeView {
            src_id: self.src_id@,
            rel: self.rel,
            dst_id: self.dst_id@,
            provenance_path: crate::model::entity::opt_view(self.provenance_path),
            provenance_line: self.provenance_line,
        }
    }
}

/// The views of a sequence of edges.
pub open spec fn edge_views(v: Seq<Edge>) -> Seq<EdgeView> {
    v.map_values(|e: Edge| e@)
}

} // verus!
