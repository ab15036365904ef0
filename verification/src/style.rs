//! The colours of the diagrams: a calm, light palette in which each kind
//! of entity and each kind of edge has a style of its own.

use vstd::prelude::*;
use crate::model::edge::EdgeKind;
use crate::model::entity::EntityKind;
use crate::text::owned;

verus! {

/// The base colours of a diagram.
#[derive(Debug, Clone, Copy)]
pub struct ScandinavianTheme {
    /// Page background.
    pub canvas: &'static str,
    /// Card and container backgrounds.
    pub surface: &'static str,
    /// Default borders.
    pub border_light: &'static str,
    /// Active or important borders.
    pub border_emphasis: &'static str,
    /// Primary text.
    pub text_primary: &'static str,
    /// Secondary text.
    pub text_secondary: &'static str,
    /// Muted text.
    pub text_muted: &'static str,
}

impl Default for ScandinavianTheme {
    fn default() -> (res: Self)
        ensures
            res.canvas@ == "#fafafa"@,
            res.surface@ == "#ffffff"@,
            res.border_light@ == "#e2e8f0"@,
            res.border_emphasis@ == "#cbd5e1"@,
            res.text_primary@ == "#1e293b"@,
            res.text_secondary@ == "#64748b"@,
            res.text_muted@ == "#94a3b8"@,
    {
        ScandinavianTheme {
            canvas: "#fafafa",
            surface: "#ffffff",
            border_light: "#e2e8f0",
            border_emphasis: "#cbd5e1",
            text_primary: "#1e293b",
            text_secondary: "#64748b",
            text_muted: "#94a3b8",
        }
    }
}

/// The style of an entity's node.
#[derive(Debug, Clone, PartialEq, Eq)]
pub struct EntityStyle {
    /// Border colour.
    pub border: String,
    /// Fill colour.
    pub fill: String,
    /// Text colour.
    pub text: String,
}

/// How an edge's line is drawn.
#[derive(Debug, Clone, Copy, PartialEq, Eq, Structural)]
pub enum LineType {
    Solid,
    Dashed,
    Dotted,
}

/// The style of an edge's line; its width is counted in tenths of a unit.
#[derive(Debug, Clone, PartialEq, Eq)]
pub struct EdgeStyle {
    /// Line colour.
    pub color: String,
    /// Line width, in tenths.
    pub width_tenths: u32,
    /// Line type.
    pub line_type: LineType,
}

/// The border and fill colours of each kind of entity.
pub open spec fn entity_colors(kind: EntityKind) -> (Seq<char>, Seq<char>) {
    match kind {
        EntityKind::Symbol => ("#94a3b8"@, "#f1f5f9"@),
        EntityKind::Test => ("#22c55e"@, "#f0fdf4"@),
        EntityKind::SourceUnit => ("#3b82f6"@, "#eff6ff"@),
        EntityKind::Doc => ("#f59e0b"@, "#fffbeb"@),
        EntityKind::InfraRoot => ("#a855f7"@, "#faf5ff"@),
        EntityKind::Containerized => ("#06b6d4"@, "#ecfeff"@),
        EntityKind::Repo => ("#1e293b"@, "#f8fafc"@),
        EntityKind::Directory => ("#64748b"@, "#f8fafc"@),
        EntityKind::Component => ("#6366f1"@, "#eef2ff"@),
        EntityKind::Bench => ("#f97316"@, "#fff7ed"@),
        EntityKind::Task => ("#ec4899"@, "#fdf2f8"@),
        EntityKind::Command => ("#14b8a6"@, "#f0fdfa"@),
        EntityKind::Feature => ("#8b5cf6"@, "#f5f3ff"@),
        EntityKind::ContentPage => ("#f43f5e"@, "#fff1f2"@),
        EntityKind::Template => ("#0ea5e9"@, "#f0f9ff"@),
        EntityKind::Site => ("#84cc16"@, "#f7fee7"@),
        EntityKind::Migration => ("#d946ef"@, "#fdf4ff"@),
        EntityKind::Spec => ("#eab308"@, "#fefce8"@),
        EntityKind::Workflow => ("#10b981"@, "#ecfdf5"@),
        EntityKind::AgentConfig => ("#6b7280"@, "#f9fafb"@),
    }
}

/// The text colour of each kind of entity: symbols use the theme's primary
/// text colour.
pub open spec fn entity_text_color(kind: EntityKind, primary: Seq<char>) -> Seq<char> {
    match kind {
        EntityKind::Symbol => primary,
        EntityKind::Test => "#166534"@,
        EntityKind::SourceUnit => "#1e40af"@,
        EntityKind::Doc => "#92400e"@,
        EntityKind::InfraRoot => "#6b21a8"@,
        EntityKind::Containerized => "#155e75"@,
        EntityKind::Repo => "#0f172a"@,
        EntityKind::Directory => "#334155"@,
        EntityKind::Component => "#3730a3"@,
        EntityKind::Bench => "#9a3412"@,
        EntityKind::Task => "#9d174d"@,
        EntityKind::Command => "#115e59"@,
        EntityKind::Feature => "#5b21b6"@,
        EntityKind::ContentPage => "#9f1239"@,
        EntityKind::Template => "#075985"@,
        EntityKind::Site => "#3f6212"@,
        EntityKind::Migration => "#86198f"@,
        EntityKind::Spec => "#854d0e"@,
        EntityKind::Workflow => "#065f46"@,
        EntityKind::AgentConfig => "#374151"@,
    }
}

/// The colour, width in tenths and line type of each kind of edge.
pub open spec fn edge_look(kind: EdgeKind) -> (Seq<char>, u32, LineType) {
    match kind {
        EdgeKind::Defines => ("#94a3b8"@, 10u32, LineType::Solid),
        EdgeKind::DependsOn => ("#64748b"@, 10u32, LineType::Dashed),
        EdgeKind::TestedBy => ("#22c55e"@, 10u32, LineType::Dashed),
        EdgeKind::Mentions => ("#f59e0b"@, 10u32, LineType::Dotted),
        EdgeKind::Deploys => ("#a855f7"@, 15u32, LineType::Solid),
        EdgeKind::Contains => ("#cbd5e1"@, 10u32, LineType::Solid),
        EdgeKind::Reexports => ("#3b82f6"@, 10u32, LineType::Dashed),
        EdgeKind::DocumentedBy => ("#f59e0b"@, 10u32, LineType::Solid),
        EdgeKind::BenchmarkedBy => ("#f97316"@, 10u32, LineType::Dashed),
        EdgeKind::RelatedTo => ("#a855f7"@, 10u32, LineType::Dotted),
        EdgeKind::ConfiguredBy => ("#06b6d4"@, 10u32, LineType::Solid),
        EdgeKind::Builds => ("#22c55e"@, 15u32, LineType::Solid),
        EdgeKind::Implements => ("#6366f1"@, 10u32, LineType::Solid),
        EdgeKind::OwnsTask => ("#ec4899"@, 10u32, LineType::Solid),
        EdgeKind::DeclaresFeature => ("#8b5cf6"@, 10u32, LineType::Solid),
        EdgeKind::FeatureEnables => ("#8b5cf6"@, 10u32, LineType::Dashed),
        EdgeKind::Migrates => ("#d946ef"@, 10u32, LineType::Solid),
        EdgeKind::Specifies => ("#eab308"@, 10u32, LineType::Solid),
        EdgeKind::Renders => ("#0ea5e9"@, 10u32, LineType::Solid),
    }
}

fn entity_style_of(kind: &EntityKind, primary: &str) -> (res: EntityStyle)
    ensures
        res.border@ == entity_colors(*kind).0,
        res.fill@ == entity_colors(*kind).1,
        res.text@ == entity_text_color(*kind, primary@),
{
    let (border, fill, text) = match kind {
        EntityKind::Symbol => ("#94a3b8", "#f1f5f9", primary),
        EntityKind::Test => ("#22c55e", "#f0fdf4", "#166534"),
        EntityKind::SourceUnit => ("#3b82f6", "#eff6ff", "#1e40af"),
        EntityKind::Doc => ("#f59e0b", "#fffbeb", "#92400e"),
        EntityKind::InfraRoot => ("#a855f7", "#faf5ff", "#6b21a8"),
        EntityKind::Containerized => ("#06b6d4", "#ecfeff", "#155e75"),
        EntityKind::Repo => ("#1e293b", "#f8fafc", "#0f172a"),
        EntityKind::Directory => ("#64748b", "#f8fafc", "#334155"),
        EntityKind::Component => ("#6366f1", "#eef2ff", "#3730a3"),
        EntityKind::Bench => ("#f97316", "#fff7ed", "#9a3412"),
        EntityKind::Task => ("#ec4899", "#fdf2f8", "#9d174d"),
        EntityKind::Command => ("#14b8a6", "#f0fdfa", "#115e59"),
        EntityKind::Feature => ("#8b5cf6", "#f5f3ff", "#5b21b6"),
        EntityKind::ContentPage => ("#f43f5e", "#fff1f2", "#9f1239"),
        EntityKind::Template => ("#0ea5e9", "#f0f9ff", "#075985"),
        EntityKind::Site => ("#84cc16", "#f7fee7", "#3f6212"),
        EntityKind::Migration => ("#d946ef", "#fdf4ff", "#86198f"),
        EntityKind::Spec => ("#eab308", "#fefce8", "#854d0e"),
        EntityKind::Workflow => ("#10b981", "#ecfdf5", "#065f46"),
        EntityKind::AgentConfig => ("#6b7280", "#f9fafb", "#374151"),
    };
    EntityStyle { border: owned(border), fill: owned(fill), text: owned(text) }
}

impl ScandinavianTheme {
    /// The style of an entity's node: each kind has its own colours.
    pub fn entity_style(&self, kind: &EntityKind) -> (res: EntityStyle)
        ensures
            res.border@ == entity_colors(*kind).0,
            res.fill@ == entity_colors(*kind).1,
            res.text@ == entity_text_color(*kind, self.text_primary@),
    {
        entity_style_of(kind, self.text_primary)
    }

    /// The style of an edge's line: each kind has its own colour, width and
    /// line type.
    pub fn edge_style(&self, kind: &EdgeKind) -> (res: EdgeStyle)
        ensures
            res.color@ == edge_look(*kind).0,
            res.width_tenths == edge_look(*kind).1,
            res.line_type == edge_look(*kind).2,
    {
        let (color, width_tenths, line_type) = match kind {
            EdgeKind::Defines => ("#94a3b8", 10u32, LineType::Solid),
            EdgeKind::DependsOn => ("#64748b", 10u32, LineType::Dashed),
            EdgeKind::TestedBy => ("#22c55e", 10u32, LineType::Dashed),
            EdgeKind::Mentions => ("#f59e0b", 10u32, LineType::Dotted),
            EdgeKind::Deploys => ("#a855f7", 15u32, LineType::Solid),
            EdgeKind::Contains => ("#cbd5e1", 10u32, LineType::Solid),
            EdgeKind::Reexports => ("#3b82f6", 10u32, LineType::Dashed),
            EdgeKind::DocumentedBy => ("#f59e0b", 10u32, LineType::Solid),
            EdgeKind::BenchmarkedBy => ("#f97316", 10u32, LineType::Dashed),
            EdgeKind::RelatedTo => ("#a855f7", 10u32, LineType::Dotted),
            EdgeKind::ConfiguredBy => ("#06b6d4", 10u32, LineType::Solid),
            EdgeKind::Builds => ("#22c55e", 15u32, LineType::Solid),
            EdgeKind::Implements => ("#6366f1", 10u32, LineType::Solid),
            EdgeKind::OwnsTask => ("#ec4899", 10u32, LineType::Solid),
            EdgeKind::DeclaresFeature => ("#8b5cf6", 10u32, LineType::Solid),
            EdgeKind::FeatureEnables => ("#8b5cf6", 10u32, LineType::Dashed),
            EdgeKind::Migrates => ("#d946ef", 10u32, LineType::Solid),
            EdgeKind::Specifies => ("#eab308", 10u32, LineType::Solid),
            EdgeKind::Renders => ("#0ea5e9", 10u32, LineType::Solid),
        };
        EdgeStyle { color: owned(color), width_tenths, line_type }
    }
}

/// The kind of entity whose nodes have this border colour.
pub open spec fn kind_with_border(color: Seq<char>) -> Option<EntityKind> {
    if color == "#94a3b8"@ {
        Some(EntityKind::Symbol)
    } else if color == "#22c55e"@ {
        Some(EntityKind::Test)
    } else if color == "#3b82f6"@ {
        Some(EntityKind::SourceUnit)
    } else if color == "#f59e0b"@ {
        Some(EntityKind::Doc)
    } else if color == "#a855f7"@ {
        Some(EntityKind::InfraRoot)
    } else if color == "#06b6d4"@ {
        Some(EntityKind::Containerized)
    } else if color == "#1e293b"@ {
        Some(EntityKind::Repo)
    } else if color == "#64748b"@ {
        Some(EntityKind::Directory)
    } else if color == "#6366f1"@ {
        Some(EntityKind::Component)
    } else if color == "#f97316"@ {
        Some(EntityKind::Bench)
    } else if color == "#ec4899"@ {
        Some(EntityKind::Task)
    } else if color == "#14b8a6"@ {
        Some(EntityKind::Command)
    } else if color == "#8b5cf6"@ {
        Some(EntityKind::Feature)
    } else if color == "#f43f5e"@ {
        Some(EntityKind::ContentPage)
    } else if color == "#0ea5e9"@ {
        Some(EntityKind::Template)
    } else if color == "#84cc16"@ {
        Some(EntityKind::Site)
    } else if color == "#d946ef"@ {
        Some(EntityKind::Migration)
    } else if color == "#eab308"@ {
        Some(EntityKind::Spec)
    } else if color == "#10b981"@ {
        Some(EntityKind::Workflow)
    } else if color == "#6b7280"@ {
        Some(EntityKind::AgentConfig)
    } else {
        None
    }
}

/// Different kinds of entities are drawn with different border colours:
/// the colour gives the kind back.
pub proof fn lemma_border_identifies_kind(kind: EntityKind)
    ensures
        kind_with_border(entity_colors(kind).0) == Some(kind),
{
    match kind {
        EntityKind::Symbol => {
            reveal_strlit("#94a3b8");
        },
        EntityKind::Test => {
            reveal_strlit("#94a3b8");
            reveal_strlit("#22c55e");
            assert("#22c55e"@[1] == '2' && "#94a3b8"@[1] == '9');
        },
        EntityKind::SourceUnit => {
            reveal_strlit("#94a3b8");
            reveal_strlit("#22c55e");
            reveal_strlit("#3b82f6");
            assert("#3b82f6"@[1] == '3' && "#94a3b8"@[1] == '9');
            assert("#3b82f6"@[1] == '3' && "#22c55e"@[1] == '2');
        },
        EntityKind::Doc => {
            reveal_strlit("#94a3b8");
            reveal_strlit("#22c55e");
            reveal_strlit("#3b82f6");
            reveal_strlit("#f59e0b");
            assert("#f59e0b"@[1] == 'f' && "#94a3b8"@[1] == '9');
            assert("#f59e0b"@[1] == 'f' && "#22c55e"@[1] == '2');
            assert("#f59e0b"@[1] == 'f' && "#3b82f6"@[1] == '3');
        },
        EntityKind::InfraRoot => {
            reveal_strlit("#94a3b8");
            reveal_strlit("#22c55e");
            reveal_strlit("#3b82f6");
            reveal_strlit("#f59e0b");
            reveal_strlit("#a855f7");
            assert("#a855f7"@[1] == 'a' && "#94a3b8"@[1] == '9');
            assert("#a855f7"@[1] == 'a' && "#22c55e"@[1] == '2');
            assert("#a855f7"@[1] == 'a' && "#3b82f6"@[1] == '3');
            assert("#a855f7"@[1] == 'a' && "#f59e0b"@[1] == 'f');
        },
        EntityKind::Containerized => {
            reveal_strlit("#94a3b8");
            reveal_strlit("#22c55e");
            reveal_strlit("#3b82f6");
            reveal_strlit("#f59e0b");
            reveal_strlit("#a855f7");
            reveal_strlit("#06b6d4");
            assert("#06b6d4"@[1] == '0' && "#94a3b8"@[1] == '9');
            assert("#06b6d4"@[1] == '0' && "#22c55e"@[1] == '2');
            assert("#06b6d4"@[1] == '0' && "#3b82f6"@[1] == '3');
            assert("#06b6d4"@[1] == '0' && "#f59e0b"@[1] == 'f');
            assert("#06b6d4"@[1] == '0' && "#a855f7"@[1] == 'a');
        },
        EntityKind::Repo => {
            reveal_strlit("#94a3b8");
            reveal_strlit("#22c55e");
            reveal_strlit("#3b82f6");
            reveal_strlit("#f59e0b");
            reveal_strlit("#a855f7");
            reveal_strlit("#06b6d4");
            reveal_strlit("#1e293b");
            assert("#1e293b"@[1] == '1' && "#94a3b8"@[1] == '9');
            assert("#1e293b"@[1] == '1' && "#22c55e"@[1] == '2');
            assert("#1e293b"@[1] == '1' && "#3b82f6"@[1] == '3');
            assert("#1e293b"@[1] == '1' && "#f59e0b"@[1] == 'f');
            assert("#1e293b"@[1] == '1' && "#a855f7"@[1] == 'a');
            assert("#1e293b"@[1] == '1' && "#06b6d4"@[1] == '0');
        },
        EntityKind::Directory => {
            reveal_strlit("#94a3b8");
            reveal_strlit("#22c55e");
            reveal_strlit("#3b82f6");
            reveal_strlit("#f59e0b");
            reveal_strlit("#a855f7");
            reveal_strlit("#06b6d4");
            reveal_strlit("#1e293b");
            reveal_strlit("#64748b");
            assert("#64748b"@[1] == '6' && "#94a3b8"@[1] == '9');
            assert("#64748b"@[1] == '6' && "#22c55e"@[1] == '2');
            assert("#64748b"@[1] == '6' && "#3b82f6"@[1] == '3');
            assert("#64748b"@[1] == '6' && "#f59e0b"@[1] == 'f');
            assert("#64748b"@[1] == '6' && "#a855f7"@[1] == 'a');
            assert("#64748b"@[1] == '6' && "#06b6d4"@[1] == '0');
            assert("#64748b"@[1] == '6' && "#1e293b"@[1] == '1');
        },
        EntityKind::Component => {
            reveal_strlit("#94a3b8");
            reveal_strlit("#22c55e");
            reveal_strlit("#3b82f6");
            reveal_strlit("#f59e0b");
            reveal_strlit("#a855f7");
            reveal_strlit("#06b6d4");
            reveal_strlit("#1e293b");
            reveal_strlit("#64748b");
            reveal_strlit("#6366f1");
            assert("#6366f1"@[1] == '6' && "#94a3b8"@[1] == '9');
            assert("#6366f1"@[1] == '6' && "#22c55e"@[1] == '2');
            assert("#6366f1"@[1] == '6' && "#3b82f6"@[1] == '3');
            assert("#6366f1"@[1] == '6' && "#f59e0b"@[1] == 'f');
            assert("#6366f1"@[1] == '6' && "#a855f7"@[1] == 'a');
            assert("#6366f1"@[1] == '6' && "#06b6d4"@[1] == '0');
            assert("#6366f1"@[1] == '6' && "#1e293b"@[1] == '1');
            assert("#6366f1"@[2] == '3' && "#64748b"@[2] == '4');
        },
        EntityKind::Bench => {
            reveal_strlit("#94a3b8");
            reveal_strlit("#22c55e");
            reveal_strlit("#3b82f6");
            reveal_strlit("#f59e0b");
            reveal_strlit("#a855f7");
            reveal_strlit("#06b6d4");
            reveal_strlit("#1e293b");
            reveal_strlit("#64748b");
            reveal_strlit("#6366f1");
            reveal_strlit("#f97316");
            assert("#f97316"@[1] == 'f' && "#94a3b8"@[1] == '9');
            assert("#f97316"@[1] == 'f' && "#22c55e"@[1] == '2');
            assert("#f97316"@[1] == 'f' && "#3b82f6"@[1] == '3');
            assert("#f97316"@[2] == '9' && "#f59e0b"@[2] == '5');
            assert("#f97316"@[1] == 'f' && "#a855f7"@[1] == 'a');
            assert("#f97316"@[1] == 'f' && "#06b6d4"@[1] == '0');
            assert("#f97316"@[1] == 'f' && "#1e293b"@[1] == '1');
            assert("#f97316"@[1] == 'f' && "#64748b"@[1] == '6');
            assert("#f97316"@[1] == 'f' && "#6366f1"@[1] == '6');
        },
        EntityKind::Task => {
            reveal_strlit("#94a3b8");
            reveal_strlit("#22c55e");
            reveal_strlit("#3b82f6");
            reveal_strlit("#f59e0b");
            reveal_strlit("#a855f7");
            reveal_strlit("#06b6d4");
            reveal_strlit("#1e293b");
            reveal_strlit("#64748b");
            reveal_strlit("#6366f1");
            reveal_strlit("#f97316");
            reveal_strlit("#ec4899");
            assert("#ec4899"@[1] == 'e' && "#94a3b8"@[1] == '9');
            assert("#ec4899"@[1] == 'e' && "#22c55e"@[1] == '2');
            assert("#ec4899"@[1] == 'e' && "#3b82f6"@[1] == '3');
            assert("#ec4899"@[1] == 'e' && "#f59e0b"@[1] == 'f');
            assert("#ec4899"@[1] == 'e' && "#a855f7"@[1] == 'a');
            assert("#ec4899"@[1] == 'e' && "#06b6d4"@[1] == '0');
            assert("#ec4899"@[1] == 'e' && "#1e293b"@[1] == '1');
            assert("#ec4899"@[1] == 'e' && "#64748b"@[1] == '6');
            assert("#ec4899"@[1] == 'e' && "#6366f1"@[1] == '6');
            assert("#ec4899"@[1] == 'e' && "#f97316"@[1] == 'f');
        },
        EntityKind::Command => {
            reveal_strlit("#94a3b8");
            reveal_strlit("#22c55e");
            reveal_strlit("#3b82f6");
            reveal_strlit("#f59e0b");
            reveal_strlit("#a855f7");
            reveal_strlit("#06b6d4");
            reveal_strlit("#1e293b");
            reveal_strlit("#64748b");
            reveal_strlit("#6366f1");
            reveal_strlit("#f97316");
            reveal_strlit("#ec4899");
            reveal_strlit("#14b8a6");
            assert("#14b8a6"@[1] == '1' && "#94a3b8"@[1] == '9');
            assert("#14b8a6"@[1] == '1' && "#22c55e"@[1] == '2');
            assert("#14b8a6"@[1] == '1' && "#3b82f6"@[1] == '3');
            assert("#14b8a6"@[1] == '1' && "#f59e0b"@[1] == 'f');
            assert("#14b8a6"@[1] == '1' && "#a855f7"@[1] == 'a');
            assert("#14b8a6"@[1] == '1' && "#06b6d4"@[1] == '0');
            assert("#14b8a6"@[2] == '4' && "#1e293b"@[2] == 'e');
            assert("#14b8a6"@[1] == '1' && "#64748b"@[1] == '6');
            assert("#14b8a6"@[1] == '1' && "#6366f1"@[1] == '6');
            assert("#14b8a6"@[1] == '1' && "#f97316"@[1] == 'f');
            assert("#14b8a6"@[1] == '1' && "#ec4899"@[1] == 'e');
        },
        EntityKind::Feature => {
            reveal_strlit("#94a3b8");
            reveal_strlit("#22c55e");
            reveal_strlit("#3b82f6");
            reveal_strlit("#f59e0b");
            reveal_strlit("#a855f7");
            reveal_strlit("#06b6d4");
            reveal_strlit("#1e293b");
            reveal_strlit("#64748b");
            reveal_strlit("#6366f1");
            reveal_strlit("#f97316");
            reveal_strlit("#ec4899");
            reveal_strlit("#14b8a6");
            reveal_strlit("#8b5cf6");
            assert("#8b5cf6"@[1] == '8' && "#94a3b8"@[1] == '9');
            assert("#8b5cf6"@[1] == '8' && "#22c55e"@[1] == '2');
            assert("#8b5cf6"@[1] == '8' && "#3b82f6"@[1] == '3');
            assert("#8b5cf6"@[1] == '8' && "#f59e0b"@[1] == 'f');
            assert("#8b5cf6"@[1] == '8' && "#a855f7"@[1] == 'a');
            assert("#8b5cf6"@[1] == '8' && "#06b6d4"@[1] == '0');
            assert("#8b5cf6"@[1] == '8' && "#1e293b"@[1] == '1');
            assert("#8b5cf6"@[1] == '8' && "#64748b"@[1] == '6');
            assert("#8b5cf6"@[1] == '8' && "#6366f1"@[1] == '6');
            assert("#8b5cf6"@[1] == '8' && "#f97316"@[1] == 'f');
            assert("#8b5cf6"@[1] == '8' && "#ec4899"@[1] == 'e');
            assert("#8b5cf6"@[1] == '8' && "#14b8a6"@[1] == '1');
        },
        EntityKind::ContentPage => {
            reveal_strlit("#94a3b8");
            reveal_strlit("#22c55e");
            reveal_strlit("#3b82f6");
            reveal_strlit("#f59e0b");
            reveal_strlit("#a855f7");
            reveal_strlit("#06b6d4");
            reveal_strlit("#1e293b");
            reveal_strlit("#64748b");
            reveal_strlit("#6366f1");
            reveal_strlit("#f97316");
            reveal_strlit("#ec4899");
            reveal_strlit("#14b8a6");
            reveal_strlit("#8b5cf6");
            reveal_strlit("#f43f5e");
            assert("#f43f5e"@[1] == 'f' && "#94a3b8"@[1] == '9');
            assert("#f43f5e"@[1] == 'f' && "#22c55e"@[1] == '2');
            assert("#f43f5e"@[1] == 'f' && "#3b82f6"@[1] == '3');
            assert("#f43f5e"@[2] == '4' && "#f59e0b"@[2] == '5');
            assert("#f43f5e"@[1] == 'f' && "#a855f7"@[1] == 'a');
            assert("#f43f5e"@[1] == 'f' && "#06b6d4"@[1] == '0');
            assert("#f43f5e"@[1] == 'f' && "#1e293b"@[1] == '1');
            assert("#f43f5e"@[1] == 'f' && "#64748b"@[1] == '6');
            assert("#f43f5e"@[1] == 'f' && "#6366f1"@[1] == '6');
            assert("#f43f5e"@[2] == '4' && "#f97316"@[2] == '9');
            assert("#f43f5e"@[1] == 'f' && "#ec4899"@[1] == 'e');
            assert("#f43f5e"@[1] == 'f' && "#14b8a6"@[1] == '1');
            assert("#f43f5e"@[1] == 'f' && "#8b5cf6"@[1] == '8');
        },
        EntityKind::Template => {
            reveal_strlit("#94a3b8");
            reveal_strlit("#22c55e");
            reveal_strlit("#3b82f6");
            reveal_strlit("#f59e0b");
            reveal_strlit("#a855f7");
            reveal_strlit("#06b6d4");
            reveal_strlit("#1e293b");
            reveal_strlit("#64748b");
            reveal_strlit("#6366f1");
            reveal_strlit("#f97316");
            reveal_strlit("#ec4899");
            reveal_strlit("#14b8a6");
            reveal_strlit("#8b5cf6");
            reveal_strlit("#f43f5e");
            reveal_strlit("#0ea5e9");
            assert("#0ea5e9"@[1] == '0' && "#94a3b8"@[1] == '9');
            assert("#0ea5e9"@[1] == '0' && "#22c55e"@[1] == '2');
            assert("#0ea5e9"@[1] == '0' && "#3b82f6"@[1] == '3');
            assert("#0ea5e9"@[1] == '0' && "#f59e0b"@[1] == 'f');
            assert("#0ea5e9"@[1] == '0' && "#a855f7"@[1] == 'a');
            assert("#0ea5e9"@[2] == 'e' && "#06b6d4"@[2] == '6');
            assert("#0ea5e9"@[1] == '0' && "#1e293b"@[1] == '1');
            assert("#0ea5e9"@[1] == '0' && "#64748b"@[1] == '6');
            assert("#0ea5e9"@[1] == '0' && "#6366f1"@[1] == '6');
            assert("#0ea5e9"@[1] == '0' && "#f97316"@[1] == 'f');
            assert("#0ea5e9"@[1] == '0' && "#ec4899"@[1] == 'e');
            assert("#0ea5e9"@[1] == '0' && "#14b8a6"@[1] == '1');
            assert("#0ea5e9"@[1] == '0' && "#8b5cf6"@[1] == '8');
            assert("#0ea5e9"@[1] == '0' && "#f43f5e"@[1] == 'f');
        },
        EntityKind::Site => {
            reveal_strlit("#94a3b8");
            reveal_strlit("#22c55e");
            reveal_strlit("#3b82f6");
            reveal_strlit("#f59e0b");
            reveal_strlit("#a855f7");
            reveal_strlit("#06b6d4");
            reveal_strlit("#1e293b");
            reveal_strlit("#64748b");
            reveal_strlit("#6366f1");
            reveal_strlit("#f97316");
            reveal_strlit("#ec4899");
            reveal_strlit("#14b8a6");
            reveal_strlit("#8b5cf6");
            reveal_strlit("#f43f5e");
            reveal_strlit("#0ea5e9");
            reveal_strlit("#84cc16");
            assert("#84cc16"@[1] == '8' && "#94a3b8"@[1] == '9');
            assert("#84cc16"@[1] == '8' && "#22c55e"@[1] == '2');
            assert("#84cc16"@[1] == '8' && "#3b82f6"@[1] == '3');
            assert("#84cc16"@[1] == '8' && "#f59e0b"@[1] == 'f');
            assert("#84cc16"@[1] == '8' && "#a855f7"@[1] == 'a');
            assert("#84cc16"@[1] == '8' && "#06b6d4"@[1] == '0');
            assert("#84cc16"@[1] == '8' && "#1e293b"@[1] == '1');
            assert("#84cc16"@[1] == '8' && "#64748b"@[1] == '6');
            assert("#84cc16"@[1] == '8' && "#6366f1"@[1] == '6');
            assert("#84cc16"@[1] == '8' && "#f97316"@[1] == 'f');
            assert("#84cc16"@[1] == '8' && "#ec4899"@[1] == 'e');
            assert("#84cc16"@[1] == '8' && "#14b8a6"@[1] == '1');
            assert("#84cc16"@[2] == '4' && "#8b5cf6"@[2] == 'b');
            assert("#84cc16"@[1] == '8' && "#f43f5e"@[1] == 'f');
            assert("#84cc16"@[1] == '8' && "#0ea5e9"@[1] == '0');
        },
        EntityKind::Migration => {
            reveal_strlit("#94a3b8");
            reveal_strlit("#22c55e");
            reveal_strlit("#3b82f6");
            reveal_strlit("#f59e0b");
            reveal_strlit("#a855f7");
            reveal_strlit("#06b6d4");
            reveal_strlit("#1e293b");
            reveal_strlit("#64748b");
            reveal_strlit("#6366f1");
            reveal_strlit("#f97316");
            reveal_strlit("#ec4899");
            reveal_strlit("#14b8a6");
            reveal_strlit("#8b5cf6");
            reveal_strlit("#f43f5e");
            reveal_strlit("#0ea5e9");
            reveal_strlit("#84cc16");
            reveal_strlit("#d946ef");
            assert("#d946ef"@[1] == 'd' && "#94a3b8"@[1] == '9');
            assert("#d946ef"@[1] == 'd' && "#22c55e"@[1] == '2');
            assert("#d946ef"@[1] == 'd' && "#3b82f6"@[1] == '3');
            assert("#d946ef"@[1] == 'd' && "#f59e0b"@[1] == 'f');
            assert("#d946ef"@[1] == 'd' && "#a855f7"@[1] == 'a');
            assert("#d946ef"@[1] == 'd' && "#06b6d4"@[1] == '0');
            assert("#d946ef"@[1] == 'd' && "#1e293b"@[1] == '1');
            assert("#d946ef"@[1] == 'd' && "#64748b"@[1] == '6');
            assert("#d946ef"@[1] == 'd' && "#6366f1"@[1] == '6');
            assert("#d946ef"@[1] == 'd' && "#f97316"@[1] == 'f');
            assert("#d946ef"@[1] == 'd' && "#ec4899"@[1] == 'e');
            assert("#d946ef"@[1] == 'd' && "#14b8a6"@[1] == '1');
            assert("#d946ef"@[1] == 'd' && "#8b5cf6"@[1] == '8');
            assert("#d946ef"@[1] == 'd' && "#f43f5e"@[1] == 'f');
            assert("#d946ef"@[1] == 'd' && "#0ea5e9"@[1] == '0');
            assert("#d946ef"@[1] == 'd' && "#84cc16"@[1] == '8');
        },
        EntityKind::Spec => {
            reveal_strlit("#94a3b8");
            reveal_strlit("#22c55e");
            reveal_strlit("#3b82f6");
            reveal_strlit("#f59e0b");
            reveal_strlit("#a855f7");
            reveal_strlit("#06b6d4");
            reveal_strlit("#1e293b");
            reveal_strlit("#64748b");
            reveal_strlit("#6366f1");
            reveal_strlit("#f97316");
            reveal_strlit("#ec4899");
            reveal_strlit("#14b8a6");
            reveal_strlit("#8b5cf6");
            reveal_strlit("#f43f5e");
            reveal_strlit("#0ea5e9");
            reveal_strlit("#84cc16");
            reveal_strlit("#d946ef");
            reveal_strlit("#eab308");
            assert("#eab308"@[1] == 'e' && "#94a3b8"@[1] == '9');
            assert("#eab308"@[1] == 'e' && "#22c55e"@[1] == '2');
            assert("#eab308"@[1] == 'e' && "#3b82f6"@[1] == '3');
            assert("#eab308"@[1] == 'e' && "#f59e0b"@[1] == 'f');
            assert("#eab308"@[1] == 'e' && "#a855f7"@[1] == 'a');
            assert("#eab308"@[1] == 'e' && "#06b6d4"@[1] == '0');
            assert("#eab308"@[1] == 'e' && "#1e293b"@[1] == '1');
            assert("#eab308"@[1] == 'e' && "#64748b"@[1] == '6');
            assert("#eab308"@[1] == 'e' && "#6366f1"@[1] == '6');
            assert("#eab308"@[1] == 'e' && "#f97316"@[1] == 'f');
            assert("#eab308"@[2] == 'a' && "#ec4899"@[2] == 'c');
            assert("#eab308"@[1] == 'e' && "#14b8a6"@[1] == '1');
            assert("#eab308"@[1] == 'e' && "#8b5cf6"@[1] == '8');
            assert("#eab308"@[1] == 'e' && "#f43f5e"@[1] == 'f');
            assert("#eab308"@[1] == 'e' && "#0ea5e9"@[1] == '0');
            assert("#eab308"@[1] == 'e' && "#84cc16"@[1] == '8');
            assert("#eab308"@[1] == 'e' && "#d946ef"@[1] == 'd');
        },
        EntityKind::Workflow => {
            reveal_strlit("#94a3b8");
            reveal_strlit("#22c55e");
            reveal_strlit("#3b82f6");
            reveal_strlit("#f59e0b");
            reveal_strlit("#a855f7");
            reveal_strlit("#06b6d4");
            reveal_strlit("#1e293b");
            reveal_strlit("#64748b");
            reveal_strlit("#6366f1");
            reveal_strlit("#f97316");
            reveal_strlit("#ec4899");
            reveal_strlit("#14b8a6");
            reveal_strlit("#8b5cf6");
            reveal_strlit("#f43f5e");
            reveal_strlit("#0ea5e9");
            reveal_strlit("#84cc16");
            reveal_strlit("#d946ef");
            reveal_strlit("#eab308");
            reveal_strlit("#10b981");
            assert("#10b981"@[1] == '1' && "#94a3b8"@[1] == '9');
            assert("#10b981"@[1] == '1' && "#22c55e"@[1] == '2');
            assert("#10b981"@[1] == '1' && "#3b82f6"@[1] == '3');
            assert("#10b981"@[1] == '1' && "#f59e0b"@[1] == 'f');
            assert("#10b981"@[1] == '1' && "#a855f7"@[1] == 'a');
            assert("#10b981"@[1] == '1' && "#06b6d4"@[1] == '0');
            assert("#10b981"@[2] == '0' && "#1e293b"@[2] == 'e');
            assert("#10b981"@[1] == '1' && "#64748b"@[1] == '6');
            assert("#10b981"@[1] == '1' && "#6366f1"@[1] == '6');
            assert("#10b981"@[1] == '1' && "#f97316"@[1] == 'f');
            assert("#10b981"@[1] == '1' && "#ec4899"@[1] == 'e');
            assert("#10b981"@[2] == '0' && "#14b8a6"@[2] == '4');
            assert("#10b981"@[1] == '1' && "#8b5cf6"@[1] == '8');
            assert("#10b981"@[1] == '1' && "#f43f5e"@[1] == 'f');
            assert("#10b981"@[1] == '1' && "#0ea5e9"@[1] == '0');
            assert("#10b981"@[1] == '1' && "#84cc16"@[1] == '8');
            assert("#10b981"@[1] == '1' && "#d946ef"@[1] == 'd');
            assert("#10b981"@[1] == '1' && "#eab308"@[1] == 'e');
        },
        EntityKind::AgentConfig => {
            reveal_strlit("#94a3b8");
            reveal_strlit("#22c55e");
            reveal_strlit("#3b82f6");
            reveal_strlit("#f59e0b");
            reveal_strlit("#a855f7");
            reveal_strlit("#06b6d4");
            reveal_strlit("#1e293b");
            reveal_strlit("#64748b");
            reveal_strlit("#6366f1");
            reveal_strlit("#f97316");
            reveal_strlit("#ec4899");
            reveal_strlit("#14b8a6");
            reveal_strlit("#8b5cf6");
            reveal_strlit("#f43f5e");
            reveal_strlit("#0ea5e9");
            reveal_strlit("#84cc16");
            reveal_strlit("#d946ef");
            reveal_strlit("#eab308");
            reveal_strlit("#10b981");
            reveal_strlit("#6b7280");
            assert("#6b7280"@[1] == '6' && "#94a3b8"@[1] == '9');
            assert("#6b7280"@[1] == '6' && "#22c55e"@[1] == '2');
            assert("#6b7280"@[1] == '6' && "#3b82f6"@[1] == '3');
            assert("#6b7280"@[1] == '6' && "#f59e0b"@[1] == 'f');
            assert("#6b7280"@[1] == '6' && "#a855f7"@[1] == 'a');
            assert("#6b7280"@[1] == '6' && "#06b6d4"@[1] == '0');
            assert("#6b7280"@[1] == '6' && "#1e293b"@[1] == '1');
            assert("#6b7280"@[2] == 'b' && "#64748b"@[2] == '4');
            assert("#6b7280"@[2] == 'b' && "#6366f1"@[2] == '3');
            assert("#6b7280"@[1] == '6' && "#f97316"@[1] == 'f');
            assert("#6b7280"@[1] == '6' && "#ec4899"@[1] == 'e');
            assert("#6b7280"@[1] == '6' && "#14b8a6"@[1] == '1');
            assert("#6b7280"@[1] == '6' && "#8b5cf6"@[1] == '8');
            assert("#6b7280"@[1] == '6' && "#f43f5e"@[1] == 'f');
            assert("#6b7280"@[1] == '6' && "#0ea5e9"@[1] == '0');
            assert("#6b7280"@[1] == '6' && "#84cc16"@[1] == '8');
            assert("#6b7280"@[1] == '6' && "#d946ef"@[1] == 'd');
            assert("#6b7280"@[1] == '6' && "#eab308"@[1] == 'e');
            assert("#6b7280"@[1] == '6' && "#10b981"@[1] == '1');
        },
    }
}

/// Two kinds with the same border colour are the same kind.
pub proof fn lemma_borders_distinct(a: EntityKind, b: EntityKind)
    requires
        a != b,
    ensures
        entity_colors(a).0 != entity_colors(b).0,
{
    lemma_border_identifies_kind(a);
    lemma_border_identifies_kind(b);
}

} // verus!
