//! What the analysis engine answers, as plain values with byte-offset ranges.
use vstd::prelude::*;

use crate::position::TextRange;

verus! {

/// The engine's two severity levels.
#[derive(Clone, Copy, Debug, PartialEq, Eq, Structural)]
pub enum Severity {
    Error,
    WeakWarning,
}

/// The editor's numeric severity for `s`: 8 is an error marker, 1 a hint.
pub open spec fn severity_value(s: Severity) -> u32 {
    match s {
        Severity::Error => 8,
        Severity::WeakWarning => 1,
    }
}

/// Numeric editor severity of an engine severity.
pub fn severity_code(s: Severity) -> (r: u32)
    ensures
        r == severity_value(s),
{
    match s {
        Severity::Error => 8,
        Severity::WeakWarning => 1,
    }
}

/// A diagnostic of the engine.
pub struct EngineDiagnostic {
    pub message: String,
    pub severity: Severity,
    pub range: TextRange,
}

/// A range that the engine highlights, with its tag.
pub struct HighlightedRange {
    pub range: TextRange,
    pub tag: String,
}

/// The kinds of item in a file's structure that the adapter tells apart.
#[derive(Clone, Copy, Debug, PartialEq, Eq, Structural)]
pub enum StructureKind {
    TraitDef,
    StructDef,
    EnumDef,
    Other,
}

/// An item of a file's structure.
#[derive(Clone, Copy, Debug, PartialEq, Eq, Structural)]
pub struct StructureNode {
    pub kind: StructureKind,
    pub node_range: TextRange,
}

/// Hover documentation, already rendered as Markdown, and its range.
pub struct HoverInfo {
    pub markup: String,
    pub range: TextRange,
}

/// A declaration found by a reference search.
pub struct Declaration {
    pub name: String,
    pub range: TextRange,
}

/// One edit of a change set: delete `delete`, insert `insert`.
pub struct EditAtom {
    pub delete: TextRange,
    pub insert: String,
}

} // verus!
