//! What the editor receives, all ranges in editor space.
#![allow(non_snake_case)]

use vstd::prelude::*;

use crate::position::Range;

verus! {

/// Hover text for a range.
pub struct Hover {
    pub range: Range,
    pub contents: Vec<MarkdownString>,
}

/// A piece of Markdown text.
pub struct MarkdownString {
    pub value: String,
}

/// A marker shown above a type definition.
pub struct CodeLensSymbol {
    pub range: Range,
    pub command: Option<Command>,
}

/// An editor command attached to a code lens.
pub struct Command {
    pub id: String,
    pub title: String,
}

/// A highlighted range, with the highlighting tag where there is one.
pub struct Highlight {
    pub tag: Option<String>,
    pub range: Range,
}

/// A diagnostic with its numeric editor severity.
pub struct Diagnostic {
    pub message: String,
    pub severity: u32,
    pub startLineNumber: u32,
    pub startColumn: u32,
    pub endLineNumber: u32,
    pub endColumn: u32,
}

/// What an update of the document reports.
pub struct UpdateResult {
    pub diagnostics: Vec<Diagnostic>,
    pub highlights: Vec<Highlight>,
}

/// The name under the cursor that a rename would change, and where it is.
pub struct RenameLocation {
    pub range: Range,
    pub text: String,
}

/// Replace the text of `range` with `text`.
pub struct TextEdit {
    pub range: Range,
    pub text: String,
}

} // verus!
