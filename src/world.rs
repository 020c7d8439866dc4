//! The adapter's context for one document: its current line index, and the
//! translation of engine answers into what the editor receives.
use vstd::prelude::*;

use crate::engine::{
    severity_code, severity_value, Declaration, EditAtom, EngineDiagnostic, HighlightedRange,
    HoverInfo, StructureKind, StructureNode,
};
use crate::line_index::{byte_len, LineIndex, TranslateError};
use crate::position::{editor_range_of, engine_offset_of, engine_range_of, Range, TextRange};
use crate::return_types::{
    CodeLensSymbol, Command, Diagnostic, Highlight, Hover, MarkdownString, RenameLocation,
    TextEdit, UpdateResult,
};

verus! {

/// Editor range of the byte range `r` of document `s`.
pub open spec fn editor_range(s: Seq<char>, r: TextRange) -> Result<Range, TranslateError> {
    editor_range_of(s, r.start as nat, r.end as nat)
}

/// The byte range `r` of document `s` translates to the editor range `rg`.
pub open spec fn maps_to(s: Seq<char>, r: TextRange, rg: Range) -> bool {
    editor_range(s, r) == Ok::<Range, TranslateError>(rg)
}

/// `out` is the editor diagnostic of the engine diagnostic `d` of document `s`.
pub open spec fn diagnostic_of(s: Seq<char>, d: EngineDiagnostic, out: Diagnostic) -> bool {
    let rg = editor_range(s, d.range);
    &&& rg is Ok
    &&& out.startLineNumber == rg->Ok_0.startLineNumber
    &&& out.startColumn == rg->Ok_0.startColumn
    &&& out.endLineNumber == rg->Ok_0.endLineNumber
    &&& out.endColumn == rg->Ok_0.endColumn
    &&& out.message == d.message
    &&& out.severity == severity_value(d.severity)
}

/// Structure items that get a code lens: trait, struct and enum definitions.
pub open spec fn is_type_def(k: StructureKind) -> bool {
    k == StructureKind::TraitDef || k == StructureKind::StructDef || k == StructureKind::EnumDef
}

/// The items of `items` that get a code lens, in their order.
pub open spec fn type_defs(items: Seq<StructureNode>) -> Seq<StructureNode>
    decreases items.len(),
{
    if items.len() == 0 {
        Seq::empty()
    } else {
        let p = type_defs(items.drop_last());
        if is_type_def(items.last().kind) {
            p.push(items.last())
        } else {
            p
        }
    }
}

/// `lens` is the code lens of the structure item `node` of document `s`.
pub open spec fn lens_of(s: Seq<char>, node: StructureNode, lens: CodeLensSymbol) -> bool {
    &&& maps_to(s, node.node_range, lens.range)
    &&& lens.command is Some
    &&& lens.command->Some_0.id@ == "rust-analyzer.showReferences"@
    &&& lens.command->Some_0.title@ == "0 implementations"@
}

/// The current document of the editor, held as its line index.
pub struct WorldState {
    index: LineIndex,
}

impl View for WorldState {
    type V = Seq<char>;

    closed spec fn view(&self) -> Seq<char> {
        self.index@
    }
}

impl WorldState {
    pub closed spec fn wf(&self) -> bool {
        self.index.wf()
    }

    /// An empty document.
    pub fn new() -> (r: WorldState)
        ensures
            r.wf(),
            r@ == Seq::<char>::empty(),
    {
        WorldState { index: LineIndex::empty() }
    }

    /// Replaces the document with `code`, building a fresh index; on
    /// `TooLarge` the document stays as it was.
    pub fn update(&mut self, code: &str) -> (r: Result<(), TranslateError>)
        requires
            old(self).wf(),
        ensures
            final(self).wf(),
            match r {
                Ok(()) => final(self)@ == code@,
                Err(e) => e == TranslateError::TooLarge && byte_len(code@) >= u32::MAX
                    && final(self)@ == old(self)@,
            },
    {
        match LineIndex::new(code) {
            Ok(index) => {
                self.index = index;
                Ok(())
            },
            Err(e) => Err(e),
        }
    }

    /// Byte offset of the 1-based editor position (`line`, `col_utf16`).
    pub fn file_pos(&self, line: u32, col_utf16: u32) -> (r: Result<u32, TranslateError>)
        requires
            self.wf(),
        ensures
            match r {
                Ok(o) => engine_offset_of(self@, line as nat, col_utf16 as nat) == Some(o as nat),
                Err(e) => e == TranslateError::OutOfRange && engine_offset_of(
                    self@,
                    line as nat,
                    col_utf16 as nat,
                ) is None,
            },
    {
        self.index.to_engine_position(line, col_utf16)
    }

    /// Editor range of the byte range `text_range`.
    pub fn range(&self, text_range: TextRange) -> (r: Result<Range, TranslateError>)
        requires
            self.wf(),
        ensures
            r == editor_range(self@, text_range),
    {
        self.index.to_editor_range(text_range)
    }

    /// Byte range of the editor range with the given 1-based corners.
    pub fn file_range(
        &self,
        start_line: u32,
        start_col_utf16: u32,
        end_line: u32,
        end_col_utf16: u32,
    ) -> (r: Result<TextRange, TranslateError>)
        requires
            self.wf(),
        ensures
            r == engine_range_of(
                self@,
                start_line as nat,
                start_col_utf16 as nat,
                end_line as nat,
                end_col_utf16 as nat,
            ),
    {
        self.index.to_engine_range(start_line, start_col_utf16, end_line, end_col_utf16)
    }

    /// The hover payload for the engine's hover answer `info`.
    pub fn hover(&self, info: &HoverInfo) -> (r: Result<Hover, TranslateError>)
        requires
            self.wf(),
        ensures
            match r {
                Ok(h) => maps_to(self@, info.range, h.range) && h.contents.len() == 1
                    && h.contents[0].value == info.markup,
                Err(e) => editor_range(self@, info.range) == Err::<Range, TranslateError>(e),
            },
    {
        let range = self.range(info.range)?;
        let value = info.markup.clone();
        let mut contents: Vec<MarkdownString> = Vec::new();
        contents.push(MarkdownString { value });
        Ok(Hover { range, contents })
    }

    /// Untagged highlights of the reference ranges `refs`, in their order.
    pub fn references(&self, refs: &Vec<TextRange>) -> (r: Result<Vec<Highlight>, TranslateError>)
        requires
            self.wf(),
        ensures
            match r {
                Ok(v) => v.len() == refs.len() && forall|i: int|
                    0 <= i < v.len() ==> maps_to(self@, refs[i], #[trigger] v[i].range)
                        && v[i].tag is None,
                Err(e) => exists|i: int|
                    0 <= i < refs.len() && editor_range(self@, #[trigger] refs[i]) == Err::<
                        Range,
                        TranslateError,
                    >(e),
            },
    {
        let mut out: Vec<Highlight> = Vec::new();
        let mut i: usize = 0;
        while i < refs.len()
            invariant
                self.wf(),
                i <= refs.len(),
                out.len() == i,
                forall|j: int|
                    0 <= j < i ==> maps_to(self@, refs[j], #[trigger] out[j].range)
                        && out[j].tag is None,
            decreases refs.len() - i,
        {
            let range = self.range(refs[i])?;
            out.push(Highlight { tag: None, range });
            i = i + 1;
        }
        Ok(out)
    }

    /// Tagged highlights of the engine's highlighted ranges, in their order.
    pub fn highlights(&self, hls: &Vec<HighlightedRange>) -> (r: Result<
        Vec<Highlight>,
        TranslateError,
    >)
        requires
            self.wf(),
        ensures
            match r {
                Ok(v) => v.len() == hls.len() && forall|i: int|
                    0 <= i < v.len() ==> maps_to(self@, hls[i].range, #[trigger] v[i].range) && v[i].tag == Some(hls[i].tag),
                Err(e) => exists|i: int|
                    0 <= i < hls.len() && editor_range(self@, #[trigger] hls[i].range) == Err::<
                        Range,
                        TranslateError,
                    >(e),
            },
    {
        let mut out: Vec<Highlight> = Vec::new();
        let mut i: usize = 0;
        while i < hls.len()
            invariant
                self.wf(),
                i <= hls.len(),
                out.len() == i,
                forall|j: int|
                    0 <= j < i ==> maps_to(self@, hls[j].range, #[trigger] out[j].range)
                        && out[j].tag == Some(hls[j].tag),
            decreases hls.len() - i,
        {
            let range = self.range(hls[i].range)?;
            out.push(Highlight { tag: Some(hls[i].tag.clone()), range });
            i = i + 1;
        }
        Ok(out)
    }

    /// Editor diagnostics of the engine's diagnostics, in their order.
    pub fn diagnostics(&self, ds: &Vec<EngineDiagnostic>) -> (r: Result<
        Vec<Diagnostic>,
        TranslateError,
    >)
        requires
            self.wf(),
        ensures
            match r {
                Ok(v) => v.len() == ds.len() && forall|i: int|
                    0 <= i < v.len() ==> #[trigger] diagnostic_of(self@, ds[i], v[i]),
                Err(e) => exists|i: int|
                    0 <= i < ds.len() && editor_range(self@, #[trigger] ds[i].range) == Err::<
                        Range,
                        TranslateError,
                    >(e),
            },
    {
        let mut out: Vec<Diagnostic> = Vec::new();
        let mut i: usize = 0;
        while i < ds.len()
            invariant
                self.wf(),
                i <= ds.len(),
                out.len() == i,
                forall|j: int| 0 <= j < i ==> #[trigger] diagnostic_of(self@, ds[j], out[j]),
            decreases ds.len() - i,
        {
            let d = &ds[i];
            let range = self.range(d.range)?;
            out.push(
                Diagnostic {
                    message: d.message.clone(),
                    severity: severity_code(d.severity),
                    startLineNumber: range.startLineNumber,
                    startColumn: range.startColumn,
                    endLineNumber: range.endLineNumber,
                    endColumn: range.endColumn,
                },
            );
            proof {
                assert(diagnostic_of(self@, ds[i as int], out[i as int]));
            }
            i = i + 1;
        }
        Ok(out)
    }
    /// Diagnostics and highlights reported after an update, each translated
    /// as `diagnostics` and `highlights` do.
    pub fn update_result(&self, ds: &Vec<EngineDiagnostic>, hls: &Vec<HighlightedRange>) -> (r:
        Result<UpdateResult, TranslateError>)
        requires
            self.wf(),
        ensures
            match r {
                Ok(u) => u.diagnostics.len() == ds.len() && (forall|i: int|
                    0 <= i < ds.len() ==> #[trigger] diagnostic_of(
                        self@,
                        ds[i],
                        u.diagnostics[i],
                    )) && u.highlights.len() == hls.len() && (forall|i: int|
                    0 <= i < hls.len() ==> maps_to(
                        self@,
                        hls[i].range,
                        #[trigger] u.highlights[i].range,
                    ) && u.highlights[i].tag == Some(hls[i].tag)),
                Err(e) => (exists|i: int|
                    0 <= i < ds.len() && editor_range(self@, #[trigger] ds[i].range) == Err::<
                        Range,
                        TranslateError,
                    >(e)) || (exists|i: int|
                    0 <= i < hls.len() && editor_range(self@, #[trigger] hls[i].range) == Err::<
                        Range,
                        TranslateError,
                    >(e)),
            },
    {
        let diagnostics = self.diagnostics(ds)?;
        let highlights = self.highlights(hls)?;
        Ok(UpdateResult { diagnostics, highlights })
    }

    /// A code lens over each trait, struct and enum definition among the
    /// structure items `items`, in their order, each with the
    /// show-references command.
    pub fn code_lenses(&self, items: &Vec<StructureNode>) -> (r: Result<
        Vec<CodeLensSymbol>,
        TranslateError,
    >)
        requires
            self.wf(),
        ensures
            match r {
                Ok(v) => v.len() == type_defs(items@).len() && forall|i: int|
                    0 <= i < v.len() ==> #[trigger] lens_of(
                        self@,
                        type_defs(items@)[i],
                        v[i],
                    ),
                Err(e) => exists|i: int|
                    0 <= i < items.len() && is_type_def(items[i].kind) && editor_range(
                        self@,
                        #[trigger] items[i].node_range,
                    ) == Err::<Range, TranslateError>(e),
            },
    {
        let mut out: Vec<CodeLensSymbol> = Vec::new();
        let mut i: usize = 0;
        while i < items.len()
            invariant
                self.wf(),
                i <= items.len(),
                out.len() == type_defs(items@.subrange(0, i as int)).len(),
                forall|j: int|
                    0 <= j < out.len() ==> #[trigger] lens_of(
                        self@,
                        type_defs(items@.subrange(0, i as int))[j],
                        out[j],
                    ),
            decreases items.len() - i,
        {
            let it = items[i];
            proof {
                assert(items@.subrange(0, i + 1).drop_last() =~= items@.subrange(0, i as int));
            }
            match it.kind {
                StructureKind::TraitDef | StructureKind::StructDef | StructureKind::EnumDef => {
                    let range = self.range(it.node_range)?;
                    let command = Command {
                        id: String::from_str("rust-analyzer.showReferences"),
                        title: String::from_str("0 implementations"),
                    };
                    out.push(CodeLensSymbol { range, command: Some(command) });
                    proof {
                        let td = type_defs(items@.subrange(0, i + 1));
                        assert(lens_of(self@, td[td.len() - 1], out[out.len() - 1]));
                    }
                },
                StructureKind::Other => {},
            }
            i = i + 1;
        }
        proof {
            assert(items@.subrange(0, items.len() as int) =~= items@);
        }
        Ok(out)
    }

    /// Where the declaration `decl` is, and its current name.
    pub fn prepare_rename(&self, decl: &Declaration) -> (r: Result<RenameLocation, TranslateError>)
        requires
            self.wf(),
        ensures
            match r {
                Ok(loc) => maps_to(self@, decl.range, loc.range) && loc.text == decl.name,
                Err(e) => editor_range(self@, decl.range) == Err::<Range, TranslateError>(e),
            },
    {
        let range = self.range(decl.range)?;
        Ok(RenameLocation { range, text: decl.name.clone() })
    }

    /// The editor edits of the change set `atoms`, one per atom, in order.
    pub fn rename(&self, atoms: &Vec<EditAtom>) -> (r: Result<Vec<TextEdit>, TranslateError>)
        requires
            self.wf(),
        ensures
            match r {
                Ok(v) => v.len() == atoms.len() && forall|i: int|
                    0 <= i < v.len() ==> maps_to(self@, atoms[i].delete, #[trigger] v[i].range)
                        && v[i].text == atoms[i].insert,
                Err(e) => exists|i: int|
                    0 <= i < atoms.len() && editor_range(self@, #[trigger] atoms[i].delete)
                        == Err::<Range, TranslateError>(e),
            },
    {
        let mut out: Vec<TextEdit> = Vec::new();
        let mut i: usize = 0;
        while i < atoms.len()
            invariant
                self.wf(),
                i <= atoms.len(),
                out.len() == i,
                forall|j: int|
                    0 <= j < i ==> maps_to(self@, atoms[j].delete, #[trigger] out[j].range)
                        && out[j].text == atoms[j].insert,
            decreases atoms.len() - i,
        {
            let range = self.range(atoms[i].delete)?;
            out.push(TextEdit { range, text: atoms[i].insert.clone() });
            i = i + 1;
        }
        Ok(out)
    }
}

} // verus!
