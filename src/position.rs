//! Editor-space coordinates (1-based line, 1-based UTF-16 column) and their
//! translation to and from engine-space byte offsets.
#![allow(non_snake_case)]

use vstd::prelude::*;

use crate::line_index::{
    byte_len, byte_offset, lemma_byte_offset_mono, lemma_index_unique, lemma_line_col_bound,
    lemma_line_col_strict, lex_lt, line_col, line_col_at, offset_at, LineCol, LineIndex,
    TranslateError,
};

verus! {

/// A position as the editor gives it: both numbers start at 1.
#[derive(Clone, Copy, Debug, PartialEq, Eq, Structural)]
pub struct Position {
    pub line: u32,
    pub column: u32,
}

/// A range as the editor reads it: all four numbers start at 1.
#[derive(Clone, Copy, Debug, PartialEq, Eq, Structural)]
pub struct Range {
    pub startLineNumber: u32,
    pub startColumn: u32,
    pub endLineNumber: u32,
    pub endColumn: u32,
}

/// A range of byte offsets `[start, end)` into the document.
#[derive(Clone, Copy, Debug, PartialEq, Eq, Structural)]
pub struct TextRange {
    pub start: u32,
    pub end: u32,
}

/// Editor position (1-based) of the boundary at byte offset `o`.
pub open spec fn editor_position_at(s: Seq<char>, o: nat) -> Option<(nat, nat)> {
    match line_col_at(s, o) {
        Some(lc) => Some((lc.0 + 1, lc.1 + 1)),
        None => None,
    }
}

/// Byte offset named by the 1-based editor position (`line`, `column`).
pub open spec fn engine_offset_of(s: Seq<char>, line: nat, column: nat) -> Option<nat> {
    if line >= 1 && column >= 1 {
        offset_at(s, ((line - 1) as nat, (column - 1) as nat))
    } else {
        None
    }
}

/// The editor range of the byte offsets `[start, end)`.
pub open spec fn editor_range_of(s: Seq<char>, start: nat, end: nat) -> Result<
    Range,
    TranslateError,
> {
    match (editor_position_at(s, start), editor_position_at(s, end)) {
        (Some(a), Some(b)) => if start <= end {
            Ok(
                Range {
                    startLineNumber: a.0 as u32,
                    startColumn: a.1 as u32,
                    endLineNumber: b.0 as u32,
                    endColumn: b.1 as u32,
                },
            )
        } else {
            Err(TranslateError::InvertedRange)
        },
        _ => Err(TranslateError::OutOfRange),
    }
}

/// The byte range named by the editor range with the given 1-based corners.
pub open spec fn engine_range_of(
    s: Seq<char>,
    start_line: nat,
    start_column: nat,
    end_line: nat,
    end_column: nat,
) -> Result<TextRange, TranslateError> {
    match (
        engine_offset_of(s, start_line, start_column),
        engine_offset_of(s, end_line, end_column),
    ) {
        (Some(a), Some(b)) => if a <= b {
            Ok(TextRange { start: a as u32, end: b as u32 })
        } else {
            Err(TranslateError::InvertedRange)
        },
        _ => Err(TranslateError::OutOfRange),
    }
}

/// Every editor position of a document that fits the index has both
/// numbers below `u32::MAX`.
proof fn lemma_editor_position_fits(s: Seq<char>, o: nat)
    requires
        byte_len(s) < u32::MAX,
        line_col_at(s, o) is Some,
    ensures
        line_col_at(s, o).unwrap().0 + 1 <= u32::MAX,
        line_col_at(s, o).unwrap().1 + 1 <= u32::MAX,
{
    let k = choose|k: nat| k <= s.len() && byte_offset(s, k) == o;
    lemma_line_col_bound(s, k);
    lemma_byte_offset_mono(s, k, s.len());
}

impl LineIndex {
    /// Byte offset of the 1-based editor position (`line`, `column`);
    /// `OutOfRange` when either is 0 or the place is not in the document.
    pub fn to_engine_position(&self, line: u32, column: u32) -> (r: Result<u32, TranslateError>)
        requires
            self.wf(),
        ensures
            match r {
                Ok(o) => engine_offset_of(self@, line as nat, column as nat) == Some(o as nat),
                Err(e) => e == TranslateError::OutOfRange && engine_offset_of(
                    self@,
                    line as nat,
                    column as nat,
                ) is None,
            },
    {
        if line == 0 || column == 0 {
            return Err(TranslateError::OutOfRange);
        }
        self.offset(LineCol { line: line - 1, col_utf16: column - 1 })
    }

    /// 1-based editor position of byte offset `offset`; `OutOfRange` when it
    /// is past the end or inside a character.
    pub fn to_editor_position(&self, offset: u32) -> (r: Result<Position, TranslateError>)
        requires
            self.wf(),
        ensures
            match r {
                Ok(p) => editor_position_at(self@, offset as nat) == Some(
                    (p.line as nat, p.column as nat),
                ),
                Err(e) => e == TranslateError::OutOfRange && editor_position_at(
                    self@,
                    offset as nat,
                ) is None,
            },
    {
        match self.line_col(offset) {
            Ok(lc) => {
                proof {
                    lemma_editor_position_fits(self@, offset as nat);
                }
                Ok(Position { line: lc.line + 1, column: lc.col_utf16 + 1 })
            },
            Err(e) => Err(e),
        }
    }

    /// Editor range of the byte range `range`: `OutOfRange` when an end is
    /// not a boundary of the document, else `InvertedRange` when the start
    /// lies after the end.
    pub fn to_editor_range(&self, range: TextRange) -> (r: Result<Range, TranslateError>)
        requires
            self.wf(),
        ensures
            r == editor_range_of(self@, range.start as nat, range.end as nat),
    {
        let start = self.to_editor_position(range.start);
        let end = self.to_editor_position(range.end);
        match (start, end) {
            (Ok(a), Ok(b)) => {
                if range.start <= range.end {
                    Ok(
                        Range {
                            startLineNumber: a.line,
                            startColumn: a.column,
                            endLineNumber: b.line,
                            endColumn: b.column,
                        },
                    )
                } else {
                    Err(TranslateError::InvertedRange)
                }
            },
            _ => Err(TranslateError::OutOfRange),
        }
    }

    /// Byte range of the editor range with the given 1-based corners:
    /// `OutOfRange` when a corner is not in the document, else
    /// `InvertedRange` when the start offset exceeds the end offset.
    pub fn to_engine_range(
        &self,
        start_line: u32,
        start_column: u32,
        end_line: u32,
        end_column: u32,
    ) -> (r: Result<TextRange, TranslateError>)
        requires
            self.wf(),
        ensures
            r == engine_range_of(
                self@,
                start_line as nat,
                start_column as nat,
                end_line as nat,
                end_column as nat,
            ),
            ({
                let a = engine_offset_of(self@, start_line as nat, start_column as nat);
                let b = engine_offset_of(self@, end_line as nat, end_column as nat);
                a is Some && b is Some && a.unwrap() > b.unwrap() ==> r == Err::<
                    TextRange,
                    TranslateError,
                >(TranslateError::InvertedRange)
            }),
    {
        let from = self.to_engine_position(start_line, start_column);
        let to = self.to_engine_position(end_line, end_column);
        match (from, to) {
            (Ok(a), Ok(b)) => {
                if a <= b {
                    Ok(TextRange { start: a, end: b })
                } else {
                    Err(TranslateError::InvertedRange)
                }
            },
            _ => Err(TranslateError::OutOfRange),
        }
    }
}

/// Round trip: the editor position of any boundary offset `o` translates back
/// to `o`.
pub proof fn lemma_round_trip(s: Seq<char>, o: nat)
    requires
        editor_position_at(s, o) is Some,
    ensures
        engine_offset_of(s, editor_position_at(s, o).unwrap().0, editor_position_at(s, o).unwrap().1)
            == Some(o),
{
    let k = choose|k: nat| k <= s.len() && byte_offset(s, k) == o;
    let lc = line_col(s, k);
    assert(line_col(s, k) == lc);
    let kk = choose|kk: nat| kk <= s.len() && line_col(s, kk) == lc;
    lemma_index_unique(s, k, kk);
}

/// Monotonicity: of two boundary offsets, the smaller one has the strictly
/// smaller editor position in (line, column) order.
pub proof fn lemma_monotone(s: Seq<char>, o1: nat, o2: nat)
    requires
        o1 < o2,
        editor_position_at(s, o1) is Some,
        editor_position_at(s, o2) is Some,
    ensures
        lex_lt(editor_position_at(s, o1).unwrap(), editor_position_at(s, o2).unwrap()),
{
    let k1 = choose|k: nat| k <= s.len() && byte_offset(s, k) == o1;
    let k2 = choose|k: nat| k <= s.len() && byte_offset(s, k) == o2;
    if k2 <= k1 {
        lemma_byte_offset_mono(s, k2, k1);
    }
    lemma_line_col_strict(s, k1, k2);
}

/// Origin: editor position (1, 1) is byte offset 0 in every document.
pub proof fn lemma_origin(s: Seq<char>)
    ensures
        engine_offset_of(s, 1, 1) == Some(0nat),
{
    assert(line_col(s, 0) == (0nat, 0nat));
    let kk = choose|kk: nat| kk <= s.len() && line_col(s, kk) == (0nat, 0nat);
    lemma_index_unique(s, 0, kk);
}

} // verus!
