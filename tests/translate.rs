use wasm_demo::line_index::{LineCol, LineIndex, TranslateError};
use wasm_demo::position::{Position, Range, TextRange};

const HELLO: &str = "fn main() {\n    println!(\"hi\");\n}\n";

fn rng(a: u32, b: u32, c: u32, d: u32) -> Range {
    Range { startLineNumber: a, startColumn: b, endLineNumber: c, endColumn: d }
}

#[test]
fn origin_is_offset_zero() {
    let idx = LineIndex::new("let x = 1;").unwrap();
    assert_eq!(idx.to_engine_position(1, 1), Ok(0));
    let empty = LineIndex::new("").unwrap();
    assert_eq!(empty.to_engine_position(1, 1), Ok(0));
    assert_eq!(empty.len(), 0);
}

#[test]
fn hover_position_in_println() {
    let idx = LineIndex::new(HELLO).unwrap();
    assert_eq!(idx.to_engine_position(2, 5), Ok(16));
    assert_eq!(idx.to_editor_range(TextRange { start: 16, end: 24 }), Ok(rng(2, 5, 2, 13)));
}

#[test]
fn round_trip_every_offset() {
    let text = "a\u{e9}\u{1F600}\nb\r\n\u{4e2d}x";
    let idx = LineIndex::new(text).unwrap();
    assert_eq!(idx.len() as usize, text.len());
    for o in 0..=(text.len() as u32) {
        match idx.to_editor_position(o) {
            Ok(p) => {
                assert!(text.is_char_boundary(o as usize));
                assert_eq!(idx.to_engine_position(p.line, p.column), Ok(o));
            }
            Err(e) => {
                assert!(!text.is_char_boundary(o as usize));
                assert_eq!(e, TranslateError::OutOfRange);
            }
        }
    }
}

#[test]
fn positions_increase_with_offsets() {
    let text = "ab\n\u{1F600}c\n\nd";
    let idx = LineIndex::new(text).unwrap();
    let mut last: Option<Position> = None;
    for o in 0..=(text.len() as u32) {
        if let Ok(p) = idx.to_editor_position(o) {
            if let Some(q) = last {
                assert!((q.line, q.column) < (p.line, p.column));
            }
            last = Some(p);
        }
    }
    assert_eq!(last, Some(Position { line: 4, column: 2 }));
}

#[test]
fn utf16_columns() {
    let idx = LineIndex::new("\u{1F600}x\n\u{e9}y").unwrap();
    assert_eq!(idx.to_editor_position(4), Ok(Position { line: 1, column: 3 }));
    assert_eq!(idx.to_engine_position(1, 3), Ok(4));
    assert_eq!(idx.to_engine_position(1, 2), Err(TranslateError::OutOfRange));
    assert_eq!(idx.to_engine_position(2, 2), Ok(8));
    assert_eq!(idx.to_editor_position(9), Ok(Position { line: 2, column: 3 }));
    assert_eq!(idx.line_col(8), Ok(LineCol { line: 1, col_utf16: 1 }));
    assert_eq!(idx.offset(LineCol { line: 0, col_utf16: 3 }), Ok(5));
}

#[test]
fn out_of_range_positions() {
    let idx = LineIndex::new(HELLO).unwrap();
    assert_eq!(idx.to_engine_position(0, 1), Err(TranslateError::OutOfRange));
    assert_eq!(idx.to_engine_position(1, 0), Err(TranslateError::OutOfRange));
    assert_eq!(idx.to_engine_position(1, 13), Err(TranslateError::OutOfRange));
    assert_eq!(idx.to_engine_position(1, 12), Ok(11));
    assert_eq!(idx.to_engine_position(4, 1), Ok(34));
    assert_eq!(idx.to_engine_position(5, 1), Err(TranslateError::OutOfRange));
    assert_eq!(idx.to_editor_position(35), Err(TranslateError::OutOfRange));
}

#[test]
fn editor_range_errors() {
    let idx = LineIndex::new("\u{e9}abc").unwrap();
    assert_eq!(idx.to_editor_range(TextRange { start: 1, end: 3 }), Err(TranslateError::OutOfRange));
    assert_eq!(idx.to_editor_range(TextRange { start: 4, end: 2 }), Err(TranslateError::InvertedRange));
    assert_eq!(idx.to_editor_range(TextRange { start: 2, end: 9 }), Err(TranslateError::OutOfRange));
    assert_eq!(idx.to_editor_range(TextRange { start: 0, end: 5 }), Ok(rng(1, 1, 1, 5)));
}

#[test]
fn engine_range_ordering() {
    let idx = LineIndex::new(HELLO).unwrap();
    assert_eq!(idx.to_engine_range(2, 5, 2, 13), Ok(TextRange { start: 16, end: 24 }));
    assert_eq!(idx.to_engine_range(2, 13, 2, 5), Err(TranslateError::InvertedRange));
    assert_eq!(idx.to_engine_range(3, 1, 1, 1), Err(TranslateError::InvertedRange));
    assert_eq!(idx.to_engine_range(2, 5, 9, 1), Err(TranslateError::OutOfRange));
    assert_eq!(idx.to_engine_range(1, 1, 1, 1), Ok(TextRange { start: 0, end: 0 }));
}
