use wasm_demo::engine::{
    severity_code, Declaration, EditAtom, EngineDiagnostic, HighlightedRange, HoverInfo, Severity,
    StructureKind, StructureNode,
};
use wasm_demo::line_index::TranslateError;
use wasm_demo::position::{Range, TextRange};
use wasm_demo::world::WorldState;

const HELLO: &str = "fn main() {\n    println!(\"hi\");\n}\n";

fn rng(a: u32, b: u32, c: u32, d: u32) -> Range {
    Range { startLineNumber: a, startColumn: b, endLineNumber: c, endColumn: d }
}

fn tr(start: u32, end: u32) -> TextRange {
    TextRange { start, end }
}

fn world(text: &str) -> WorldState {
    let mut w = WorldState::new();
    assert_eq!(w.update(text), Ok(()));
    w
}

#[test]
fn severity_codes() {
    assert_eq!(severity_code(Severity::Error), 8);
    assert_eq!(severity_code(Severity::WeakWarning), 1);
}

#[test]
fn new_world_is_empty() {
    let w = WorldState::new();
    assert_eq!(w.file_pos(1, 1), Ok(0));
    assert_eq!(w.file_pos(1, 2), Err(TranslateError::OutOfRange));
}

#[test]
fn update_replaces_document() {
    let mut w = world("abc");
    assert_eq!(w.file_pos(1, 4), Ok(3));
    assert_eq!(w.update("x\ny"), Ok(()));
    assert_eq!(w.file_pos(1, 4), Err(TranslateError::OutOfRange));
    assert_eq!(w.file_pos(2, 2), Ok(3));
    assert_eq!(w.range(tr(0, 3)), Ok(rng(1, 1, 2, 2)));
    assert_eq!(w.file_range(1, 1, 2, 2), Ok(tr(0, 3)));
}

#[test]
fn hover_scenario() {
    let w = world(HELLO);
    assert_eq!(w.file_pos(2, 5), Ok(16));
    let info = HoverInfo { markup: "```rust\nmacro_rules! println\n```".to_string(), range: tr(16, 24) };
    let h = w.hover(&info).unwrap();
    assert_eq!(h.range, rng(2, 5, 2, 13));
    assert_eq!(h.contents.len(), 1);
    assert_eq!(h.contents[0].value, info.markup);
    let bad = HoverInfo { markup: String::new(), range: tr(16, 99) };
    assert_eq!(w.hover(&bad).err(), Some(TranslateError::OutOfRange));
}

#[test]
fn diagnostics_are_translated() {
    let w = world(HELLO);
    let ds = vec![
        EngineDiagnostic { message: "unused".to_string(), severity: Severity::WeakWarning, range: tr(3, 7) },
        EngineDiagnostic { message: "broken".to_string(), severity: Severity::Error, range: tr(12, 33) },
    ];
    let out = w.diagnostics(&ds).unwrap();
    assert_eq!(out.len(), 2);
    assert_eq!(out[0].message, "unused");
    assert_eq!(out[0].severity, 1);
    assert_eq!((out[0].startLineNumber, out[0].startColumn, out[0].endLineNumber, out[0].endColumn), (1, 4, 1, 8));
    assert_eq!(out[1].severity, 8);
    assert_eq!((out[1].startLineNumber, out[1].startColumn, out[1].endLineNumber, out[1].endColumn), (2, 1, 3, 2));
    let bad = vec![EngineDiagnostic { message: "x".to_string(), severity: Severity::Error, range: tr(5, 2) }];
    assert_eq!(w.diagnostics(&bad).err(), Some(TranslateError::InvertedRange));
}

#[test]
fn update_result_collects_both() {
    let w = world(HELLO);
    let ds = vec![EngineDiagnostic { message: "m".to_string(), severity: Severity::Error, range: tr(0, 2) }];
    let hls = vec![
        HighlightedRange { range: tr(0, 2), tag: "keyword".to_string() },
        HighlightedRange { range: tr(3, 7), tag: "function".to_string() },
    ];
    let u = w.update_result(&ds, &hls).unwrap();
    assert_eq!(u.diagnostics.len(), 1);
    assert_eq!(u.highlights.len(), 2);
    assert_eq!(u.highlights[1].tag, Some("function".to_string()));
    assert_eq!(u.highlights[1].range, rng(1, 4, 1, 8));
    let bad = vec![HighlightedRange { range: tr(0, 200), tag: "x".to_string() }];
    assert_eq!(w.update_result(&ds, &bad).err(), Some(TranslateError::OutOfRange));
}

#[test]
fn references_are_untagged() {
    let w = world(HELLO);
    let out = w.references(&vec![tr(3, 7), tr(16, 24)]).unwrap();
    assert_eq!(out.len(), 2);
    assert_eq!(out[0].tag, None);
    assert_eq!(out[0].range, rng(1, 4, 1, 8));
    assert_eq!(out[1].range, rng(2, 5, 2, 13));
    assert_eq!(w.references(&vec![]).unwrap().len(), 0);
}

#[test]
fn code_lenses_only_for_type_definitions() {
    let text = "struct A;\nfn f() {}\nenum B { X }\ntrait C {}\n";
    let w = world(text);
    let items = vec![
        StructureNode { kind: StructureKind::StructDef, node_range: tr(0, 9) },
        StructureNode { kind: StructureKind::Other, node_range: tr(10, 19) },
        StructureNode { kind: StructureKind::EnumDef, node_range: tr(20, 32) },
        StructureNode { kind: StructureKind::TraitDef, node_range: tr(33, 43) },
    ];
    let lenses = w.code_lenses(&items).unwrap();
    assert_eq!(lenses.len(), 3);
    assert_eq!(lenses[0].range, rng(1, 1, 1, 10));
    assert_eq!(lenses[1].range, rng(3, 1, 3, 13));
    assert_eq!(lenses[2].range, rng(4, 1, 4, 11));
    let cmd = lenses[2].command.as_ref().unwrap();
    assert_eq!(cmd.id, "rust-analyzer.showReferences");
    assert_eq!(cmd.title, "0 implementations");
    let skipped = vec![StructureNode { kind: StructureKind::Other, node_range: tr(0, 500) }];
    assert_eq!(w.code_lenses(&skipped).unwrap().len(), 0);
}

#[test]
fn prepare_rename_location() {
    let w = world("let foo = 1;\nfoo + foo\n");
    let decl = Declaration { name: "foo".to_string(), range: tr(4, 7) };
    let loc = w.prepare_rename(&decl).unwrap();
    assert_eq!(loc.range, rng(1, 5, 1, 8));
    assert_eq!(loc.text, "foo");
}

#[test]
fn rename_declaration_with_two_usages() {
    let text = "let foo = 1;\nfoo + foo\n";
    let w = world(text);
    let atoms = vec![
        EditAtom { delete: tr(4, 7), insert: "bar".to_string() },
        EditAtom { delete: tr(13, 16), insert: "bar".to_string() },
        EditAtom { delete: tr(19, 22), insert: "bar".to_string() },
    ];
    let edits = w.rename(&atoms).unwrap();
    assert_eq!(edits.len(), 3);
    assert_eq!(edits[0].range, rng(1, 5, 1, 8));
    assert_eq!(edits[1].range, rng(2, 1, 2, 4));
    assert_eq!(edits[2].range, rng(2, 7, 2, 10));
    for e in &edits {
        assert_eq!(e.text, "bar");
        assert!(e.range.endLineNumber <= 3);
    }
    for pair in edits.windows(2) {
        let (a, b) = (&pair[0].range, &pair[1].range);
        assert!((a.endLineNumber, a.endColumn) <= (b.startLineNumber, b.startColumn));
    }
}
