use wat_lsp_rust::parser::{parse_document, parse_document_modules};
use wat_lsp_rust::references::local_indices_fit_check;
use wat_lsp_rust::session::{
    apply_content_changes, change_decision, module_for_position, prepare_rename_range, rename_plan, ChangeDecision,
    ContentChange, RenamePlan,
};
use wat_lsp_rust::types::{Position, Range};

fn range(l1: u32, c1: u32, l2: u32, c2: u32) -> Range {
    Range { start: Position::new(l1, c1), end: Position::new(l2, c2) }
}

#[test]
fn module_for_position_picks_the_containing_module() {
    let source = "(module $a\n  (func $f))\n(module $b\n  (func $g))";
    let modules = parse_document_modules(source).unwrap();
    assert_eq!(modules.len(), 2);
    assert_eq!(module_for_position(&modules, Position::new(1, 4)), Some(0));
    assert_eq!(module_for_position(&modules, Position::new(3, 4)), Some(1));
}

#[test]
fn module_for_position_falls_back_to_the_first() {
    let source = "(module $a\n  (func $f))\n(module $b\n  (func $g))";
    let modules = parse_document_modules(source).unwrap();
    assert_eq!(module_for_position(&modules, Position::new(40, 0)), Some(0));
    assert_eq!(module_for_position(&Vec::new(), Position::new(0, 0)), None);
}

#[test]
fn change_decisions() {
    assert_eq!(change_decision(Some(3), 4), ChangeDecision::Apply);
    assert_eq!(change_decision(Some(3), 3), ChangeDecision::Stale);
    assert_eq!(change_decision(Some(3), 2), ChangeDecision::Stale);
    assert_eq!(change_decision(None, 1), ChangeDecision::Unopened);
}

#[test]
fn incremental_insertion_applies() {
    let mut text = "(module (func $a))".to_string();
    let changes = vec![ContentChange { range: Some(range(0, 16, 0, 16)), text: "b".to_string() }];
    assert!(apply_content_changes(&mut text, &changes));
    assert_eq!(text, "(module (func $ab))");
}

#[test]
fn changes_apply_in_order() {
    let mut text = "(module)".to_string();
    let changes = vec![
        ContentChange { range: None, text: "(module\n)".to_string() },
        ContentChange { range: Some(range(0, 7, 0, 7)), text: " (func $f)".to_string() },
        ContentChange { range: Some(range(0, 14, 0, 16)), text: "$main".to_string() },
    ];
    assert!(apply_content_changes(&mut text, &changes));
    assert_eq!(text, "(module (func $main)\n)");
}

#[test]
fn rename_plans() {
    let source = "(module\n  (func $f\n    call $f))";
    let symbols = parse_document(source).unwrap();
    let at = Position::new(2, 10);
    assert!(local_indices_fit_check(&symbols, at));
    match rename_plan(source, &symbols, at, "$g", None) {
        RenamePlan::Edits(ranges) => {
            assert_eq!(ranges.len(), 2);
            assert!(ranges.contains(&range(2, 9, 2, 11)));
        },
        _ => panic!("expected edits"),
    }
    assert!(matches!(rename_plan(source, &symbols, at, "g", None), RenamePlan::InvalidName));
    assert!(matches!(rename_plan(source, &symbols, Position::new(2, 5), "$g", None), RenamePlan::NoSymbol));
}

#[test]
fn rename_of_unnamed_symbol_is_refused() {
    let source = "(module\n  (func\n    call 0))";
    let symbols = parse_document(source).unwrap();
    assert!(matches!(rename_plan(source, &symbols, Position::new(2, 9), "$g", None), RenamePlan::Unnamed));
}

#[test]
fn prepare_rename_selects_the_identifier() {
    let source = "(module\n  (func $f\n    call $f))";
    let symbols = parse_document(source).unwrap();
    assert_eq!(prepare_rename_range(source, &symbols, Position::new(2, 10)), Some(range(2, 9, 2, 11)));
    assert_eq!(prepare_rename_range(source, &symbols, Position::new(2, 5)), None);
}
