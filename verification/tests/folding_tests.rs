use wat_lsp_rust::folding::{provide_folding_ranges, FoldingRangeKind, FoldingRangeResult};
use wat_lsp_rust::parser::parse_document;

fn folds(source: &str) -> Vec<(u32, u32, FoldingRangeKind)> {
    let symbols = parse_document(source).unwrap();
    provide_folding_ranges(source, &symbols).iter().map(|r| (r.start_line, r.end_line, r.kind)).collect()
}

#[test]
fn folds_functions_blocks_and_comments() {
    let source = "(module\n  (func $f\n    (block $b\n      nop)\n    i32.const 1\n    drop)\n  (; a\n  comment ;)\n)";
    assert_eq!(
        folds(source),
        vec![
            (1, 5, FoldingRangeKind::Region),
            (2, 3, FoldingRangeKind::Region),
            (6, 7, FoldingRangeKind::Comment),
        ]
    );
}

#[test]
fn folds_flat_block_to_its_end() {
    let source = "(module\n  (func\n    block\n      nop\n    end))";
    assert_eq!(folds(source), vec![(1, 4, FoldingRangeKind::Region), (2, 4, FoldingRangeKind::Region)]);
}

#[test]
fn ranges_over_the_same_lines_appear_once() {
    let source = "(module\n  (type $p (struct\n    (field i32))))";
    assert_eq!(folds(source), vec![(1, 2, FoldingRangeKind::Region)]);
}

#[test]
fn single_line_forms_do_not_fold() {
    assert_eq!(folds("(module (func $f (block nop)))"), vec![]);
}

#[test]
fn module_fields_fold() {
    let source = "(module\n  (global $g\n    i32 (i32.const 0))\n  (data\n    \"x\"))";
    assert_eq!(folds(source), vec![(1, 2, FoldingRangeKind::Region), (3, 4, FoldingRangeKind::Region)]);
}

#[test]
fn folding_ranges_are_sorted_and_span_lines() {
    let source = "(module\n  (func $a\n    (loop\n      br 0)\n  )\n  (func $b\n    nop\n  )\n  (memory 1\n  )\n)";
    let symbols = parse_document(source).unwrap();
    let ranges: Vec<FoldingRangeResult> = provide_folding_ranges(source, &symbols);
    assert!(!ranges.is_empty());
    for r in &ranges {
        assert!(r.start_line < r.end_line);
    }
    for w in ranges.windows(2) {
        assert!((w[0].start_line, w[0].end_line) < (w[1].start_line, w[1].end_line));
    }
}
