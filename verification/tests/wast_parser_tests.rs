use wat_lsp_rust::symbols::ValueType;
use wat_lsp_rust::wast_parser::{parse_document, symbols_after_wast, WastStage};

#[test]
fn test_parse_simple_module() {
    let source = r#"
            (module
                (func $add (param $a i32) (param $b i32) (result i32)
                    local.get $a
                    local.get $b
                    i32.add
                )
            )
        "#;

    let result = parse_document(source);
    assert!(result.is_ok(), "Parse failed: {:?}", result.err());

    let symbols = result.unwrap();
    assert_eq!(symbols.functions.len(), 1);

    let func = &symbols.functions[0];
    assert_eq!(func.name, Some("$add".to_string()));
    assert_eq!(func.parameters.len(), 2);
    assert_eq!(func.results.len(), 1);
}

#[test]
fn wast_parser_test_parse_globals() {
    let source = r#"
            (module
                (global $counter (mut i32) (i32.const 0))
                (global $max i32 (i32.const 100))
            )
        "#;

    let result = parse_document(source);
    assert!(result.is_ok(), "Parse failed: {:?}", result.err());

    let symbols = result.unwrap();
    assert_eq!(symbols.globals.len(), 2);
}

#[test]
fn refused_text_gives_the_parse_error() {
    let result = parse_document("(module (func $f (param i32) (nonsense)))");
    match result {
        Err(e) => assert!(e.starts_with("Parse error: "), "unexpected message {e}"),
        Ok(_) => panic!("expected a parse error"),
    }
}

#[test]
fn empty_text_is_refused() {
    assert!(parse_document("").is_err());
}

#[test]
fn verdict_decides_the_outcome() {
    match symbols_after_wast("(module)", Some((WastStage::Buffer, "bad".to_string()))) {
        Err(e) => assert_eq!(e, "Parse buffer error: bad"),
        Ok(_) => panic!("expected the refusal"),
    }
    match symbols_after_wast("(module)", Some((WastStage::Parse, "worse".to_string()))) {
        Err(e) => assert_eq!(e, "Parse error: worse"),
        Ok(_) => panic!("expected the refusal"),
    }
    assert!(symbols_after_wast("(module (func $f))", None).unwrap().functions.len() == 1);
}

#[test]
fn fields_at_their_keyword_lines_and_offsets() {
    let source = "(module\n  (global $g (mut i64) (i64.const 1))\n  (table $t 1 funcref)\n  (memory $m 1)\n  (type $sig (func))\n  (tag $e))";
    let symbols = parse_document(source).unwrap();
    assert_eq!(symbols.globals.len(), 1);
    assert_eq!(symbols.globals[0].var_type, ValueType::I64);
    assert!(symbols.globals[0].is_mutable);
    assert_eq!(symbols.globals[0].line, 1);
    assert_eq!(symbols.globals[0].initial_value, None);
    assert_eq!(symbols.tables[0].name, Some("$t".to_string()));
    assert_eq!((symbols.tables[0].limits.0, symbols.tables[0].limits.1), (0, None));
    assert_eq!(symbols.tables[0].ref_type, ValueType::Funcref);
    assert_eq!(symbols.memories[0].line, 3);
    assert_eq!(symbols.types[0].name, Some("$sig".to_string()));
    assert_eq!(symbols.tags[0].line, 5);
}

#[test]
fn imports_give_bare_functions_and_typed_globals() {
    let source = "(module\n  (import \"env\" \"f\" (func $f (param i32)))\n  (import \"env\" \"g\" (global $g (mut f32)))\n  (func $h (local $x i32) nop))";
    let symbols = parse_document(source).unwrap();
    assert_eq!(symbols.functions.len(), 2);
    assert_eq!(symbols.functions[0].name, Some("$f".to_string()));
    assert_eq!(symbols.functions[0].parameters.len(), 0);
    assert_eq!(symbols.functions[0].line, 1);
    assert_eq!(symbols.functions[1].index, 1);
    assert_eq!(symbols.functions[1].locals.len(), 1);
    assert_eq!(symbols.globals[0].var_type, ValueType::F32);
    assert!(symbols.globals[0].is_mutable);
}

#[test]
fn function_end_line_and_byte_offset() {
    let source = "(module\n  (func $a (param i32)\n    nop)\n  (func $b\n    nop\n  ))";
    let symbols = parse_document(source).unwrap();
    // The first `)` that closes what opened after the keyword: `(param i32)`.
    assert_eq!(symbols.functions[0].end_line, 1);
    assert_eq!(symbols.functions[0].start_byte, 11);
    assert_eq!(symbols.functions[0].end_byte, 11);
    // Nothing opens after `$b`'s keyword before the end: its own line.
    assert_eq!(symbols.functions[1].end_line, 3);
}
