use wat_lsp_rust::docs::get_instruction_doc;
use wat_lsp_rust::hover_core::provide_hover_core;
use wat_lsp_rust::parser::parse_document;
use wat_lsp_rust::symbols::{
    BlockLabel, DataSegment, Function, Global, Limits, Parameter, SymbolTable, Table, TypeDef, TypeKind, ValueType,
    Variable,
};
use wat_lsp_rust::types::Position;
use wat_lsp_rust::utils::is_inside_comment;

/// A table with function `$add`, global `$counter`, table `$funcs` and type
/// `$binop`.
fn create_test_symbols() -> SymbolTable {
    let mut table = SymbolTable::new();
    table.add_function(Function {
        name: Some("$add".to_string()),
        index: 0,
        parameters: vec![
            Parameter { name: Some("$a".to_string()), param_type: ValueType::I32, index: 0, range: None },
            Parameter { name: Some("$b".to_string()), param_type: ValueType::I32, index: 1, range: None },
        ],
        results: vec![ValueType::I32],
        locals: vec![Variable {
            name: Some("$temp".to_string()),
            var_type: ValueType::I32,
            is_mutable: true,
            initial_value: None,
            index: 0,
            range: None,
        }],
        blocks: vec![BlockLabel {
            label: "$exit".to_string(),
            block_type: "block".to_string(),
            line: 5,
            range: None,
        }],
        line: 0,
        end_line: 10,
        start_byte: 0,
        end_byte: 300,
        range: None,
        doc_comment: None,
        has_type_use: false,
    });
    table.add_global(Global {
        name: Some("$counter".to_string()),
        index: 0,
        var_type: ValueType::I32,
        is_mutable: true,
        initial_value: Some("0".to_string()),
        line: 0,
        range: None,
    });
    table.add_table(Table {
        name: Some("$funcs".to_string()),
        index: 0,
        ref_type: ValueType::Funcref,
        limits: Limits(10, None),
        line: 0,
        range: None,
    });
    table.add_type(TypeDef {
        name: Some("$binop".to_string()),
        index: 0,
        kind: TypeKind::Func { params: vec![ValueType::I32, ValueType::I32], results: vec![ValueType::I32] },
        line: 0,
        range: None,
    });
    table
}

/// A small instruction reference, name then text.
fn test_docs() -> Vec<(String, String)> {
    [
        ("i32.add", "**i32.add**\n\nAdd two 32-bit integers."),
        ("f32.mul", "**f32.mul**\n\nMultiply two 32-bit floats."),
        ("local.get", "**local.get**\n\nRead a local variable."),
        ("block", "**block**\n\nBegin a block."),
        ("call", "**call**\n\nCall a function."),
        ("call_ref", "**call_ref**\n\nCall a function reference."),
        ("return_call_ref", "**return_call_ref**\n\nTail-call a function reference."),
        ("br_on_null", "**br_on_null**\n\nBranch when the reference is null."),
        ("br_on_non_null", "**br_on_non_null**\n\nBranch when the reference is not null."),
        ("ref.eq", "**ref.eq**\n\nCompare two references."),
        ("any.convert_extern", "**any.convert_extern**\n\nConvert an external reference."),
        ("extern.convert_any", "**extern.convert_any**\n\nConvert to an external reference."),
        ("array.init_data", "**array.init_data**\n\nFill array elements from a data segment."),
        ("array.init_elem", "**array.init_elem**\n\nFill array elements from an element segment."),
    ]
    .iter()
    .map(|(n, t)| (n.to_string(), t.to_string()))
    .collect()
}

fn hover_text(document: &str, symbols: &SymbolTable, position: Position) -> Option<String> {
    provide_hover_core(document, symbols, &test_docs(), position).map(|h| h.contents)
}

#[test]
fn test_hover_on_function() {
    let document = "call $add";
    let symbols = create_test_symbols();
    let hover = hover_text(document, &symbols, Position::new(0, 6));
    assert!(hover.is_some());
    let content = hover.unwrap();
    assert!(content.contains("func"));
    assert!(content.contains("$add"));
}

#[test]
fn test_hover_on_global() {
    let document = "global.get $counter";
    let symbols = create_test_symbols();
    let hover = hover_text(document, &symbols, Position::new(0, 12));
    assert!(hover.is_some());
    let content = hover.unwrap();
    assert!(content.contains("global"));
    assert!(content.contains("$counter"));
    assert!(content.contains("mut"));
}

#[test]
fn test_hover_on_local_parameter() {
    let document = "(func $test (param $a i32)\n  (local.get $a))";
    let symbols = create_test_symbols();
    let hover = hover_text(document, &symbols, Position::new(1, 14));
    assert!(hover.is_some());
    let content = hover.unwrap();
    assert!(content.contains("param"));
    assert!(content.contains("i32"));
}

#[test]
fn test_hover_on_block_label() {
    let document = "(block $exit\n  (br $exit))";
    let symbols = create_test_symbols();
    let hover = hover_text(document, &symbols, Position::new(1, 7));
    assert!(hover.is_some());
    let content = hover.unwrap();
    assert!(content.contains("block") || content.contains("$exit"));
}

#[test]
fn test_hover_on_table() {
    let document = "table.get $funcs";
    let symbols = create_test_symbols();
    let hover = hover_text(document, &symbols, Position::new(0, 11));
    assert!(hover.is_some());
    let content = hover.unwrap();
    assert!(content.contains("table"));
    assert!(content.contains("$funcs"));
}

#[test]
fn test_hover_on_type() {
    let document = "(type $binop";
    let symbols = create_test_symbols();
    let hover = hover_text(document, &symbols, Position::new(0, 7));
    assert!(hover.is_some());
    let content = hover.unwrap();
    assert!(content.contains("type"));
    assert!(content.contains("$binop"));
}

#[test]
fn test_hover_on_nonexistent_symbol() {
    let document = "call $nonexistent";
    let symbols = create_test_symbols();
    let hover = hover_text(document, &symbols, Position::new(0, 6));
    assert!(hover.is_none());
}

#[test]
fn test_no_hover_in_block_comment() {
    let document = "(; i32.add ;)";
    let symbols = create_test_symbols();
    let position = Position::new(0, 5);
    assert!(is_inside_comment(document, position));
    assert!(provide_hover_core(document, &symbols, &test_docs(), position).is_none());
}

#[test]
fn test_no_hover_in_block_comment_with_symbol() {
    let document = "(; $add ;)";
    let symbols = create_test_symbols();
    let position = Position::new(0, 4);
    assert!(is_inside_comment(document, position));
    assert!(provide_hover_core(document, &symbols, &test_docs(), position).is_none());
}

#[test]
fn test_no_hover_in_line_comment() {
    let document = ";; i32.add";
    let symbols = create_test_symbols();
    let position = Position::new(0, 5);
    assert!(is_inside_comment(document, position));
    assert!(provide_hover_core(document, &symbols, &test_docs(), position).is_none());
}

#[test]
fn test_hover_includes_doc_comment() {
    let doc_with_call = r#"(module
  ;; Adds two 32-bit integers
  (func $add (param $a i32) (param $b i32) (result i32)
    (i32.add (local.get $a) (local.get $b)))
  (func $main
    (call $add (i32.const 1) (i32.const 2)))
)"#;
    let symbols_with_call = parse_document(doc_with_call).unwrap();
    let hover = hover_text(doc_with_call, &symbols_with_call, Position::new(5, 10));
    assert!(hover.is_some(), "Expected hover for function call");
    let content = hover.unwrap();
    assert!(content.contains("Adds two 32-bit integers"), "Hover should include doc comment. Got: {}", content);
    assert!(content.contains("func $add"), "Hover should include function signature");
}

#[test]
fn test_hover_on_annotation_name() {
    let document = r#"(module (@name "test_module"))"#;
    let symbols = create_test_symbols();
    let hover = hover_text(document, &symbols, Position::new(0, 11));
    assert!(hover.is_some(), "Expected hover on annotation name");
    let content = hover.unwrap();
    assert!(content.contains("@name"), "Hover should contain annotation name");
    assert!(content.contains("annotation"), "Hover should indicate it's an annotation");
}

#[test]
fn test_hover_on_annotation_producers() {
    let document = r#"(module (@producers (language "Rust")))"#;
    let symbols = create_test_symbols();
    let hover = hover_text(document, &symbols, Position::new(0, 12));
    assert!(hover.is_some(), "Expected hover on producers annotation");
    assert!(hover.unwrap().contains("@producers"), "Hover should contain annotation name");
}

#[test]
fn test_hover_on_custom_annotation() {
    let document = r#"(module (@unknown_annotation "value"))"#;
    let symbols = create_test_symbols();
    let hover = hover_text(document, &symbols, Position::new(0, 15));
    assert!(hover.is_some(), "Expected hover on custom annotation");
    assert!(hover.unwrap().contains("custom annotation"), "Hover should indicate it's a custom annotation");
}

// Exact hover texts.

#[test]
fn hover_function_text_exact() {
    let symbols = create_test_symbols();
    assert_eq!(
        hover_text("call $add", &symbols, Position::new(0, 6)),
        Some("```wat\n(func $add (param $a i32) (param $b i32) (result i32))\n```".to_string())
    );
}

#[test]
fn hover_global_text_exact() {
    let symbols = create_test_symbols();
    assert_eq!(
        hover_text("global.get $counter", &symbols, Position::new(0, 12)),
        Some("```wat\n(global $counter mut i32)\n```\n\nInitial value: `0`".to_string())
    );
}

#[test]
fn hover_parameter_by_index_in_function() {
    let document = "(module\n  (func $f (param $x i64) (local f32)\n    local.get 1\n    local.get 0))";
    let symbols = parse_document(document).unwrap();
    assert_eq!(
        hover_text(document, &symbols, Position::new(3, 14)),
        Some("```wat\n(param $x i64)\n```".to_string())
    );
    // Index 1 is the first local, which has no name: its local index stands in.
    assert_eq!(
        hover_text(document, &symbols, Position::new(2, 14)),
        Some("```wat\n(local 0 f32)\n```".to_string())
    );
}

#[test]
fn hover_call_by_index() {
    let document = "(module\n  (func $first)\n  (func $second\n    call 0))";
    let symbols = parse_document(document).unwrap();
    assert_eq!(
        hover_text(document, &symbols, Position::new(3, 9)),
        Some("```wat\n(func $first)\n```".to_string())
    );
}

#[test]
fn hover_index_out_of_range_is_none() {
    let document = "(module\n  (func $f\n    call 7))";
    let symbols = parse_document(document).unwrap();
    assert_eq!(hover_text(document, &symbols, Position::new(2, 9)), None);
}

#[test]
fn hover_on_plain_word_is_none() {
    let symbols = create_test_symbols();
    assert_eq!(hover_text("i64.sub", &symbols, Position::new(0, 3)), None);
    assert!(provide_hover_core("i32.add", &symbols, &Vec::new(), Position::new(0, 3)).is_none());
}

#[test]
fn hover_on_whitespace_is_none() {
    let symbols = create_test_symbols();
    assert_eq!(hover_text("call   $add", &symbols, Position::new(0, 5)), None);
}

#[test]
fn hover_data_segment_in_memory_init() {
    let mut symbols = create_test_symbols();
    symbols.add_data(DataSegment {
        name: Some("$greeting".to_string()),
        index: 0,
        content: "hello".to_string(),
        byte_length: 5,
        line: 0,
        range: None,
    });
    assert_eq!(
        hover_text("memory.init $greeting", &symbols, Position::new(0, 14)),
        Some("```wat\n(data $greeting \"hello\")\n```\nLength: 5 bytes".to_string())
    );
}

#[test]
fn standard_annotation_text_exact() {
    let symbols = create_test_symbols();
    assert_eq!(
        hover_text("(module (@name \"m\"))", &symbols, Position::new(0, 11)),
        Some("```wat\n(@name ...)\n```\nstandard annotation".to_string())
    );
}

#[test]
fn inside_comment_boundaries() {
    let document = "(; c ;) x";
    assert!(is_inside_comment(document, Position::new(0, 0)));
    assert!(is_inside_comment(document, Position::new(0, 6)));
    assert!(!is_inside_comment(document, Position::new(0, 7)));
    assert!(!is_inside_comment(document, Position::new(0, 8)));
}

#[test]
fn test_hover_on_instruction() {
    let document = "i32.add";
    let symbols = create_test_symbols();
    let position = Position::new(0, 3);
    let hover = hover_text(document, &symbols, position);
    assert!(hover.is_some());
    assert!(hover.unwrap().contains("Add"));
}

#[test]
fn test_hover_outside_comment() {
    let document = "(; comment ;) i32.add";
    let symbols = create_test_symbols();
    let position = Position::new(0, 17);
    assert!(!is_inside_comment(document, position));
    let hover = hover_text(document, &symbols, position);
    assert!(hover.is_some());
}

#[test]
fn test_instruction_docs_available() {
    let docs = test_docs();
    assert!(get_instruction_doc("i32.add", &docs).is_some());
    assert!(get_instruction_doc("f32.mul", &docs).is_some());
    assert!(get_instruction_doc("local.get", &docs).is_some());
    assert!(get_instruction_doc("block", &docs).is_some());
    assert!(get_instruction_doc("call", &docs).is_some());
}

#[test]
fn test_new_instruction_docs_available() {
    let docs = test_docs();
    assert!(get_instruction_doc("call_ref", &docs).is_some(), "call_ref should be documented");
    assert!(get_instruction_doc("return_call_ref", &docs).is_some(), "return_call_ref should be documented");
    assert!(get_instruction_doc("br_on_null", &docs).is_some(), "br_on_null should be documented");
    assert!(get_instruction_doc("br_on_non_null", &docs).is_some(), "br_on_non_null should be documented");
    assert!(get_instruction_doc("ref.eq", &docs).is_some(), "ref.eq should be documented");
    assert!(get_instruction_doc("any.convert_extern", &docs).is_some(), "any.convert_extern should be documented");
    assert!(get_instruction_doc("extern.convert_any", &docs).is_some(), "extern.convert_any should be documented");
    assert!(get_instruction_doc("array.init_data", &docs).is_some(), "array.init_data should be documented");
    assert!(get_instruction_doc("array.init_elem", &docs).is_some(), "array.init_elem should be documented");
}

#[test]
fn instruction_doc_lookup_gives_first_entry_and_none_when_absent() {
    let docs = vec![
        ("nop".to_string(), "first".to_string()),
        ("nop".to_string(), "second".to_string()),
    ];
    assert_eq!(get_instruction_doc("nop", &docs).as_deref(), Some("first"));
    assert_eq!(get_instruction_doc("drop", &docs), None);
    assert_eq!(get_instruction_doc("nop", &Vec::new()), None);
}
