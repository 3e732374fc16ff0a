use wat_lsp_rust::symbol_lookup::find_symbol_definition_range;
use wat_lsp_rust::symbols::{Function, Global, Parameter, SymbolTable, ValueType};
use wat_lsp_rust::types::{Position, Range};


fn make_test_symbols() -> SymbolTable {
    let mut symbols = SymbolTable::new();
    symbols.add_function(Function {
        name: Some("$add".to_string()),
        index: 0,
        parameters: vec![
            Parameter {
                name: Some("$a".to_string()),
                param_type: ValueType::I32,
                index: 0,
                range: Some(Range::from_coords(1, 10, 1, 12)),
            },
            Parameter {
                name: Some("$b".to_string()),
                param_type: ValueType::I32,
                index: 1,
                range: Some(Range::from_coords(1, 20, 1, 22)),
            },
        ],
        results: vec![ValueType::I32],
        locals: vec![],
        blocks: vec![],
        line: 1,
        end_line: 5,
        start_byte: 0,
        end_byte: 100,
        range: Some(Range::from_coords(1, 6, 1, 10)),
        doc_comment: None,
        has_type_use: false,
    });
    symbols.add_global(Global {
        name: Some("$counter".to_string()),
        index: 0,
        var_type: ValueType::I32,
        is_mutable: true,
        initial_value: None,
        line: 0,
        range: Some(Range::from_coords(0, 8, 0, 16)),
    });
    symbols
}

#[test]
fn test_find_function_definition() {
    let symbols = make_test_symbols();
    let range = find_symbol_definition_range("$add", &symbols, Position::new(2, 0));
    assert!(range.is_some());
    assert_eq!(range.unwrap().start.line, 1);
}

#[test]
fn test_find_global_definition() {
    let symbols = make_test_symbols();
    let range = find_symbol_definition_range("$counter", &symbols, Position::new(2, 0));
    assert!(range.is_some());
    assert_eq!(range.unwrap().start.line, 0);
}

#[test]
fn test_find_param_definition() {
    let symbols = make_test_symbols();
    // Position inside the function
    let range = find_symbol_definition_range("$a", &symbols, Position::new(2, 0));
    assert!(range.is_some());
    assert_eq!(range.unwrap().start.character, 10);
}

