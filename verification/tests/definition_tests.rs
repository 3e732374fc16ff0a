use wat_lsp_rust::definition::provide_definition_core;
use wat_lsp_rust::parser::parse_document;
use wat_lsp_rust::types::Position;

const SOURCE: &str = "(module\n  (func $add (param $a i32) (result i32)\n    local.get $a)\n  (func $main\n    call $add\n    drop)\n  (global $g (mut i32) (i32.const 0))\n  (func $h\n    global.get $g\n    drop))";

#[test]
fn definition_of_called_function() {
    let symbols = parse_document(SOURCE).unwrap();
    let expected = symbols.functions[0].range;
    assert!(expected.is_some());
    assert_eq!(provide_definition_core(SOURCE, &symbols, Position::new(4, 10)), expected);
}

#[test]
fn definition_of_parameter() {
    let symbols = parse_document(SOURCE).unwrap();
    let expected = symbols.functions[0].parameters[0].range;
    assert!(expected.is_some());
    assert_eq!(provide_definition_core(SOURCE, &symbols, Position::new(2, 15)), expected);
}

#[test]
fn definition_of_global() {
    let symbols = parse_document(SOURCE).unwrap();
    let expected = symbols.globals[0].range;
    assert!(expected.is_some());
    assert_eq!(provide_definition_core(SOURCE, &symbols, Position::new(8, 16)), expected);
}

#[test]
fn definition_on_the_declaration_itself() {
    let symbols = parse_document(SOURCE).unwrap();
    let expected = symbols.functions[0].range;
    assert_eq!(provide_definition_core(SOURCE, &symbols, Position::new(1, 9)), expected);
}

#[test]
fn definition_of_unknown_symbol_is_none() {
    let source = "(module\n  (func $main\n    call $missing))";
    let symbols = parse_document(source).unwrap();
    assert_eq!(provide_definition_core(source, &symbols, Position::new(2, 11)), None);
}

#[test]
fn definition_by_index() {
    let source = "(module\n  (func $first)\n  (func $second\n    call 0))";
    let symbols = parse_document(source).unwrap();
    let expected = symbols.functions[0].range;
    assert!(expected.is_some());
    assert_eq!(provide_definition_core(source, &symbols, Position::new(3, 9)), expected);
}

#[test]
fn definition_off_any_word_is_none() {
    let symbols = parse_document(SOURCE).unwrap();
    assert_eq!(provide_definition_core(SOURCE, &symbols, Position::new(4, 2)), None);
}
