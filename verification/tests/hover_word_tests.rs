use wat_lsp_rust::hover::format_function_signature;
use wat_lsp_rust::symbols::{Function, Parameter, ValueType};
use wat_lsp_rust::types::Position;
use wat_lsp_rust::utils::{get_line_at_position, get_word_at_position, is_word_char};

#[test]
fn test_get_word_at_position() {
    let document = "i32.add $var hello";

    assert_eq!(
        get_word_at_position(document, Position::new(0, 0)),
        Some("i32.add".to_string())
    );
    assert_eq!(
        get_word_at_position(document, Position::new(0, 8)),
        Some("$var".to_string())
    );
    assert_eq!(
        get_word_at_position(document, Position::new(0, 13)),
        Some("hello".to_string())
    );
}

#[test]
fn test_get_line_at_position() {
    let document = "line 0\nline 1\nline 2";

    assert_eq!(get_line_at_position(document, 0), Some("line 0"));
    assert_eq!(get_line_at_position(document, 1), Some("line 1"));
    assert_eq!(get_line_at_position(document, 2), Some("line 2"));
    assert_eq!(get_line_at_position(document, 999), None);
}

#[test]
fn test_is_word_char() {
    assert!(is_word_char('a'));
    assert!(is_word_char('Z'));
    assert!(is_word_char('0'));
    assert!(is_word_char('_'));
    assert!(is_word_char('$'));
    assert!(is_word_char('.'));
    assert!(is_word_char('-'));
    assert!(!is_word_char(' '));
    assert!(!is_word_char('('));
    assert!(!is_word_char(')'));
}


#[test]
fn test_format_function_signature() {
    let func = Function {
        name: Some("$test".to_string()),
        index: 0,
        parameters: vec![
            Parameter { name: Some("$x".to_string()), param_type: ValueType::I32, index: 0, range: None },
            Parameter { name: None, param_type: ValueType::I64, index: 1, range: None },
        ],
        results: vec![ValueType::F32],
        locals: vec![],
        blocks: vec![],
        line: 0,
        end_line: 5,
        start_byte: 0,
        end_byte: 150,
        range: None,
        doc_comment: None,
        has_type_use: false,
    };

    let sig = format_function_signature(&func);
    assert!(sig.contains("$test"));
    assert!(sig.contains("$x"));
    assert!(sig.contains("i32"));
    assert!(sig.contains("i64"));
    assert!(sig.contains("f32"));
}
