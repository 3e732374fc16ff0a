use wat_lsp_rust::hover::format_function_signature;
use wat_lsp_rust::signature::{
    extract_name_from_call, find_function_call, provide_call_ref_signature_core,
    find_function_call_ast, provide_direct_call_signature_core, provide_signature_help_core, signature_help_applies,
    signature_help_for_call, CallInfo, CallType, SignatureHelpInfo,
};
use wat_lsp_rust::types::Position;
use wat_lsp_rust::symbols::{Function, Parameter, SymbolTable, TypeDef, TypeKind, ValueType};

fn param(name: Option<&str>, ty: ValueType, index: usize) -> Parameter {
    Parameter { name: name.map(|s| s.to_string()), param_type: ty, index, range: None }
}

fn function(name: &str, index: usize, parameters: Vec<Parameter>, results: Vec<ValueType>, end_byte: usize) -> Function {
    Function {
        name: Some(name.to_string()),
        index,
        parameters,
        results,
        locals: vec![],
        blocks: vec![],
        line: 0,
        end_line: 5,
        start_byte: 0,
        end_byte,
        range: None,
        doc_comment: None,
        has_type_use: false,
    }
}

fn create_test_symbols() -> SymbolTable {
    let mut table = SymbolTable::new();
    table.add_function(function(
        "$add",
        0,
        vec![param(Some("$a"), ValueType::I32, 0), param(Some("$b"), ValueType::I32, 1)],
        vec![ValueType::I32],
        200,
    ));
    table.add_function(function(
        "$process",
        1,
        vec![
            param(Some("$x"), ValueType::I32, 0),
            param(Some("$y"), ValueType::I64, 1),
            param(Some("$z"), ValueType::F32, 2),
        ],
        vec![ValueType::F64],
        300,
    ));
    table.add_type(TypeDef {
        name: Some("$binop".to_string()),
        index: 0,
        kind: TypeKind::Func { params: vec![ValueType::I32, ValueType::I32], results: vec![ValueType::I32] },
        line: 0,
        range: None,
    });
    table.add_type(TypeDef {
        name: Some("$complex_fn".to_string()),
        index: 1,
        kind: TypeKind::Func {
            params: vec![ValueType::I32, ValueType::I64, ValueType::F32],
            results: vec![ValueType::F64],
        },
        line: 0,
        range: None,
    });
    table
}

/// Signature help through the string-based call search.
fn help_for(line_prefix: &str, symbols: &SymbolTable) -> Option<wat_lsp_rust::signature::SignatureHelpInfo> {
    let call = find_function_call(line_prefix)?;
    signature_help_for_call(symbols, &call)
}

#[test]
fn test_find_function_call_simple() {
    let line = "call $add(";
    let info = find_function_call(line);
    assert!(info.is_some());

    let call = info.unwrap();
    assert_eq!(call.name, "$add");
    assert_eq!(call.arg_text, "");
}

#[test]
fn test_find_function_call_with_args() {
    let line = "call $add(5, 10";
    let info = find_function_call(line);
    assert!(info.is_some());

    let call = info.unwrap();
    assert_eq!(call.name, "$add");
    assert_eq!(call.arg_text, "5, 10");
}

#[test]
fn test_find_function_call_nested() {
    let line = "call $outer(call $inner(1), 2";
    let info = find_function_call(line);
    assert!(info.is_some());

    let call = info.unwrap();
    assert_eq!(call.name, "$outer");
}

#[test]
fn test_find_function_call_no_call() {
    let line = "i32.add";
    let info = find_function_call(line);
    assert!(info.is_none());
}

#[test]
fn test_find_function_call_by_index() {
    let line = "call 42(";
    let info = find_function_call(line);
    assert!(info.is_some());

    let call = info.unwrap();
    assert_eq!(call.name, "42");
}

#[test]
fn test_format_function_signature_simple() {
    let func = function("$test", 0, vec![], vec![], 100);
    let sig = format_function_signature(&func);
    assert_eq!(sig, "(func $test)");
}

#[test]
fn test_format_function_signature_with_params() {
    let func = function("$test", 0, vec![param(Some("$x"), ValueType::I32, 0)], vec![], 100);
    let sig = format_function_signature(&func);
    assert!(sig.contains("$test"));
    assert!(sig.contains("$x"));
    assert!(sig.contains("i32"));
}

#[test]
fn test_format_function_signature_with_results() {
    let func = function("$test", 0, vec![], vec![ValueType::I32, ValueType::I64], 100);
    let sig = format_function_signature(&func);
    assert!(sig.contains("result"));
    assert!(sig.contains("i32"));
    assert!(sig.contains("i64"));
}

#[test]
fn test_format_function_signature_unnamed_params() {
    let func = function("$test", 0, vec![param(None, ValueType::I32, 0)], vec![], 100);
    let sig = format_function_signature(&func);
    assert!(sig.contains("param"));
    assert!(sig.contains("i32"));
    assert!(sig.contains("func"));
}

#[test]
fn test_find_function_call_call_ref() {
    let line = "call_ref $binop(";
    let info = find_function_call(line);
    assert!(info.is_some());

    let call = info.unwrap();
    assert_eq!(call.name, "$binop");
    assert_eq!(call.call_type, CallType::CallRef);
}

#[test]
fn test_find_function_call_return_call_ref() {
    let line = "return_call_ref $binop(";
    let info = find_function_call(line);
    assert!(info.is_some());

    let call = info.unwrap();
    assert_eq!(call.name, "$binop");
    assert_eq!(call.call_type, CallType::ReturnCallRef);
}

#[test]
fn test_find_function_call_call_ref_by_index() {
    let line = "call_ref 0(";
    let info = find_function_call(line);
    assert!(info.is_some());

    let call = info.unwrap();
    assert_eq!(call.name, "0");
    assert_eq!(call.call_type, CallType::CallRef);
}

#[test]
fn test_call_type_enum() {
    let call_info_direct =
        CallInfo { name: "$add".to_string(), arg_text: String::new(), call_type: CallType::Direct };
    assert_eq!(call_info_direct.call_type, CallType::Direct);

    let call_info_ref =
        CallInfo { name: "$binop".to_string(), arg_text: String::new(), call_type: CallType::CallRef };
    assert_eq!(call_info_ref.call_type, CallType::CallRef);

    let call_info_return_ref = CallInfo {
        name: "$binop".to_string(),
        arg_text: String::new(),
        call_type: CallType::ReturnCallRef,
    };
    assert_eq!(call_info_return_ref.call_type, CallType::ReturnCallRef);
}

#[test]
fn signature_simple_call_has_both_parameters() {
    let symbols = create_test_symbols();
    let help = help_for("call $add(", &symbols).unwrap();
    assert_eq!(help.signature.label, "(func $add (param $a i32) (param $b i32) (result i32))");
    assert_eq!(help.signature.active_parameter, 0);
    let labels: Vec<&str> = help.signature.parameters.iter().map(|p| p.label.as_str()).collect();
    assert_eq!(labels, vec!["($a i32)", "($b i32)"]);
    assert!(help.signature.documentation.is_none());
}

#[test]
fn signature_active_parameter_counts_commas() {
    let symbols = create_test_symbols();
    assert_eq!(help_for("call $add(5,", &symbols).unwrap().signature.active_parameter, 1);
    assert_eq!(help_for("call $process(1, 2,", &symbols).unwrap().signature.active_parameter, 2);
    // more commas than parameters: clamped to the parameter count
    assert_eq!(help_for("call $add(1, 2, 3, 4,", &symbols).unwrap().signature.active_parameter, 2);
}

#[test]
fn signature_by_index_and_missing_function() {
    let symbols = create_test_symbols();
    assert!(help_for("call 0(", &symbols).unwrap().signature.label.contains("$add"));
    assert!(help_for("call $nonexistent(", &symbols).is_none());
    assert!(help_for("call 7(", &symbols).is_none());
}

#[test]
fn signature_call_ref_lists_funcref_last() {
    let symbols = create_test_symbols();
    let help = help_for("call_ref $binop(", &symbols).unwrap();
    assert_eq!(help.signature.label, "(call_ref $binop) (param i32 i32) (result i32) + funcref");
    let labels: Vec<&str> = help.signature.parameters.iter().map(|p| p.label.as_str()).collect();
    assert_eq!(labels, vec!["(param0 i32)", "(param1 i32)", "(funcref)"]);
    assert_eq!(help.signature.parameters[2].documentation.as_deref(), Some("Function reference to call"));
    assert_eq!(
        help.signature.documentation.as_deref(),
        Some("Indirect call via typed function reference. The last argument must be a function reference of type $binop.")
    );
}

#[test]
fn signature_return_call_ref_and_index() {
    let symbols = create_test_symbols();
    let help = help_for("return_call_ref $complex_fn(", &symbols).unwrap();
    assert!(help.signature.label.starts_with("(return_call_ref $complex_fn)"));
    assert_eq!(help.signature.parameters.len(), 4);
    let by_index = help_for("call_ref 0(", &symbols).unwrap();
    assert!(by_index.signature.label.contains("$binop"));
    assert!(help_for("call_ref $nonexistent(", &symbols).is_none());
}

#[test]
fn call_ref_type_without_params_says_none() {
    let mut symbols = SymbolTable::new();
    symbols.add_type(TypeDef {
        name: None,
        index: 0,
        kind: TypeKind::Func { params: vec![], results: vec![] },
        line: 0,
        range: None,
    });
    let call = CallInfo { name: "0".to_string(), arg_text: "a,b".to_string(), call_type: CallType::CallRef };
    let help = provide_call_ref_signature_core(&symbols, &call).unwrap();
    assert_eq!(help.signature.label, "(call_ref 0) (param none) (result none) + funcref");
    assert_eq!(help.signature.active_parameter, 1);
    // a direct call does not look at types
    assert!(provide_direct_call_signature_core(&symbols, &call).is_none());
}

#[test]
fn extract_name_stops_at_space_or_paren() {
    assert_eq!(extract_name_from_call("$f (x)"), Some("$f".to_string()));
    assert_eq!(extract_name_from_call("$g(x)"), Some("$g".to_string()));
    assert_eq!(extract_name_from_call("(x)"), None);
    assert_eq!(extract_name_from_call(""), None);
}

#[test]
fn call_preceded_by_underscore_is_not_direct() {
    assert!(find_function_call("my_call $f(").is_none());
}

/// Signature help at a position of a document.
fn help_at(document: &str, symbols: &SymbolTable, position: Position) -> Option<SignatureHelpInfo> {
    assert!(signature_help_applies(document, position));
    provide_signature_help_core(document, symbols, position)
}

#[test]
fn test_signature_help_simple_call() {
    let document = "call $add(";
    let symbols = create_test_symbols();
    let sig_help = help_at(document, &symbols, Position::new(0, 10));
    assert!(sig_help.is_some());
    let help = sig_help.unwrap();
    assert_eq!(help.signature.active_parameter, 0);
    let signature = &help.signature;
    assert!(signature.label.contains("$add"));
    assert_eq!(signature.parameters.len(), 2);
}

#[test]
fn test_signature_help_with_first_arg() {
    let document = "call $add(5,";
    let symbols = create_test_symbols();
    let sig_help = help_at(document, &symbols, Position::new(0, 12));
    assert!(sig_help.is_some());
    assert_eq!(sig_help.unwrap().signature.active_parameter, 1);
}

#[test]
fn test_signature_help_multi_param() {
    let document = "call $process(1,";
    let symbols = create_test_symbols();
    let sig_help = help_at(document, &symbols, Position::new(0, 16));
    assert!(sig_help.is_some());
    let help = sig_help.unwrap();
    assert_eq!(help.signature.active_parameter, 1);
    assert!(help.signature.label.contains("$process"));
    assert_eq!(help.signature.parameters.len(), 3);
}

#[test]
fn test_signature_help_third_param() {
    let document = "call $process(1, 2,";
    let symbols = create_test_symbols();
    let sig_help = help_at(document, &symbols, Position::new(0, 19));
    assert!(sig_help.is_some());
    assert_eq!(sig_help.unwrap().signature.active_parameter, 2);
}

#[test]
fn test_signature_help_nonexistent_function() {
    let document = "call $nonexistent(";
    let symbols = create_test_symbols();
    assert!(help_at(document, &symbols, Position::new(0, 18)).is_none());
}

#[test]
fn test_signature_help_by_index() {
    let document = "call 0(";
    let symbols = create_test_symbols();
    let sig_help = help_at(document, &symbols, Position::new(0, 7));
    assert!(sig_help.is_some());
    assert!(sig_help.unwrap().signature.label.contains("$add"));
}

#[test]
fn test_signature_help_parameter_info() {
    let document = "call $add(";
    let symbols = create_test_symbols();
    let help = help_at(document, &symbols, Position::new(0, 10)).unwrap();
    let params = &help.signature.parameters;
    assert_eq!(params.len(), 2);
    assert!(params[0].label.contains("$a"));
    assert!(params[0].label.contains("i32"));
}

#[test]
fn test_signature_help_call_ref() {
    let document = "call_ref $binop(";
    let symbols = create_test_symbols();
    let sig_help = help_at(document, &symbols, Position::new(0, 16));
    assert!(sig_help.is_some());
    let help = sig_help.unwrap();
    let signature = &help.signature;
    assert!(signature.label.contains("call_ref"));
    assert!(signature.label.contains("$binop"));
    let params = &signature.parameters;
    assert_eq!(params.len(), 3);
    assert!(params[2].label.contains("funcref"));
}

#[test]
fn test_signature_help_return_call_ref() {
    let document = "return_call_ref $complex_fn(";
    let symbols = create_test_symbols();
    let sig_help = help_at(document, &symbols, Position::new(0, 28));
    assert!(sig_help.is_some());
    let help = sig_help.unwrap();
    assert!(help.signature.label.contains("return_call_ref"));
    assert!(help.signature.label.contains("$complex_fn"));
    assert_eq!(help.signature.parameters.len(), 4);
}

#[test]
fn test_signature_help_call_ref_nonexistent_type() {
    let document = "call_ref $nonexistent(";
    let symbols = create_test_symbols();
    assert!(help_at(document, &symbols, Position::new(0, 22)).is_none());
}

#[test]
fn test_signature_help_call_ref_by_index() {
    let document = "call_ref 0(";
    let symbols = create_test_symbols();
    let sig_help = help_at(document, &symbols, Position::new(0, 11));
    assert!(sig_help.is_some());
    assert!(sig_help.unwrap().signature.label.contains("call_ref"));
}

#[test]
fn signature_help_inside_folded_call() {
    let document = "(module\n  (func $main\n    (call $add (i32.const 1) )))";
    let symbols = create_test_symbols();
    let call = find_function_call_ast(document, Position::new(2, 28)).unwrap();
    assert_eq!(call.name, "$add");
    assert_eq!(call.arg_text, "");
    assert_eq!(call.call_type, CallType::Direct);
    let help = help_at(document, &symbols, Position::new(2, 28)).unwrap();
    assert!(help.signature.label.contains("$add"));
    assert_eq!(help.signature.active_parameter, 0);
}

#[test]
fn signature_help_on_flat_call_operands() {
    let document = "(module\n  (func $main\n    call_ref $binop $f $g\n    drop))";
    let call = find_function_call_ast(document, Position::new(2, 22)).unwrap();
    assert_eq!(call.name, "$binop");
    assert_eq!(call.arg_text, ",");
    assert_eq!(call.call_type, CallType::CallRef);
}

#[test]
fn no_call_in_syntax_of_plain_instruction() {
    let document = "(module\n  (func $main\n    i32.const 1\n    drop))";
    assert!(find_function_call_ast(document, Position::new(2, 8)).is_none());
    let symbols = create_test_symbols();
    assert!(help_at(document, &symbols, Position::new(2, 8)).is_none());
}

#[test]
fn column_past_the_line_reads_the_whole_line() {
    let document = "call $add(5,\nnop";
    let symbols = create_test_symbols();
    let help = help_at(document, &symbols, Position::new(0, 50)).unwrap();
    assert!(help.signature.label.contains("$add"));
    assert_eq!(help.signature.active_parameter, 1);
}
