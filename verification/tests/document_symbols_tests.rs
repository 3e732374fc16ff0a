use wat_lsp_rust::document_symbols::provide_document_symbols_core;
use wat_lsp_rust::parser::parse_document;
use wat_lsp_rust::symbols::SymbolTable;
use wat_lsp_rust::types::SymbolKindCore;

#[test]
fn test_empty_document() {
    let symbols = SymbolTable::new();
    let result = provide_document_symbols_core(&symbols);
    assert!(result.is_empty());
}

#[test]
fn test_function_symbols() {
    let source = r#"
(module
  (func $add (param $a i32) (param $b i32) (result i32)
    (local $tmp i32)
    (i32.add (local.get $a) (local.get $b))
  )
)
"#;

    let symbols = parse_document(source).unwrap();
    let result = provide_document_symbols_core(&symbols);

    assert_eq!(result.len(), 1);
    let func_sym = &result[0];
    assert_eq!(func_sym.name, "$add");
    assert_eq!(func_sym.kind, SymbolKindCore::Function);

    let children = func_sym.children.as_ref().unwrap();
    assert_eq!(children.len(), 3);

    assert_eq!(children[0].name, "$a");
    assert_eq!(children[0].kind, SymbolKindCore::Variable);
    assert_eq!(children[0].detail.as_deref(), Some("i32"));

    assert_eq!(children[1].name, "$b");
    assert_eq!(children[2].name, "$tmp");
}

#[test]
fn test_global_symbols() {
    let source = r#"
(module
  (global $counter (mut i32) (i32.const 0))
  (global $max i32 (i32.const 100))
)
"#;

    let symbols = parse_document(source).unwrap();
    let result = provide_document_symbols_core(&symbols);

    assert_eq!(result.len(), 2);

    let counter = &result[0];
    assert_eq!(counter.name, "$counter");
    assert_eq!(counter.kind, SymbolKindCore::Constant);
    assert_eq!(counter.detail.as_deref(), Some("mut i32"));

    let max = &result[1];
    assert_eq!(max.name, "$max");
    assert_eq!(max.detail.as_deref(), Some("i32"));
}

#[test]
fn test_type_symbols() {
    let source = r#"
(module
  (type $sig (func (param i32) (result i32)))
)
"#;

    let symbols = parse_document(source).unwrap();
    let result = provide_document_symbols_core(&symbols);

    assert_eq!(result.len(), 1);
    let type_sym = &result[0];
    assert_eq!(type_sym.name, "$sig");
    assert_eq!(type_sym.kind, SymbolKindCore::Interface);
    assert_eq!(type_sym.detail.as_deref(), Some("(func (i32) -> (i32))"));
}

#[test]
fn test_memory_and_table_symbols() {
    let source = r#"
(module
  (memory $mem 1 10)
  (table $tbl 1 funcref)
)
"#;

    let symbols = parse_document(source).unwrap();
    let result = provide_document_symbols_core(&symbols);

    assert_eq!(result.len(), 2);

    let table = result.iter().find(|s| s.name == "$tbl").unwrap();
    assert_eq!(table.kind, SymbolKindCore::Array);
    assert_eq!(table.detail.as_deref(), Some("1  funcref"));

    let memory = result.iter().find(|s| s.name == "$mem").unwrap();
    assert_eq!(memory.kind, SymbolKindCore::Object);
    assert_eq!(memory.detail.as_deref(), Some("1 10"));
}

#[test]
fn test_block_labels() {
    let source = r#"
(module
  (func $test
    (block $outer
      (loop $inner
        (br $inner)
      )
    )
  )
)
"#;

    let symbols = parse_document(source).unwrap();
    let result = provide_document_symbols_core(&symbols);

    assert_eq!(result.len(), 1);
    let func = &result[0];
    let children = func.children.as_ref().unwrap();

    assert_eq!(children.len(), 2);

    let outer = children.iter().find(|c| c.name == "$outer").unwrap();
    assert_eq!(outer.kind, SymbolKindCore::Key);
    assert_eq!(outer.detail.as_deref(), Some("block"));

    let inner = children.iter().find(|c| c.name == "$inner").unwrap();
    assert_eq!(inner.detail.as_deref(), Some("loop"));
}

#[test]
fn test_unnamed_symbols_use_index() {
    let source = r#"
(module
  (func (param i32) (result i32)
    (local.get 0)
  )
)
"#;

    let symbols = parse_document(source).unwrap();
    let result = provide_document_symbols_core(&symbols);

    assert_eq!(result.len(), 1);
    let func = &result[0];
    assert_eq!(func.name, "(func 0)");
    assert_eq!(func.detail.as_deref(), Some("(i32) -> (i32)"));

    let children = func.children.as_ref().unwrap();
    assert_eq!(children[0].name, "(param 0)");
}

#[test]
fn outline_order_follows_entity_kinds() {
    let source = r#"
(module
  (tag $e (param i32 i64))
  (data $d "abc")
  (func $f (param $x i32) (param f64))
  (type $t (struct (field i32) (field i64)))
  (elem $el func $f $f)
  (global $g i64 (i64.const 1))
)
"#;
    let symbols = parse_document(source).unwrap();
    let result = provide_document_symbols_core(&symbols);
    let names: Vec<&str> = result.iter().map(|s| s.name.as_str()).collect();
    assert_eq!(names, vec!["$t", "$f", "$g", "$e", "$d", "$el"]);
    assert_eq!(result[0].detail.as_deref(), Some("(struct 2 fields)"));
    assert_eq!(result[1].detail.as_deref(), Some("($x i32, f64)"));
    assert_eq!(result[3].detail.as_deref(), Some("(i32 i64)"));
    assert_eq!(result[3].kind, SymbolKindCore::Event);
    assert_eq!(result[4].detail.as_deref(), Some("3 bytes"));
    assert_eq!(result[5].detail.as_deref(), Some("2 functions"));
}

#[test]
fn function_without_children_has_none() {
    let source = "(module (func $f))";
    let symbols = parse_document(source).unwrap();
    let result = provide_document_symbols_core(&symbols);
    assert!(result[0].children.is_none());
    assert_eq!(result[0].detail.as_deref(), Some("()"));
}

#[test]
fn outline_lists_kinds_in_fixed_order() {
    let source = r#"(module
  (global $g i32 (i32.const 0))
  (func $f (param $p i32) (local $l i32)
    (block $out))
  (type $t (func))
  (memory $m 1)
)"#;
    let symbols = parse_document(source).unwrap();
    let result = provide_document_symbols_core(&symbols);
    let names: Vec<&str> = result.iter().map(|e| e.name.as_str()).collect();
    assert_eq!(names, vec!["$t", "$f", "$g", "$m"]);
    let children = result[1].children.as_ref().unwrap();
    let child_names: Vec<&str> = children.iter().map(|c| c.name.as_str()).collect();
    assert_eq!(child_names, vec!["$p", "$l", "$out"]);
}
