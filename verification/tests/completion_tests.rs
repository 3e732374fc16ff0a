use wat_lsp_rust::completion::{number_const_completion, provide_completion};
use wat_lsp_rust::parser::parse_document;
use wat_lsp_rust::types::{CompletionItem, CompletionItemKind, InsertTextFormat, Position};

const SOURCE: &str = "(module
  (global $counter (mut i32) (i32.const 0))
  (global $max i32 (i32.const 100))
  (func $add (param $a i32) (param $b i32) (result i32)
    (local $tmp i64)
    (block $exit
      l$
      l=$
      g$
      g=$
      local.get $
      global.get $
      call $
      br $
      5i32
      1_000.5f64
      i32.
      f64.
      memory.
      (@
      ;; @
      $
    )
  )
)";

fn complete_at(line: u32, character: u32) -> Vec<CompletionItem> {
    let symbols = parse_document(SOURCE).unwrap();
    provide_completion(SOURCE, &symbols, Position::new(line, character))
}

fn end_of(line: u32) -> Vec<CompletionItem> {
    let text = SOURCE.lines().nth(line as usize).unwrap();
    complete_at(line, text.len() as u32)
}

fn labels(items: &[CompletionItem]) -> Vec<String> {
    items.iter().map(|c| c.label.clone()).collect()
}

#[test]
fn number_constant_expands() {
    let items = end_of(14);
    assert_eq!(items.len(), 1);
    assert_eq!(items[0].label, "5i32");
    assert_eq!(items[0].kind, Some(CompletionItemKind::Snippet));
    assert_eq!(items[0].insert_text.as_deref(), Some("(i32.const 5)"));
    assert_eq!(items[0].detail.as_deref(), Some("Expand to: (i32.const 5)"));
}

#[test]
fn number_constant_drops_separators() {
    let items = end_of(15);
    assert_eq!(items[0].label, "1_000.5f64");
    assert_eq!(items[0].insert_text.as_deref(), Some("(f64.const 1000.5)"));
    let none = number_const_completion("x i33");
    assert!(none.is_none());
    let only_type = number_const_completion("i32");
    assert!(only_type.is_none());
    let run = number_const_completion("(call $f 12i64").unwrap();
    assert_eq!(run.label, "12i64");
}

#[test]
fn local_get_snippets_list_params_then_locals() {
    let items = end_of(6);
    assert_eq!(labels(&items), vec!["l$a", "l$b", "l$tmp"]);
    assert_eq!(items[0].insert_text.as_deref(), Some("(local.get $a)"));
    assert_eq!(items[0].detail.as_deref(), Some("(param) i32"));
    assert_eq!(items[0].documentation.as_deref(), Some("Expands to: (local.get $a)"));
    assert_eq!(items[2].detail.as_deref(), Some("(local) i64"));
}

#[test]
fn local_set_snippets_are_snippet_formatted() {
    let items = end_of(7);
    assert_eq!(labels(&items), vec!["l=$a", "l=$b", "l=$tmp"]);
    assert_eq!(items[1].insert_text.as_deref(), Some("(local.set $b $0)"));
    assert_eq!(items[1].insert_text_format, Some(InsertTextFormat::Snippet));
    assert!(items[1].documentation.is_none());
}

#[test]
fn global_snippets() {
    let get = end_of(8);
    assert_eq!(labels(&get), vec!["g$counter", "g$max"]);
    assert_eq!(get[0].insert_text.as_deref(), Some("(global.get $counter)"));
    assert_eq!(get[0].detail.as_deref(), Some("(global) i32"));
    // only mutable globals can be set
    let set = end_of(9);
    assert_eq!(labels(&set), vec!["g=$counter"]);
    assert_eq!(set[0].detail.as_deref(), Some("(global mut) i32"));
    assert_eq!(set[0].insert_text.as_deref(), Some("(global.set $counter $0)"));
}

#[test]
fn dollar_after_local_get_lists_variables() {
    let items = end_of(10);
    assert_eq!(labels(&items), vec!["a", "b", "tmp"]);
    assert_eq!(items[0].kind, Some(CompletionItemKind::Variable));
    assert_eq!(items[0].detail.as_deref(), Some("(param) i32"));
}

#[test]
fn dollar_after_global_get_lists_globals() {
    let items = end_of(11);
    assert_eq!(labels(&items), vec!["counter", "max"]);
    assert_eq!(items[0].detail.as_deref(), Some("(global mut) i32"));
    assert_eq!(items[1].detail.as_deref(), Some("(global) i32"));
}

#[test]
fn dollar_after_call_lists_functions_with_signatures() {
    let items = end_of(12);
    assert_eq!(labels(&items), vec!["add"]);
    assert_eq!(items[0].kind, Some(CompletionItemKind::Function));
    assert_eq!(items[0].detail.as_deref(), Some("(i32 i32) -> (i32)"));
}

#[test]
fn dollar_after_br_lists_labels() {
    let items = end_of(13);
    assert_eq!(labels(&items), vec!["exit"]);
    assert_eq!(items[0].kind, Some(CompletionItemKind::Constant));
    assert_eq!(items[0].detail.as_deref(), Some("block at line 6"));
}

#[test]
fn bare_dollar_lists_functions_and_globals() {
    let items = end_of(21);
    assert_eq!(labels(&items), vec!["add", "counter", "max"]);
    assert_eq!(items[0].detail.as_deref(), Some("function"));
    assert_eq!(items[1].detail.as_deref(), Some("global"));
}

#[test]
fn type_prefixes_list_instructions() {
    let ints = end_of(16);
    assert_eq!(ints.len(), 8 + 24);
    assert_eq!(ints[0].label, "const");
    assert_eq!(ints[8].label, "div_s");
    assert_eq!(ints[0].kind, Some(CompletionItemKind::Keyword));
    let floats = end_of(17);
    assert_eq!(floats.len(), 8 + 15);
    assert_eq!(floats[8].label, "div");
}

#[test]
fn namespace_prefixes_list_instructions() {
    let mem = end_of(18);
    assert_eq!(labels(&mem), vec!["size", "grow", "fill", "copy", "init"]);
    assert_eq!(mem[0].detail.as_deref(), Some("Get memory size in pages"));
}

#[test]
fn annotations_and_doc_tags() {
    let ann = end_of(19);
    assert_eq!(ann.len(), 7);
    assert_eq!(ann[0].label, "name");
    assert_eq!(ann[0].kind, Some(CompletionItemKind::Property));
    assert_eq!(ann[5].label, "metadata.code.branch_hint");
    let tags = end_of(20);
    assert_eq!(labels(&tags), vec!["param", "result", "function", "todo"]);
}

#[test]
fn keywords_on_other_text_and_nothing_on_blank() {
    let kws = complete_at(3, 4);
    assert_eq!(kws.len(), 38);
    assert_eq!(kws[0].label, "func");
    assert_eq!(kws[37].label, "try_table");
    let blank = complete_at(3, 2);
    assert!(blank.is_empty());
    let past_end = complete_at(100, 0);
    assert!(past_end.is_empty());
}

#[test]
fn column_is_clamped_to_the_line() {
    let far = complete_at(14, 500);
    assert_eq!(far.len(), 1);
    assert_eq!(far[0].label, "5i32");
}
