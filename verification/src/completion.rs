//! Completion suggestions: snippets that expand shorthand, the instructions
//! that may follow a prefix, and the names in scope after a `$`.
use vstd::prelude::*;
use crate::symbols::{value_type_name, BlockLabel, Function, Global, Parameter, SymbolTable, ValueType, Variable};
use crate::text::{byte_len, char_index_at_byte, char_index_of_byte, chars_of, ends_with, ends_with_str, is_char_boundary, is_char_boundary_exec, str_byte_len, string_from_chars, sub_chars, trim_chars, trimmed};
use crate::types::{CompletionItem, CompletionItemKind, CompletionModel, InsertTextFormat, Position};
use crate::utils;
use crate::utils::{containing_function_index, context_from_line, line_at, InstructionContext};

verus! {

/// A keyword suggestion with a one-line description.
pub open spec fn keyword_item(label: Seq<char>, detail: Seq<char>) -> CompletionModel {
    CompletionModel {
        label,
        kind: Some(CompletionItemKind::Keyword),
        detail: Some(detail),
        documentation: None,
        insert_text: None,
        insert_text_format: None,
    }
}

/// One keyword suggestion per (label, description) pair, in order.
pub open spec fn keyword_items(t: Seq<(&'static str, &'static str)>) -> Seq<CompletionModel> {
    t.map_values(|p: (&'static str, &'static str)| keyword_item(p.0@, p.1@))
}

/// A keyword suggestion.
fn make_completion(label: &str, detail: &str) -> (c: CompletionItem)
    ensures
        c.deep_view() == keyword_item(label@, detail@),
{
    CompletionItem::new(label.to_owned()).with_kind(CompletionItemKind::Keyword).with_detail(
        detail.to_owned(),
    )
}

/// The keyword suggestions of a table.
fn keyword_list(t: &Vec<(&'static str, &'static str)>) -> (v: Vec<CompletionItem>)
    ensures
        v.deep_view() == keyword_items(t@),
{
    let mut v: Vec<CompletionItem> = Vec::new();
    let mut i: usize = 0;
    while i < t.len()
        invariant
            i <= t@.len(),
            v.deep_view() =~= keyword_items(t@.take(i as int)),
        decreases t@.len() - i,
    {
        let c = make_completion(t[i].0, t[i].1);
        let ghost old_v = v.deep_view();
        crate::symbols::push_dv(&mut v, c);
        assert(keyword_items(t@.take(i + 1)) =~= keyword_items(t@.take(i as int)).push(
            keyword_item(t@[i as int].0@, t@[i as int].1@),
        ));
        i = i + 1;
    }
    assert(t@.take(i as int) =~= t@);
    v
}

/// Operations common to every numeric type.
pub open spec fn common_ops() -> Seq<(&'static str, &'static str)> {
    seq![
        ("const", "Create constant value"),
        ("add", "Add two values"),
        ("sub", "Subtract two values"),
        ("mul", "Multiply two values"),
        ("eq", "Check equality"),
        ("ne", "Check inequality"),
        ("load", "Load from memory"),
        ("store", "Store to memory"),
    ]
}

fn common_ops_exec() -> (v: Vec<(&'static str, &'static str)>)
    ensures
        v@ == common_ops(),
{
    let v = vec![
        ("const", "Create constant value"),
        ("add", "Add two values"),
        ("sub", "Subtract two values"),
        ("mul", "Multiply two values"),
        ("eq", "Check equality"),
        ("ne", "Check inequality"),
        ("load", "Load from memory"),
        ("store", "Store to memory"),
    ];
    assert(v@ =~= common_ops());
    v
}

/// Operations of the integer types only.
pub open spec fn int_ops() -> Seq<(&'static str, &'static str)> {
    seq![
        ("div_s", "Signed division"),
        ("div_u", "Unsigned division"),
        ("rem_s", "Signed remainder"),
        ("rem_u", "Unsigned remainder"),
        ("and", "Bitwise AND"),
        ("or", "Bitwise OR"),
        ("xor", "Bitwise XOR"),
        ("shl", "Shift left"),
        ("shr_s", "Signed shift right"),
        ("shr_u", "Unsigned shift right"),
        ("rotl", "Rotate left"),
        ("rotr", "Rotate right"),
        ("clz", "Count leading zeros"),
        ("ctz", "Count trailing zeros"),
        ("popcnt", "Population count"),
        ("eqz", "Check if zero"),
        ("lt_s", "Signed less than"),
        ("lt_u", "Unsigned less than"),
        ("gt_s", "Signed greater than"),
        ("gt_u", "Unsigned greater than"),
        ("le_s", "Signed less or equal"),
        ("le_u", "Unsigned less or equal"),
        ("ge_s", "Signed greater or equal"),
        ("ge_u", "Unsigned greater or equal"),
    ]
}

fn int_ops_exec() -> (v: Vec<(&'static str, &'static str)>)
    ensures
        v@ == int_ops(),
{
    let v = vec![
        ("div_s", "Signed division"),
        ("div_u", "Unsigned division"),
        ("rem_s", "Signed remainder"),
        ("rem_u", "Unsigned remainder"),
        ("and", "Bitwise AND"),
        ("or", "Bitwise OR"),
        ("xor", "Bitwise XOR"),
        ("shl", "Shift left"),
        ("shr_s", "Signed shift right"),
        ("shr_u", "Unsigned shift right"),
        ("rotl", "Rotate left"),
        ("rotr", "Rotate right"),
        ("clz", "Count leading zeros"),
        ("ctz", "Count trailing zeros"),
        ("popcnt", "Population count"),
        ("eqz", "Check if zero"),
        ("lt_s", "Signed less than"),
        ("lt_u", "Unsigned less than"),
        ("gt_s", "Signed greater than"),
        ("gt_u", "Unsigned greater than"),
        ("le_s", "Signed less or equal"),
        ("le_u", "Unsigned less or equal"),
        ("ge_s", "Signed greater or equal"),
        ("ge_u", "Unsigned greater or equal"),
    ];
    assert(v@ =~= int_ops());
    v
}

/// Operations of the floating-point types only.
pub open spec fn float_ops() -> Seq<(&'static str, &'static str)> {
    seq![
        ("div", "Divide two values"),
        ("sqrt", "Square root"),
        ("min", "Minimum of two values"),
        ("max", "Maximum of two values"),
        ("abs", "Absolute value"),
        ("neg", "Negate value"),
        ("ceil", "Round up"),
        ("floor", "Round down"),
        ("trunc", "Round toward zero"),
        ("nearest", "Round to nearest"),
        ("copysign", "Copy sign"),
        ("lt", "Less than"),
        ("gt", "Greater than"),
        ("le", "Less or equal"),
        ("ge", "Greater or equal"),
    ]
}

fn float_ops_exec() -> (v: Vec<(&'static str, &'static str)>)
    ensures
        v@ == float_ops(),
{
    let v = vec![
        ("div", "Divide two values"),
        ("sqrt", "Square root"),
        ("min", "Minimum of two values"),
        ("max", "Maximum of two values"),
        ("abs", "Absolute value"),
        ("neg", "Negate value"),
        ("ceil", "Round up"),
        ("floor", "Round down"),
        ("trunc", "Round toward zero"),
        ("nearest", "Round to nearest"),
        ("copysign", "Copy sign"),
        ("lt", "Less than"),
        ("gt", "Greater than"),
        ("le", "Less or equal"),
        ("ge", "Greater or equal"),
    ];
    assert(v@ =~= float_ops());
    v
}

/// The instructions of a numeric type: the common ones, then those of
/// integers (`is_int`) or of floats.
pub open spec fn type_items(is_int: bool) -> Seq<CompletionModel> {
    keyword_items(common_ops()) + keyword_items(if is_int { int_ops() } else { float_ops() })
}

/// Instruction completions after `i32.`, `i64.` (`is_int`), `f32.` or `f64.`.
fn get_type_completions(is_int: bool) -> (v: Vec<CompletionItem>)
    ensures
        v.deep_view() == type_items(is_int),
{
    let mut v = keyword_list(&common_ops_exec());
    let mut rest = if is_int {
        keyword_list(&int_ops_exec())
    } else {
        keyword_list(&float_ops_exec())
    };
    let ghost a = v.deep_view();
    let ghost b = rest.deep_view();
    v.append(&mut rest);
    assert(v.deep_view() =~= a + b);
    v
}

} // verus!

verus! {

/// General keywords: declarations, control flow, calls, stack operations, GC types and exceptions.
pub open spec fn keywords() -> Seq<(&'static str, &'static str)> {
    seq![
        ("func", "Function declaration"),
        ("param", "Function parameter"),
        ("result", "Function result"),
        ("local", "Local variable"),
        ("global", "Global variable"),
        ("type", "Type declaration"),
        ("memory", "Memory declaration"),
        ("table", "Table declaration"),
        ("elem", "Element segment"),
        ("data", "Data segment"),
        ("import", "Import declaration"),
        ("export", "Export declaration"),
        ("block", "Block statement"),
        ("loop", "Loop statement"),
        ("if", "Conditional statement"),
        ("else", "Else clause"),
        ("br", "Branch to label"),
        ("br_if", "Conditional branch"),
        ("br_table", "Branch table"),
        ("return", "Return from function"),
        ("call", "Call function"),
        ("call_indirect", "Indirect call via table"),
        ("call_ref", "Call via typed function reference"),
        ("return_call", "Tail call function"),
        ("return_call_indirect", "Tail call via table"),
        ("return_call_ref", "Tail call via typed reference"),
        ("drop", "Drop value from stack"),
        ("select", "Select between two values"),
        ("nop", "No operation"),
        ("unreachable", "Trap unconditionally"),
        ("struct", "Struct type definition"),
        ("array", "Array type definition"),
        ("rec", "Recursive type group"),
        ("sub", "Subtype definition"),
        ("tag", "Exception tag"),
        ("throw", "Throw exception"),
        ("throw_ref", "Throw exception reference"),
        ("try_table", "Try-catch table block"),
    ]
}

fn keywords_exec() -> (v: Vec<(&'static str, &'static str)>)
    ensures
        v@ == keywords(),
{
    let v = vec![
        ("func", "Function declaration"),
        ("param", "Function parameter"),
        ("result", "Function result"),
        ("local", "Local variable"),
        ("global", "Global variable"),
        ("type", "Type declaration"),
        ("memory", "Memory declaration"),
        ("table", "Table declaration"),
        ("elem", "Element segment"),
        ("data", "Data segment"),
        ("import", "Import declaration"),
        ("export", "Export declaration"),
        ("block", "Block statement"),
        ("loop", "Loop statement"),
        ("if", "Conditional statement"),
        ("else", "Else clause"),
        ("br", "Branch to label"),
        ("br_if", "Conditional branch"),
        ("br_table", "Branch table"),
        ("return", "Return from function"),
        ("call", "Call function"),
        ("call_indirect", "Indirect call via table"),
        ("call_ref", "Call via typed function reference"),
        ("return_call", "Tail call function"),
        ("return_call_indirect", "Tail call via table"),
        ("return_call_ref", "Tail call via typed reference"),
        ("drop", "Drop value from stack"),
        ("select", "Select between two values"),
        ("nop", "No operation"),
        ("unreachable", "Trap unconditionally"),
        ("struct", "Struct type definition"),
        ("array", "Array type definition"),
        ("rec", "Recursive type group"),
        ("sub", "Subtype definition"),
        ("tag", "Exception tag"),
        ("throw", "Throw exception"),
        ("throw_ref", "Throw exception reference"),
        ("try_table", "Try-catch table block"),
    ];
    assert(v@ =~= keywords());
    v
}

/// Completions after `local.`.
pub open spec fn local_ops() -> Seq<(&'static str, &'static str)> {
    seq![
        ("get", "Get local variable value"),
        ("set", "Set local variable value"),
        ("tee", "Set local and return value"),
    ]
}

fn local_ops_exec() -> (v: Vec<(&'static str, &'static str)>)
    ensures
        v@ == local_ops(),
{
    let v = vec![
        ("get", "Get local variable value"),
        ("set", "Set local variable value"),
        ("tee", "Set local and return value"),
    ];
    assert(v@ =~= local_ops());
    v
}

/// Completions after `global.`.
pub open spec fn global_ops() -> Seq<(&'static str, &'static str)> {
    seq![
        ("get", "Get global variable value"),
        ("set", "Set global variable value"),
    ]
}

fn global_ops_exec() -> (v: Vec<(&'static str, &'static str)>)
    ensures
        v@ == global_ops(),
{
    let v = vec![
        ("get", "Get global variable value"),
        ("set", "Set global variable value"),
    ];
    assert(v@ =~= global_ops());
    v
}

/// Completions after `memory.`.
pub open spec fn memory_ops() -> Seq<(&'static str, &'static str)> {
    seq![
        ("size", "Get memory size in pages"),
        ("grow", "Grow memory by delta pages"),
        ("fill", "Fill memory region"),
        ("copy", "Copy memory region"),
        ("init", "Initialize memory from data segment"),
    ]
}

fn memory_ops_exec() -> (v: Vec<(&'static str, &'static str)>)
    ensures
        v@ == memory_ops(),
{
    let v = vec![
        ("size", "Get memory size in pages"),
        ("grow", "Grow memory by delta pages"),
        ("fill", "Fill memory region"),
        ("copy", "Copy memory region"),
        ("init", "Initialize memory from data segment"),
    ];
    assert(v@ =~= memory_ops());
    v
}

/// Completions after `table.`.
pub open spec fn table_ops() -> Seq<(&'static str, &'static str)> {
    seq![
        ("get", "Get table element"),
        ("set", "Set table element"),
        ("size", "Get table size"),
        ("grow", "Grow table"),
        ("fill", "Fill table entries"),
        ("copy", "Copy table elements"),
        ("init", "Initialize table from element segment"),
    ]
}

fn table_ops_exec() -> (v: Vec<(&'static str, &'static str)>)
    ensures
        v@ == table_ops(),
{
    let v = vec![
        ("get", "Get table element"),
        ("set", "Set table element"),
        ("size", "Get table size"),
        ("grow", "Grow table"),
        ("fill", "Fill table entries"),
        ("copy", "Copy table elements"),
        ("init", "Initialize table from element segment"),
    ];
    assert(v@ =~= table_ops());
    v
}

/// Completions after `ref.`.
pub open spec fn ref_ops() -> Seq<(&'static str, &'static str)> {
    seq![
        ("null", "Create null reference"),
        ("is_null", "Check if reference is null"),
        ("func", "Create function reference"),
        ("eq", "Compare two references for equality"),
        ("as_non_null", "Assert reference is not null"),
        ("test", "Test if reference is of given type"),
        ("cast", "Cast reference to given type"),
        ("i31", "Create i31 reference from i32"),
    ]
}

fn ref_ops_exec() -> (v: Vec<(&'static str, &'static str)>)
    ensures
        v@ == ref_ops(),
{
    let v = vec![
        ("null", "Create null reference"),
        ("is_null", "Check if reference is null"),
        ("func", "Create function reference"),
        ("eq", "Compare two references for equality"),
        ("as_non_null", "Assert reference is not null"),
        ("test", "Test if reference is of given type"),
        ("cast", "Cast reference to given type"),
        ("i31", "Create i31 reference from i32"),
    ];
    assert(v@ =~= ref_ops());
    v
}

/// Completions after `struct.`.
pub open spec fn struct_ops() -> Seq<(&'static str, &'static str)> {
    seq![
        ("new", "Create new struct"),
        ("new_default", "Create struct with default values"),
        ("get", "Get struct field"),
        ("get_s", "Get struct field (signed)"),
        ("get_u", "Get struct field (unsigned)"),
        ("set", "Set struct field"),
    ]
}

fn struct_ops_exec() -> (v: Vec<(&'static str, &'static str)>)
    ensures
        v@ == struct_ops(),
{
    let v = vec![
        ("new", "Create new struct"),
        ("new_default", "Create struct with default values"),
        ("get", "Get struct field"),
        ("get_s", "Get struct field (signed)"),
        ("get_u", "Get struct field (unsigned)"),
        ("set", "Set struct field"),
    ];
    assert(v@ =~= struct_ops());
    v
}

/// Completions after `array.`.
pub open spec fn array_ops() -> Seq<(&'static str, &'static str)> {
    seq![
        ("new", "Create new array"),
        ("new_fixed", "Create fixed-size array"),
        ("new_default", "Create array with default values"),
        ("new_data", "Create array from data segment"),
        ("new_elem", "Create array from element segment"),
        ("get", "Get array element"),
        ("get_s", "Get array element (signed)"),
        ("get_u", "Get array element (unsigned)"),
        ("set", "Set array element"),
        ("len", "Get array length"),
        ("fill", "Fill array with value"),
        ("copy", "Copy array elements"),
        ("init_data", "Initialize array from data segment"),
        ("init_elem", "Initialize array from element segment"),
    ]
}

fn array_ops_exec() -> (v: Vec<(&'static str, &'static str)>)
    ensures
        v@ == array_ops(),
{
    let v = vec![
        ("new", "Create new array"),
        ("new_fixed", "Create fixed-size array"),
        ("new_default", "Create array with default values"),
        ("new_data", "Create array from data segment"),
        ("new_elem", "Create array from element segment"),
        ("get", "Get array element"),
        ("get_s", "Get array element (signed)"),
        ("get_u", "Get array element (unsigned)"),
        ("set", "Set array element"),
        ("len", "Get array length"),
        ("fill", "Fill array with value"),
        ("copy", "Copy array elements"),
        ("init_data", "Initialize array from data segment"),
        ("init_elem", "Initialize array from element segment"),
    ];
    assert(v@ =~= array_ops());
    v
}

/// Completions after `i31.`.
pub open spec fn i31_ops() -> Seq<(&'static str, &'static str)> {
    seq![
        ("get_s", "Get i31 value (signed)"),
        ("get_u", "Get i31 value (unsigned)"),
    ]
}

fn i31_ops_exec() -> (v: Vec<(&'static str, &'static str)>)
    ensures
        v@ == i31_ops(),
{
    let v = vec![
        ("get_s", "Get i31 value (signed)"),
        ("get_u", "Get i31 value (unsigned)"),
    ];
    assert(v@ =~= i31_ops());
    v
}

/// Completions after `br_on_`.
pub open spec fn br_on_ops() -> Seq<(&'static str, &'static str)> {
    seq![
        ("null", "Branch if reference is null"),
        ("non_null", "Branch if reference is not null"),
        ("cast", "Branch if cast succeeds"),
        ("cast_fail", "Branch if cast fails"),
    ]
}

fn br_on_ops_exec() -> (v: Vec<(&'static str, &'static str)>)
    ensures
        v@ == br_on_ops(),
{
    let v = vec![
        ("null", "Branch if reference is null"),
        ("non_null", "Branch if reference is not null"),
        ("cast", "Branch if cast succeeds"),
        ("cast_fail", "Branch if cast fails"),
    ];
    assert(v@ =~= br_on_ops());
    v
}

/// Completions after `any.`.
pub open spec fn any_ops() -> Seq<(&'static str, &'static str)> {
    seq![
        ("convert_extern", "Convert externref to anyref"),
    ]
}

fn any_ops_exec() -> (v: Vec<(&'static str, &'static str)>)
    ensures
        v@ == any_ops(),
{
    let v = vec![
        ("convert_extern", "Convert externref to anyref"),
    ];
    assert(v@ =~= any_ops());
    v
}

/// Completions after `extern.`.
pub open spec fn extern_ops() -> Seq<(&'static str, &'static str)> {
    seq![
        ("convert_any", "Convert anyref to externref"),
    ]
}

fn extern_ops_exec() -> (v: Vec<(&'static str, &'static str)>)
    ensures
        v@ == extern_ops(),
{
    let v = vec![
        ("convert_any", "Convert anyref to externref"),
    ];
    assert(v@ =~= extern_ops());
    v
}

/// Documentation tags after `@`.
pub open spec fn doc_tags() -> Seq<(&'static str, &'static str)> {
    seq![
        ("param", "Parameter documentation"),
        ("result", "Result documentation"),
        ("function", "Function documentation"),
        ("todo", "TODO marker"),
    ]
}

fn doc_tags_exec() -> (v: Vec<(&'static str, &'static str)>)
    ensures
        v@ == doc_tags(),
{
    let v = vec![
        ("param", "Parameter documentation"),
        ("result", "Result documentation"),
        ("function", "Function documentation"),
        ("todo", "TODO marker"),
    ];
    assert(v@ =~= doc_tags());
    v
}

} // verus!

verus! {

/// A property suggestion for an annotation name.
pub open spec fn annotation_item(t: (&'static str, &'static str, &'static str)) -> CompletionModel {
    CompletionModel {
        label: t.0@,
        kind: Some(CompletionItemKind::Property),
        detail: Some(t.1@),
        documentation: Some(t.2@),
        insert_text: None,
        insert_text_format: None,
    }
}

/// The annotation names: (name, description, documentation).
pub open spec fn annotations() -> Seq<(&'static str, &'static str, &'static str)> {
    seq![
        ("name", "Custom name section", "Provides human-readable names for debugging"),
        ("producers", "Producer metadata", "Records information about tools that produced this module"),
        ("custom", "Custom section", "Embed arbitrary data in the WebAssembly binary"),
        ("interface", "Component model interface", "Used in WebAssembly Component Model"),
        ("use", "Component model import", "References types from other interfaces"),
        ("metadata.code.branch_hint", "Branch hint metadata", "Provides hints for branch optimization"),
        ("dylink", "Dynamic linking metadata", "Contains information for dynamic linking"),
    ]
}

/// The suggestions after `(@`.
pub open spec fn annotation_items() -> Seq<CompletionModel> {
    annotations().map_values(|t: (&'static str, &'static str, &'static str)| annotation_item(t))
}

/// Get completions for annotation names.
fn get_annotation_completions() -> (v: Vec<CompletionItem>)
    ensures
        v.deep_view() == annotation_items(),
{
    let t = vec![
        ("name", "Custom name section", "Provides human-readable names for debugging"),
        ("producers", "Producer metadata", "Records information about tools that produced this module"),
        ("custom", "Custom section", "Embed arbitrary data in the WebAssembly binary"),
        ("interface", "Component model interface", "Used in WebAssembly Component Model"),
        ("use", "Component model import", "References types from other interfaces"),
        ("metadata.code.branch_hint", "Branch hint metadata", "Provides hints for branch optimization"),
        ("dylink", "Dynamic linking metadata", "Contains information for dynamic linking"),
    ];
    assert(t@ =~= annotations());
    let mut v: Vec<CompletionItem> = Vec::new();
    let mut i: usize = 0;
    while i < t.len()
        invariant
            i <= t@.len(),
            t@ == annotations(),
            v.deep_view() =~= annotation_items().take(i as int),
        decreases t@.len() - i,
    {
        let (a, b, c) = t[i];
        let item = CompletionItem::new(a.to_owned()).with_kind(CompletionItemKind::Property).with_detail(
            b.to_owned(),
        ).with_documentation(c.to_owned());
        assert(item.deep_view() == annotation_item(t@[i as int]));
        crate::symbols::push_dv(&mut v, item);
        assert(annotation_items().take(i + 1) =~= annotation_items().take(i as int).push(
            annotation_item(t@[i as int]),
        ));
        i = i + 1;
    }
    v
}

} // verus!

verus! {

/// The answer of the regex class `\d`: whether `c` is a Unicode decimal
/// digit (general category Nd).
pub uninterp spec fn unicode_decimal_digit(c: char) -> bool;

/// Characters of the class `[\d._]`. Among ASCII characters, the decimal
/// digits are exactly `0` to `9`.
pub open spec fn number_char(c: char) -> bool {
    c == '.' || c == '_' || ('0' <= c && c <= '9') || ((c as u32) >= 0x80 && unicode_decimal_digit(c))
}

/// The numeric value types that a number constant may name.
pub open spec fn is_number_type(t: Seq<char>) -> bool {
    t == "i32"@ || t == "i64"@ || t == "f32"@ || t == "f64"@
}

/// Start of the run of number characters that ends at `j`.
pub open spec fn number_run_start(s: Seq<char>, j: int) -> int
    decreases j,
{
    if 0 < j <= s.len() && number_char(s[j - 1]) {
        number_run_start(s, j - 1)
    } else {
        j
    }
}

/// The leftmost match of `([\d._]+)((?:i|f)(?:32|64))$` in `s`, as its two
/// groups: the whole run of number characters that precedes a trailing
/// `i32`, `i64`, `f32` or `f64`, and that type.
pub open spec fn number_const_match(s: Seq<char>) -> Option<(Seq<char>, Seq<char>)> {
    let n = s.len() as int;
    if n >= 4 && is_number_type(s.subrange(n - 3, n)) && number_char(s[n - 4]) {
        Some((s.subrange(number_run_start(s, n - 3), n - 3), s.subrange(n - 3, n)))
    } else {
        None
    }
}

/// The pattern that recognises a number constant shorthand such as `5i32`.
pub open spec fn number_const_pattern() -> Seq<char> {
    "([\\d._]+)((?:i|f)(?:32|64))$"@
}

/// Compiles `pattern` with `regex::Regex::new` and returns groups 1 and 2 of
/// the leftmost match that `Regex::captures` finds in `text`. The contract is
/// stated for the number constant pattern only, whose meaning the regex
/// syntax documentation fixes: `\d` is a Unicode decimal digit, `$` the end
/// of the text, and the match is the leftmost one.
#[verifier::external_body]
fn number_const_captures(pattern: &str, text: &str) -> (r: Option<(String, String)>)
    requires
        pattern@ == number_const_pattern(),
    ensures
        match r {
            Some(g) => number_const_match(text@) == Some((g.0@, g.1@)) && forall|k: int|
                0 <= k < g.0@.len() && (g.0@[k] as u32) >= 0x80 ==> unicode_decimal_digit(g.0@[k]),
            None => number_const_match(text@) is None,
        },
{
    match regex::Regex::new(pattern) {
        Ok(re) => match re.captures(text) {
            Some(c) => Some((c[1].to_string(), c[2].to_string())),
            None => None,
        },
        Err(_) => None,
    }
}

/// The snippet that expands `number` with value type `ty` to a constant
/// instruction; `_` separators are dropped from the number.
pub open spec fn number_item(number: Seq<char>, ty: Seq<char>) -> CompletionModel {
    let insert = "("@ + ty + ".const "@ + crate::parser::without_char(number, '_') + ")"@;
    CompletionModel {
        label: number + ty,
        kind: Some(CompletionItemKind::Snippet),
        detail: Some("Expand to: "@ + insert),
        documentation: None,
        insert_text: Some(insert),
        insert_text_format: None,
    }
}

/// The number constant snippet for a line prefix, if the prefix ends with one.
pub fn number_const_completion(line_prefix: &str) -> (r: Option<CompletionItem>)
    ensures
        match number_const_match(line_prefix@) {
            Some(g) => r is Some && r->0.deep_view() == number_item(g.0, g.1),
            None => r is None,
        },
{
    match number_const_captures("([\\d._]+)((?:i|f)(?:32|64))$", line_prefix) {
        Some((number, ty)) => {
            let digits = crate::text::chars_of(number.as_str());
            let clean = crate::parser::remove_char(digits.as_slice(), '_');
            let mut insert = "(".to_owned();
            insert.append(ty.as_str());
            insert.append(".const ");
            let clean_s = crate::text::string_from_chars(clean.as_slice());
            insert.append(clean_s.as_str());
            insert.append(")");
            let mut label = number.clone();
            label.append(ty.as_str());
            let mut detail = "Expand to: ".to_owned();
            detail.append(insert.as_str());
            Some(
                CompletionItem::new(label).with_kind(CompletionItemKind::Snippet).with_detail(
                    detail,
                ).with_insert_text(insert),
            )
        },
        None => None,
    }
}

} // verus!

verus! {

/// Whether `&n[1..]` is defined: `n` is not empty and its first character
/// takes one byte.
pub open spec fn sliceable(n: Seq<char>) -> bool {
    n.len() > 0 && crate::text::char_width(n[0]) == 1
}

/// An absent name, or one that can lose its first byte.
pub open spec fn opt_sliceable(o: Option<String>) -> bool {
    match o {
        Some(n) => sliceable(n@),
        None => true,
    }
}

/// `n` without its first byte, where that byte is a whole character.
fn drop_sigil(n: &String) -> (r: String)
    requires
        n@.len() > 0,
    ensures
        r@ == n@.drop_first(),
{
    let c = crate::text::chars_of(n.as_str());
    let rest = crate::text::sub_chars(c.as_slice(), 1, c.len());
    crate::text::string_from_chars(rest.as_slice())
}

/// The present values of a sequence of options, in order.
pub open spec fn somes<T>(s: Seq<Option<T>>) -> Seq<T>
    decreases s.len(),
{
    if s.len() == 0 {
        Seq::empty()
    } else {
        match s.last() {
            Some(x) => somes(s.drop_last()).push(x),
            None => somes(s.drop_last()),
        }
    }
}

/// How a variable suggestion is written: the `l$` snippet, the `l=$`
/// snippet, or the bare name after `$`.
#[derive(Clone, Copy, Debug, PartialEq, Eq, Structural)]
pub enum VarStyle {
    LocalGet,
    LocalSet,
    Bare,
}

/// The suggestion for a parameter or local named `n`; `tag` says which.
pub open spec fn var_item(style: VarStyle, n: Seq<char>, tag: Seq<char>, ty: ValueType) -> CompletionModel {
    let detail = tag + value_type_name(ty);
    match style {
        VarStyle::LocalGet => {
            let insert = "(local.get "@ + n + ")"@;
            CompletionModel {
                label: "l"@ + n,
                kind: Some(CompletionItemKind::Snippet),
                detail: Some(detail),
                documentation: Some("Expands to: "@ + insert),
                insert_text: Some(insert),
                insert_text_format: None,
            }
        },
        VarStyle::LocalSet => CompletionModel {
            label: "l="@ + n,
            kind: Some(CompletionItemKind::Snippet),
            detail: Some(detail),
            documentation: None,
            insert_text: Some("(local.set "@ + n + " $0)"@),
            insert_text_format: Some(InsertTextFormat::Snippet),
        },
        VarStyle::Bare => CompletionModel {
            label: n.drop_first(),
            kind: Some(CompletionItemKind::Variable),
            detail: Some(detail),
            documentation: None,
            insert_text: None,
            insert_text_format: None,
        },
    }
}

pub open spec fn param_item(style: VarStyle, p: Parameter) -> Option<CompletionModel> {
    match p.name {
        Some(n) => Some(var_item(style, n@, "(param) "@, p.param_type)),
        None => None,
    }
}

pub open spec fn local_item(style: VarStyle, v: Variable) -> Option<CompletionModel> {
    match v.name {
        Some(n) => Some(var_item(style, n@, "(local) "@, v.var_type)),
        None => None,
    }
}

/// The suggestions for the named parameters of `f`, then its named locals.
pub open spec fn var_items(style: VarStyle, f: Function) -> Seq<CompletionModel> {
    somes(f.parameters@.map_values(|p: Parameter| param_item(style, p))) + somes(
        f.locals@.map_values(|v: Variable| local_item(style, v)),
    )
}

/// Every parameter and local name of `f` can lose its first byte.
pub open spec fn vars_sliceable(f: Function) -> bool {
    &&& forall|i: int|
        0 <= i < f.parameters@.len() ==> opt_sliceable((#[trigger] f.parameters@[i]).name)
    &&& forall|i: int|
        0 <= i < f.locals@.len() ==> opt_sliceable((#[trigger] f.locals@[i]).name)
}

fn var_completion(style: VarStyle, n: &String, tag: &str, ty: ValueType) -> (c: CompletionItem)
    requires
        style == VarStyle::Bare ==> n@.len() > 0,
    ensures
        c.deep_view() == var_item(style, n@, tag@, ty),
{
    let mut detail = tag.to_owned();
    let tys = ty.to_str();
    detail.append(tys.as_str());
    match style {
        VarStyle::LocalGet => {
            let mut insert = "(local.get ".to_owned();
            insert.append(n.as_str());
            insert.append(")");
            let mut label = "l".to_owned();
            label.append(n.as_str());
            let mut doc = "Expands to: ".to_owned();
            doc.append(insert.as_str());
            CompletionItem::new(label).with_kind(CompletionItemKind::Snippet).with_detail(
                detail,
            ).with_insert_text(insert).with_documentation(doc)
        },
        VarStyle::LocalSet => {
            let mut insert = "(local.set ".to_owned();
            insert.append(n.as_str());
            insert.append(" $0)");
            let mut label = "l=".to_owned();
            label.append(n.as_str());
            CompletionItem::new(label).with_kind(CompletionItemKind::Snippet).with_detail(
                detail,
            ).with_insert_text_format(InsertTextFormat::Snippet).with_insert_text(insert)
        },
        VarStyle::Bare => {
            CompletionItem::new(drop_sigil(n)).with_kind(CompletionItemKind::Variable).with_detail(
                detail,
            )
        },
    }
}

/// The variable suggestions of a function.
fn var_completions(f: &Function, style: VarStyle) -> (v: Vec<CompletionItem>)
    requires
        style == VarStyle::Bare ==> vars_sliceable(*f),
    ensures
        v.deep_view() == var_items(style, *f),
{
    let ghost pf = |p: Parameter| param_item(style, p);
    let ghost lf = |x: Variable| local_item(style, x);
    let mut v: Vec<CompletionItem> = Vec::new();
    let mut i: usize = 0;
    while i < f.parameters.len()
        invariant
            i <= f.parameters@.len(),
            style == VarStyle::Bare ==> vars_sliceable(*f),
            pf == (|p: Parameter| param_item(style, p)),
            v.deep_view() == somes(f.parameters@.map_values(pf).take(i as int)),
        decreases f.parameters@.len() - i,
    {
        let p = &f.parameters[i];
        assert(f.parameters@.map_values(pf).take(i + 1).drop_last() =~= f.parameters@.map_values(
            pf,
        ).take(i as int));
        assert(f.parameters@.map_values(pf).take(i + 1).last() == param_item(style, *p));
        if let Some(n) = &p.name {
            let c = var_completion(style, n, "(param) ", p.param_type);
            crate::symbols::push_dv(&mut v, c);
        }
        i = i + 1;
    }
    assert(f.parameters@.map_values(pf).take(i as int) =~= f.parameters@.map_values(pf));
    let ghost first = v.deep_view();
    let mut j: usize = 0;
    while j < f.locals.len()
        invariant
            j <= f.locals@.len(),
            style == VarStyle::Bare ==> vars_sliceable(*f),
            first == somes(f.parameters@.map_values(pf)),
            lf == (|x: Variable| local_item(style, x)),
            v.deep_view() == first + somes(f.locals@.map_values(lf).take(j as int)),
        decreases f.locals@.len() - j,
    {
        let x = &f.locals[j];
        let ghost before = somes(f.locals@.map_values(lf).take(j as int));
        assert(f.locals@.map_values(lf).take(j + 1).drop_last() =~= f.locals@.map_values(lf).take(
            j as int,
        ));
        assert(f.locals@.map_values(lf).take(j + 1).last() == local_item(style, *x));
        if let Some(n) = &x.name {
            let c = var_completion(style, n, "(local) ", x.var_type);
            crate::symbols::push_dv(&mut v, c);
            assert(somes(f.locals@.map_values(lf).take(j + 1)) == before.push(c.deep_view()));
            assert(v.deep_view() =~= first + somes(f.locals@.map_values(lf).take(j + 1)));
        } else {
            assert(somes(f.locals@.map_values(lf).take(j + 1)) == before);
        }
        j = j + 1;
    }
    assert(f.locals@.map_values(lf).take(j as int) =~= f.locals@.map_values(lf));
    v
}

} // verus!

verus! {

/// How a global suggestion is written: the `g$` snippet, the `g=$` snippet
/// (mutable globals only), the name with its type after `global.get $`, or
/// the bare name among all symbols.
#[derive(Clone, Copy, Debug, PartialEq, Eq, Structural)]
pub enum GlobalStyle {
    GlobalGet,
    GlobalSet,
    Typed,
    Bare,
}

pub open spec fn global_item(style: GlobalStyle, g: Global) -> Option<CompletionModel> {
    match g.name {
        None => None,
        Some(name) => {
            let n = name@;
            let ty = value_type_name(g.var_type);
            match style {
                GlobalStyle::GlobalGet => {
                    let insert = "(global.get "@ + n + ")"@;
                    Some(
                        CompletionModel {
                            label: "g"@ + n,
                            kind: Some(CompletionItemKind::Snippet),
                            detail: Some("(global) "@ + ty),
                            documentation: Some("Expands to: "@ + insert),
                            insert_text: Some(insert),
                            insert_text_format: None,
                        },
                    )
                },
                GlobalStyle::GlobalSet => if g.is_mutable {
                    Some(
                        CompletionModel {
                            label: "g="@ + n,
                            kind: Some(CompletionItemKind::Snippet),
                            detail: Some("(global mut) "@ + ty),
                            documentation: None,
                            insert_text: Some("(global.set "@ + n + " $0)"@),
                            insert_text_format: Some(InsertTextFormat::Snippet),
                        },
                    )
                } else {
                    None
                },
                GlobalStyle::Typed => Some(
                    CompletionModel {
                        label: n.drop_first(),
                        kind: Some(CompletionItemKind::Variable),
                        detail: Some(
                            "(global"@ + (if g.is_mutable {
                                " mut"@
                            } else {
                                Seq::empty()
                            }) + ") "@ + ty,
                        ),
                        documentation: None,
                        insert_text: None,
                        insert_text_format: None,
                    },
                ),
                GlobalStyle::Bare => Some(
                    CompletionModel {
                        label: n.drop_first(),
                        kind: Some(CompletionItemKind::Variable),
                        detail: Some("global"@),
                        documentation: None,
                        insert_text: None,
                        insert_text_format: None,
                    },
                ),
            }
        },
    }
}

/// The global suggestions, in the order of the globals.
pub open spec fn global_items(style: GlobalStyle, gs: Seq<Global>) -> Seq<CompletionModel> {
    somes(gs.map_values(|g: Global| global_item(style, g)))
}

/// Every global name can lose its first byte.
pub open spec fn globals_sliceable(gs: Seq<Global>) -> bool {
    forall|i: int| 0 <= i < gs.len() ==> opt_sliceable((#[trigger] gs[i]).name)
}

fn global_completion(style: GlobalStyle, g: &Global) -> (r: Option<CompletionItem>)
    requires
        (style == GlobalStyle::Typed || style == GlobalStyle::Bare) ==> opt_sliceable(g.name),
    ensures
        match global_item(style, *g) {
            Some(m) => r is Some && r->0.deep_view() == m,
            None => r is None,
        },
{
    let n = match &g.name {
        Some(n) => n,
        None => return None,
    };
    let ty = g.var_type.to_str();
    match style {
        GlobalStyle::GlobalGet => {
            let mut insert = "(global.get ".to_owned();
            insert.append(n.as_str());
            insert.append(")");
            let mut label = "g".to_owned();
            label.append(n.as_str());
            let mut detail = "(global) ".to_owned();
            detail.append(ty.as_str());
            let mut doc = "Expands to: ".to_owned();
            doc.append(insert.as_str());
            Some(
                CompletionItem::new(label).with_kind(CompletionItemKind::Snippet).with_detail(
                    detail,
                ).with_insert_text(insert).with_documentation(doc),
            )
        },
        GlobalStyle::GlobalSet => {
            if !g.is_mutable {
                return None;
            }
            let mut insert = "(global.set ".to_owned();
            insert.append(n.as_str());
            insert.append(" $0)");
            let mut label = "g=".to_owned();
            label.append(n.as_str());
            let mut detail = "(global mut) ".to_owned();
            detail.append(ty.as_str());
            Some(
                CompletionItem::new(label).with_kind(CompletionItemKind::Snippet).with_detail(
                    detail,
                ).with_insert_text_format(InsertTextFormat::Snippet).with_insert_text(insert),
            )
        },
        GlobalStyle::Typed => {
            let mut detail = "(global".to_owned();
            if g.is_mutable {
                detail.append(" mut");
            }
            detail.append(") ");
            detail.append(ty.as_str());
            Some(
                CompletionItem::new(drop_sigil(n)).with_kind(CompletionItemKind::Variable).with_detail(
                    detail,
                ),
            )
        },
        GlobalStyle::Bare => {
            Some(
                CompletionItem::new(drop_sigil(n)).with_kind(CompletionItemKind::Variable).with_detail(
                    "global".to_owned(),
                ),
            )
        },
    }
}

/// The global suggestions of a symbol table.
fn global_completions(gs: &Vec<Global>, style: GlobalStyle) -> (v: Vec<CompletionItem>)
    requires
        (style == GlobalStyle::Typed || style == GlobalStyle::Bare) ==> globals_sliceable(gs@),
    ensures
        v.deep_view() == global_items(style, gs@),
{
    let ghost gf = |g: Global| global_item(style, g);
    let mut v: Vec<CompletionItem> = Vec::new();
    let mut i: usize = 0;
    while i < gs.len()
        invariant
            i <= gs@.len(),
            (style == GlobalStyle::Typed || style == GlobalStyle::Bare) ==> globals_sliceable(gs@),
            gf == (|g: Global| global_item(style, g)),
            v.deep_view() == somes(gs@.map_values(gf).take(i as int)),
        decreases gs@.len() - i,
    {
        assert(gs@.map_values(gf).take(i + 1).drop_last() =~= gs@.map_values(gf).take(i as int));
        assert(gs@.map_values(gf).take(i + 1).last() == global_item(style, gs@[i as int]));
        assert(opt_sliceable(gs@[i as int].name) || !(style == GlobalStyle::Typed || style
            == GlobalStyle::Bare));
        match global_completion(style, &gs[i]) {
            Some(c) => {
                crate::symbols::push_dv(&mut v, c);
            },
            None => {},
        }
        i = i + 1;
    }
    assert(gs@.map_values(gf).take(i as int) =~= gs@.map_values(gf));
    v
}

/// The types of the parameters of `f`.
pub open spec fn param_types(f: Function) -> Seq<ValueType> {
    f.parameters@.map_values(|p: Parameter| p.param_type)
}

/// The suggestion for a function after `call $` (`typed`) or among all
/// symbols.
pub open spec fn function_item(typed: bool, f: Function) -> Option<CompletionModel> {
    match f.name {
        None => None,
        Some(name) => {
            let ps = crate::hover::joined_types(param_types(f));
            let rs = crate::hover::joined_types(f.results@);
            Some(
                CompletionModel {
                    label: name@.drop_first(),
                    kind: Some(CompletionItemKind::Function),
                    detail: Some(
                        if typed {
                            "("@ + (if ps.len() == 0 {
                                "no params"@
                            } else {
                                ps
                            }) + ") -> ("@ + (if rs.len() == 0 {
                                "no result"@
                            } else {
                                rs
                            }) + ")"@
                        } else {
                            "function"@
                        },
                    ),
                    documentation: None,
                    insert_text: None,
                    insert_text_format: None,
                },
            )
        },
    }
}

/// The function suggestions, in the order of the functions.
pub open spec fn function_items(typed: bool, fs: Seq<Function>) -> Seq<CompletionModel> {
    somes(fs.map_values(|f: Function| function_item(typed, f)))
}

/// Every function name can lose its first byte.
pub open spec fn functions_sliceable(fs: Seq<Function>) -> bool {
    forall|i: int| 0 <= i < fs.len() ==> opt_sliceable((#[trigger] fs[i]).name)
}

fn param_type_vec(f: &Function) -> (v: Vec<ValueType>)
    ensures
        v@ == param_types(*f),
{
    let mut v: Vec<ValueType> = Vec::new();
    let mut i: usize = 0;
    while i < f.parameters.len()
        invariant
            i <= f.parameters@.len(),
            v@ =~= param_types(*f).take(i as int),
        decreases f.parameters@.len() - i,
    {
        v.push(f.parameters[i].param_type);
        i = i + 1;
    }
    v
}

fn function_completion(typed: bool, f: &Function) -> (r: Option<CompletionItem>)
    requires
        opt_sliceable(f.name),
    ensures
        match function_item(typed, *f) {
            Some(m) => r is Some && r->0.deep_view() == m,
            None => r is None,
        },
{
    let n = match &f.name {
        Some(n) => n,
        None => return None,
    };
    let detail = if typed {
        let mut ps = String::new();
        crate::hover::push_joined_types(&mut ps, &param_type_vec(f));
        let mut rs = String::new();
        crate::hover::push_joined_types(&mut rs, &f.results);
        assert(ps@ == crate::hover::joined_types(param_types(*f)));
        assert(rs@ == crate::hover::joined_types(f.results@));
        let mut d = "(".to_owned();
        if ps.as_str().is_empty() {
            d.append("no params");
        } else {
            d.append(ps.as_str());
        }
        d.append(") -> (");
        if rs.as_str().is_empty() {
            d.append("no result");
        } else {
            d.append(rs.as_str());
        }
        d.append(")");
        d
    } else {
        "function".to_owned()
    };
    Some(
        CompletionItem::new(drop_sigil(n)).with_kind(CompletionItemKind::Function).with_detail(
            detail,
        ),
    )
}

/// The function suggestions of a symbol table.
fn function_completions(fs: &Vec<Function>, typed: bool) -> (v: Vec<CompletionItem>)
    requires
        functions_sliceable(fs@),
    ensures
        v.deep_view() == function_items(typed, fs@),
{
    let ghost ff = |f: Function| function_item(typed, f);
    let mut v: Vec<CompletionItem> = Vec::new();
    let mut i: usize = 0;
    while i < fs.len()
        invariant
            i <= fs@.len(),
            functions_sliceable(fs@),
            ff == (|f: Function| function_item(typed, f)),
            v.deep_view() == somes(fs@.map_values(ff).take(i as int)),
        decreases fs@.len() - i,
    {
        assert(fs@.map_values(ff).take(i + 1).drop_last() =~= fs@.map_values(ff).take(i as int));
        assert(fs@.map_values(ff).take(i + 1).last() == function_item(typed, fs@[i as int]));
        assert(opt_sliceable(fs@[i as int].name));
        match function_completion(typed, &fs[i]) {
            Some(c) => {
                crate::symbols::push_dv(&mut v, c);
            },
            None => {},
        }
        i = i + 1;
    }
    assert(fs@.map_values(ff).take(i as int) =~= fs@.map_values(ff));
    v
}

/// The suggestion for a block label after `br $`.
pub open spec fn block_item(b: BlockLabel) -> CompletionModel {
    CompletionModel {
        label: b.label@.drop_first(),
        kind: Some(CompletionItemKind::Constant),
        detail: Some(b.block_type@ + " at line "@ + crate::text::decimal((b.line + 1) as nat)),
        documentation: None,
        insert_text: None,
        insert_text_format: None,
    }
}

/// Every label can lose its first byte, and every line number can be
/// incremented.
pub open spec fn blocks_ok(bs: Seq<BlockLabel>) -> bool {
    forall|i: int| 0 <= i < bs.len() ==> sliceable((#[trigger] bs[i]).label@) && bs[i].line < u32::MAX
}

/// The label suggestions of a function.
fn block_completions(bs: &Vec<BlockLabel>) -> (v: Vec<CompletionItem>)
    requires
        blocks_ok(bs@),
    ensures
        v.deep_view() == bs@.map_values(|b: BlockLabel| block_item(b)),
{
    let mut v: Vec<CompletionItem> = Vec::new();
    let mut i: usize = 0;
    while i < bs.len()
        invariant
            i <= bs@.len(),
            blocks_ok(bs@),
            v.deep_view() =~= bs@.map_values(|b: BlockLabel| block_item(b)).take(i as int),
        decreases bs@.len() - i,
    {
        let b = &bs[i];
        assert(sliceable(bs@[i as int].label@) && bs@[i as int].line < u32::MAX);
        let mut detail = b.block_type.clone();
        detail.append(" at line ");
        let num = crate::text::decimal_string((b.line + 1) as u64);
        detail.append(num.as_str());
        let c = CompletionItem::new(drop_sigil(&b.label)).with_kind(CompletionItemKind::Constant).with_detail(
            detail,
        );
        crate::symbols::push_dv(&mut v, c);
        i = i + 1;
    }
    v
}

} // verus!

verus! {

/// The suggestions after `l$` (`LocalGet`), `l=$` (`LocalSet`) or a bare `$`
/// in a local context: the variables of the function that contains `pos`.
pub open spec fn local_scope_items(style: VarStyle, sym: SymbolTable, pos: Position) -> Seq<CompletionModel> {
    match containing_function_index(sym.functions@, pos.line) {
        Some(i) => var_items(style, sym.functions@[i]),
        None => Seq::empty(),
    }
}

/// The suggestions after a `$`, by the context that the line suggests.
pub open spec fn dollar_items(p: Seq<char>, sym: SymbolTable, pos: Position) -> Seq<CompletionModel> {
    match context_from_line(p) {
        InstructionContext::Call => function_items(true, sym.functions@),
        InstructionContext::Global => global_items(GlobalStyle::Typed, sym.globals@),
        InstructionContext::Local => local_scope_items(VarStyle::Bare, sym, pos),
        InstructionContext::Branch => match containing_function_index(sym.functions@, pos.line) {
            Some(i) => sym.functions@[i].blocks@.map_values(|b: BlockLabel| block_item(b)),
            None => Seq::empty(),
        },
        _ => function_items(false, sym.functions@) + global_items(GlobalStyle::Bare, sym.globals@),
    }
}

/// The names that the suggestions after a `$` cut are long enough to cut.
pub open spec fn dollar_ok(p: Seq<char>, sym: SymbolTable, pos: Position) -> bool {
    match context_from_line(p) {
        InstructionContext::Call => functions_sliceable(sym.functions@),
        InstructionContext::Global => globals_sliceable(sym.globals@),
        InstructionContext::Local => match containing_function_index(sym.functions@, pos.line) {
            Some(i) => vars_sliceable(sym.functions@[i]),
            None => true,
        },
        InstructionContext::Branch => match containing_function_index(sym.functions@, pos.line) {
            Some(i) => blocks_ok(sym.functions@[i].blocks@),
            None => true,
        },
        _ => functions_sliceable(sym.functions@) && globals_sliceable(sym.globals@),
    }
}

/// A prefix that gets the suggestions after a bare `$`.
pub open spec fn dollar_branch(p: Seq<char>) -> bool {
    &&& ends_with(p, "$"@)
    &&& !ends_with(p, "l$"@)
    &&& !ends_with(p, "l=$"@)
    &&& !ends_with(p, "g$"@)
    &&& !ends_with(p, "g=$"@)
}

/// The instruction names that may follow a prefix ending with a type, a
/// namespace or `br_on_`, if it ends with one.
pub open spec fn member_items(p: Seq<char>) -> Option<Seq<CompletionModel>> {
    if ends_with(p, "(@"@) {
        Some(annotation_items())
    } else if ends_with(p, "i32."@) || ends_with(p, "i64."@) {
        Some(type_items(true))
    } else if ends_with(p, "f32."@) || ends_with(p, "f64."@) {
        Some(type_items(false))
    } else if ends_with(p, "local."@) {
        Some(keyword_items(local_ops()))
    } else if ends_with(p, "global."@) {
        Some(keyword_items(global_ops()))
    } else if ends_with(p, "memory."@) {
        Some(keyword_items(memory_ops()))
    } else if ends_with(p, "table."@) {
        Some(keyword_items(table_ops()))
    } else if ends_with(p, "ref."@) {
        Some(keyword_items(ref_ops()))
    } else if ends_with(p, "struct."@) {
        Some(keyword_items(struct_ops()))
    } else if ends_with(p, "array."@) {
        Some(keyword_items(array_ops()))
    } else if ends_with(p, "i31."@) {
        Some(keyword_items(i31_ops()))
    } else if ends_with(p, "br_on_"@) {
        Some(keyword_items(br_on_ops()))
    } else if ends_with(p, "any."@) {
        Some(keyword_items(any_ops()))
    } else if ends_with(p, "extern."@) {
        Some(keyword_items(extern_ops()))
    } else {
        None
    }
}

/// The suggestions for the text of a line before the cursor, in the order
/// in which the prefixes are tried.
pub open spec fn prefix_items(p: Seq<char>, sym: SymbolTable, pos: Position) -> Seq<CompletionModel> {
    match number_const_match(p) {
        Some(g) => seq![number_item(g.0, g.1)],
        None => if ends_with(p, "l$"@) {
            local_scope_items(VarStyle::LocalGet, sym, pos)
        } else if ends_with(p, "l=$"@) {
            local_scope_items(VarStyle::LocalSet, sym, pos)
        } else if ends_with(p, "g$"@) {
            global_items(GlobalStyle::GlobalGet, sym.globals@)
        } else if ends_with(p, "g=$"@) {
            global_items(GlobalStyle::GlobalSet, sym.globals@)
        } else {
            match member_items(p) {
                Some(items) => items,
                None => if ends_with(p, "$"@) {
                    dollar_items(p, sym, pos)
                } else if ends_with(p, "@"@) {
                    keyword_items(doc_tags())
                } else if trimmed(p).len() > 0 {
                    keyword_items(keywords())
                } else {
                    Seq::empty()
                },
            }
        },
    }
}

/// The byte at which the prefix of line `l` ends for column `ch`: the
/// column, at most the line's length taken as a `u32`.
pub open spec fn prefix_cut(l: Seq<char>, ch: u32) -> int {
    let m = (byte_len(l) % 0x1_0000_0000) as int;
    if (ch as int) < m {
        ch as int
    } else {
        m
    }
}

/// The text of line `l` before column `ch`.
pub open spec fn line_prefix(l: Seq<char>, ch: u32) -> Seq<char> {
    l.take(char_index_of_byte(l, prefix_cut(l, ch)))
}

/// The completion items at `pos`: none past the last line, else those of
/// the line's text before the cursor.
pub open spec fn completions(doc: Seq<char>, sym: SymbolTable, pos: Position) -> Seq<CompletionModel> {
    match line_at(doc, pos.line as int) {
        Some(l) => prefix_items(line_prefix(l, pos.character), sym, pos),
        None => Seq::empty(),
    }
}

/// The inputs on which completion is defined: the cursor's column, cut to
/// the line, falls between characters, and the names that a `$` suggestion
/// shortens have a one-byte first character.
pub open spec fn completion_ok(doc: Seq<char>, sym: SymbolTable, pos: Position) -> bool {
    match line_at(doc, pos.line as int) {
        Some(l) => {
            &&& is_char_boundary(l, prefix_cut(l, pos.character))
            &&& dollar_branch(line_prefix(l, pos.character)) ==> dollar_ok(
                line_prefix(l, pos.character),
                sym,
                pos,
            )
        },
        None => true,
    }
}

fn local_scope_completions(style: VarStyle, symbols: &SymbolTable, position: Position) -> (v: Vec<CompletionItem>)
    requires
        style == VarStyle::Bare ==> (containing_function_index(symbols.functions@, position.line) matches Some(i)
            ==> vars_sliceable(symbols.functions@[i])),
    ensures
        v.deep_view() == local_scope_items(style, *symbols, position),
{
    match utils::find_containing_function(symbols, position) {
        Some(f) => var_completions(f, style),
        None => Vec::new(),
    }
}

fn member_completions(s: &[char]) -> (r: Option<Vec<CompletionItem>>)
    ensures
        match member_items(s@) {
            Some(items) => r is Some && r->0.deep_view() == items,
            None => r is None,
        },
{
    if ends_with_str(s, "(@") {
        Some(get_annotation_completions())
    } else if ends_with_str(s, "i32.") || ends_with_str(s, "i64.") {
        Some(get_type_completions(true))
    } else if ends_with_str(s, "f32.") || ends_with_str(s, "f64.") {
        Some(get_type_completions(false))
    } else if ends_with_str(s, "local.") {
        Some(keyword_list(&local_ops_exec()))
    } else if ends_with_str(s, "global.") {
        Some(keyword_list(&global_ops_exec()))
    } else if ends_with_str(s, "memory.") {
        Some(keyword_list(&memory_ops_exec()))
    } else if ends_with_str(s, "table.") {
        Some(keyword_list(&table_ops_exec()))
    } else if ends_with_str(s, "ref.") {
        Some(keyword_list(&ref_ops_exec()))
    } else if ends_with_str(s, "struct.") {
        Some(keyword_list(&struct_ops_exec()))
    } else if ends_with_str(s, "array.") {
        Some(keyword_list(&array_ops_exec()))
    } else if ends_with_str(s, "i31.") {
        Some(keyword_list(&i31_ops_exec()))
    } else if ends_with_str(s, "br_on_") {
        Some(keyword_list(&br_on_ops_exec()))
    } else if ends_with_str(s, "any.") {
        Some(keyword_list(&any_ops_exec()))
    } else if ends_with_str(s, "extern.") {
        Some(keyword_list(&extern_ops_exec()))
    } else {
        None
    }
}

fn dollar_completions(s: &[char], symbols: &SymbolTable, position: Position) -> (v: Vec<CompletionItem>)
    requires
        dollar_ok(s@, *symbols, position),
    ensures
        v.deep_view() == dollar_items(s@, *symbols, position),
{
    let line = string_from_chars(s);
    match utils::determine_context_from_line(line.as_str()) {
        InstructionContext::Call => function_completions(&symbols.functions, true),
        InstructionContext::Global => global_completions(&symbols.globals, GlobalStyle::Typed),
        InstructionContext::Local => local_scope_completions(VarStyle::Bare, symbols, position),
        InstructionContext::Branch => match utils::find_containing_function(symbols, position) {
            Some(f) => block_completions(&f.blocks),
            None => Vec::new(),
        },
        _ => {
            let mut v = function_completions(&symbols.functions, false);
            let mut g = global_completions(&symbols.globals, GlobalStyle::Bare);
            let ghost a = v.deep_view();
            let ghost b = g.deep_view();
            v.append(&mut g);
            assert(v.deep_view() =~= a + b);
            v
        },
    }
}

/// The suggestions for the text `s` of a line before the cursor.
fn prefix_completions(s: &[char], symbols: &SymbolTable, position: Position) -> (v: Vec<CompletionItem>)
    requires
        dollar_branch(s@) ==> dollar_ok(s@, *symbols, position),
    ensures
        v.deep_view() == prefix_items(s@, *symbols, position),
{
    let text = string_from_chars(s);
    if let Some(c) = number_const_completion(text.as_str()) {
        let v = vec![c];
        assert(v.deep_view() =~= seq![c.deep_view()]);
        return v;
    }
    if ends_with_str(s, "l$") {
        return local_scope_completions(VarStyle::LocalGet, symbols, position);
    }
    if ends_with_str(s, "l=$") {
        return local_scope_completions(VarStyle::LocalSet, symbols, position);
    }
    if ends_with_str(s, "g$") {
        return global_completions(&symbols.globals, GlobalStyle::GlobalGet);
    }
    if ends_with_str(s, "g=$") {
        return global_completions(&symbols.globals, GlobalStyle::GlobalSet);
    }
    if let Some(v) = member_completions(s) {
        return v;
    }
    if ends_with_str(s, "$") {
        return dollar_completions(s, symbols, position);
    }
    if ends_with_str(s, "@") {
        return keyword_list(&doc_tags_exec());
    }
    if trim_chars(s).len() > 0 {
        return keyword_list(&keywords_exec());
    }
    Vec::new()
}

fn sliceable_exec(n: &str) -> (b: bool)
    ensures
        b == sliceable(n@),
{
    let c = chars_of(n);
    c.len() > 0 && crate::text::width_of(c[0]) == 1
}

fn opt_sliceable_exec(o: &Option<String>) -> (b: bool)
    ensures
        b == opt_sliceable(*o),
{
    match o {
        Some(n) => sliceable_exec(n.as_str()),
        None => true,
    }
}

fn functions_sliceable_exec(fs: &Vec<Function>) -> (b: bool)
    ensures
        b == functions_sliceable(fs@),
{
    let mut i: usize = 0;
    while i < fs.len()
        invariant
            i <= fs@.len(),
            forall|k: int| 0 <= k < i ==> opt_sliceable((#[trigger] fs@[k]).name),
        decreases fs@.len() - i,
    {
        if !opt_sliceable_exec(&fs[i].name) {
            return false;
        }
        i = i + 1;
    }
    true
}

fn globals_sliceable_exec(gs: &Vec<Global>) -> (b: bool)
    ensures
        b == globals_sliceable(gs@),
{
    let mut i: usize = 0;
    while i < gs.len()
        invariant
            i <= gs@.len(),
            forall|k: int| 0 <= k < i ==> opt_sliceable((#[trigger] gs@[k]).name),
        decreases gs@.len() - i,
    {
        if !opt_sliceable_exec(&gs[i].name) {
            return false;
        }
        i = i + 1;
    }
    true
}

fn vars_sliceable_exec(f: &Function) -> (b: bool)
    ensures
        b == vars_sliceable(*f),
{
    let mut i: usize = 0;
    while i < f.parameters.len()
        invariant
            i <= f.parameters@.len(),
            forall|k: int| 0 <= k < i ==> opt_sliceable((#[trigger] f.parameters@[k]).name),
        decreases f.parameters@.len() - i,
    {
        if !opt_sliceable_exec(&f.parameters[i].name) {
            return false;
        }
        i = i + 1;
    }
    let mut j: usize = 0;
    while j < f.locals.len()
        invariant
            j <= f.locals@.len(),
            forall|k: int| 0 <= k < f.parameters@.len() ==> opt_sliceable((#[trigger] f.parameters@[k]).name),
            forall|k: int| 0 <= k < j ==> opt_sliceable((#[trigger] f.locals@[k]).name),
        decreases f.locals@.len() - j,
    {
        if !opt_sliceable_exec(&f.locals[j].name) {
            return false;
        }
        j = j + 1;
    }
    true
}

fn blocks_ok_exec(bs: &Vec<BlockLabel>) -> (b: bool)
    ensures
        b == blocks_ok(bs@),
{
    let mut i: usize = 0;
    while i < bs.len()
        invariant
            i <= bs@.len(),
            forall|k: int| 0 <= k < i ==> sliceable((#[trigger] bs@[k]).label@) && bs@[k].line < u32::MAX,
        decreases bs@.len() - i,
    {
        if !(sliceable_exec(bs[i].label.as_str()) && bs[i].line < u32::MAX) {
            return false;
        }
        i = i + 1;
    }
    true
}

fn dollar_ok_exec(p: &[char], symbols: &SymbolTable, position: Position) -> (b: bool)
    ensures
        b == dollar_ok(p@, *symbols, position),
{
    let ps = string_from_chars(p);
    match utils::determine_context_from_line(ps.as_str()) {
        InstructionContext::Call => functions_sliceable_exec(&symbols.functions),
        InstructionContext::Global => globals_sliceable_exec(&symbols.globals),
        InstructionContext::Local => match utils::find_containing_function(symbols, position) {
            Some(f) => vars_sliceable_exec(f),
            None => true,
        },
        InstructionContext::Branch => match utils::find_containing_function(symbols, position) {
            Some(f) => blocks_ok_exec(&f.blocks),
            None => true,
        },
        _ => functions_sliceable_exec(&symbols.functions) && globals_sliceable_exec(&symbols.globals),
    }
}

/// Whether `provide_completion` can serve this position: whether the
/// column falls between characters of its line, and the names that a `$`
/// suggestion would cut can be cut (`completion_ok`).
pub fn completion_applies(document: &str, symbols: &SymbolTable, position: Position) -> (b: bool)
    ensures
        b == completion_ok(document@, *symbols, position),
{
    let line = match utils::get_line_at_position(document, position.line as usize) {
        Some(l) => l,
        None => return true,
    };
    let chars = chars_of(line);
    let len = str_byte_len(line);
    let m: u64 = (len as u64) % 0x1_0000_0000u64;
    let cut: usize = if (position.character as u64) < m {
        position.character as usize
    } else {
        m as usize
    };
    if !is_char_boundary_exec(chars.as_slice(), cut) {
        return false;
    }
    let ci = char_index_at_byte(chars.as_slice(), cut);
    let prefix = sub_chars(chars.as_slice(), 0, ci);
    assert(prefix@ =~= line_prefix(line@, position.character));
    let s = prefix.as_slice();
    let branch = ends_with_str(s, "$") && !ends_with_str(s, "l$") && !ends_with_str(s, "l=$") && !ends_with_str(
        s,
        "g$",
    ) && !ends_with_str(s, "g=$");
    if branch {
        dollar_ok_exec(s, symbols, position)
    } else {
        true
    }
}

/// Provide completion items at the given position in the document.
/// This is the core completion function using protocol-independent types.
pub fn provide_completion(document: &str, symbols: &SymbolTable, position: Position) -> (v: Vec<CompletionItem>)
    requires
        completion_ok(document@, *symbols, position),
    ensures
        v.deep_view() == completions(document@, *symbols, position),
{
    let line = match utils::get_line_at_position(document, position.line as usize) {
        Some(l) => l,
        None => return Vec::new(),
    };
    let chars = chars_of(line);
    let len = str_byte_len(line);
    let m: u64 = (len as u64) % 0x1_0000_0000u64;
    let cut: usize = if (position.character as u64) < m {
        position.character as usize
    } else {
        m as usize
    };
    let ci = char_index_at_byte(chars.as_slice(), cut);
    let prefix = sub_chars(chars.as_slice(), 0, ci);
    assert(prefix@ =~= line_prefix(line@, position.character));
    prefix_completions(prefix.as_slice(), symbols, position)
}

} // verus!

verus! {

/// Each value that `somes` keeps comes from a present entry of the input.
pub proof fn lemma_somes_member<T>(s: Seq<Option<T>>, k: int)
    requires
        0 <= k < somes(s).len(),
    ensures
        exists|i: int| 0 <= i < s.len() && s[i] == Some(somes(s)[k]),
    decreases s.len(),
{
    if s.len() > 0 {
        let r = somes(s.drop_last());
        match s.last() {
            Some(x) => {
                if k < r.len() {
                    lemma_somes_member(s.drop_last(), k);
                    let i = choose|i: int| 0 <= i < s.drop_last().len() && s.drop_last()[i] == Some(r[k]);
                    assert(s[i] == Some(somes(s)[k]));
                } else {
                    assert(s[s.len() - 1] == Some(somes(s)[k]));
                }
            },
            None => {
                lemma_somes_member(s.drop_last(), k);
                let i = choose|i: int| 0 <= i < s.drop_last().len() && s.drop_last()[i] == Some(r[k]);
                assert(s[i] == Some(somes(s)[k]));
            },
        }
    }
}

/// After `g=$`, every suggestion sets a mutable global: its label is `g=`
/// followed by the name of a mutable global, and it inserts a
/// `global.set` of that global.
pub proof fn law_global_set_suggests_only_mutable(gs: Seq<Global>, k: int)
    requires
        0 <= k < global_items(GlobalStyle::GlobalSet, gs).len(),
    ensures
        exists|i: int|
            0 <= i < gs.len() && #[trigger] gs[i].is_mutable && gs[i].name is Some
                && global_items(GlobalStyle::GlobalSet, gs)[k].label == "g="@ + gs[i].name->0@
                && global_items(GlobalStyle::GlobalSet, gs)[k].insert_text == Some(
                "(global.set "@ + gs[i].name->0@ + " $0)"@,
            ),
{
    let s = gs.map_values(|g: Global| global_item(GlobalStyle::GlobalSet, g));
    lemma_somes_member(s, k);
    let i = choose|i: int| 0 <= i < s.len() && s[i] == Some(somes(s)[k]);
    assert(s[i] == global_item(GlobalStyle::GlobalSet, gs[i]));
    assert(gs[i].is_mutable);
}


/// `somes` of a mapped sequence keeps, in order, the entries that the map
/// sends to a value.
pub proof fn lemma_somes_map<T, U>(s: Seq<T>, g: spec_fn(T) -> Option<U>, keep: spec_fn(T) -> bool, h: spec_fn(T) -> U)
    requires
        forall|x: T| #[trigger] g(x) == if keep(x) {
            Some(h(x))
        } else {
            None
        },
    ensures
        somes(s.map_values(g)) == s.filter(keep).map_values(h),
    decreases s.len(),
{
    if s.len() > 0 {
        lemma_somes_map(s.drop_last(), g, keep, h);
        reveal(Seq::filter);
        assert(s.map_values(g).drop_last() =~= s.drop_last().map_values(g));
        assert(s.map_values(g).last() == g(s.last()));
        if keep(s.last()) {
            assert(s.filter(keep) == s.drop_last().filter(keep).push(s.last()));
            assert(s.filter(keep).map_values(h) =~= s.drop_last().filter(keep).map_values(h).push(h(s.last())));
        } else {
            assert(s.filter(keep) == s.drop_last().filter(keep));
        }
    }
}

/// After `l$` (where the text before the cursor is no number constant), the
/// suggestions are those of the function around the cursor: its named
/// parameters in order, then its named locals in order, each labelled `l`
/// and the name, a snippet that inserts `(local.get <name>)`; unnamed ones
/// give none, and outside any function there are none.
pub proof fn law_local_get_suggestions(p: Seq<char>, sym: SymbolTable, pos: Position)
    requires
        ends_with(p, "l$"@),
        number_const_match(p) is None,
    ensures
        containing_function_index(sym.functions@, pos.line) is None ==> prefix_items(p, sym, pos).len() == 0,
        forall|i: int| containing_function_index(sym.functions@, pos.line) == Some(i) ==> prefix_items(p, sym, pos)
            == (#[trigger] sym.functions@[i]).parameters@.filter(|q: Parameter| q.name is Some).map_values(
            |q: Parameter| var_item(VarStyle::LocalGet, q.name->0@, "(param) "@, q.param_type),
        ) + sym.functions@[i].locals@.filter(|v: Variable| v.name is Some).map_values(
            |v: Variable| var_item(VarStyle::LocalGet, v.name->0@, "(local) "@, v.var_type),
        ),
        forall|n: Seq<char>, tag: Seq<char>, ty: ValueType| {
            let c = #[trigger] var_item(VarStyle::LocalGet, n, tag, ty);
            &&& c.label == "l"@ + n
            &&& c.kind == Some(CompletionItemKind::Snippet)
            &&& c.insert_text == Some("(local.get "@ + n + ")"@)
        },
{
    assert(prefix_items(p, sym, pos) == local_scope_items(VarStyle::LocalGet, sym, pos));
    match containing_function_index(sym.functions@, pos.line) {
        None => {},
        Some(i) => {
            let f = sym.functions@[i];
            lemma_somes_map(
                f.parameters@,
                |q: Parameter| param_item(VarStyle::LocalGet, q),
                |q: Parameter| q.name is Some,
                |q: Parameter| var_item(VarStyle::LocalGet, q.name->0@, "(param) "@, q.param_type),
            );
            lemma_somes_map(
                f.locals@,
                |v: Variable| local_item(VarStyle::LocalGet, v),
                |v: Variable| v.name is Some,
                |v: Variable| var_item(VarStyle::LocalGet, v.name->0@, "(local) "@, v.var_type),
            );
        },
    }
}


/// After `g$` (where the text before the cursor is no number constant), the
/// suggestions are the named globals in order, each labelled `g` and the
/// name, a snippet that inserts `(global.get <name>)`; after `g=$`, the named
/// mutable globals in order, each labelled `g=` and the name, inserting
/// `(global.set <name> $0)`.
pub proof fn law_global_suggestions(p: Seq<char>, sym: SymbolTable, pos: Position)
    requires
        number_const_match(p) is None,
    ensures
        ends_with(p, "g$"@) && !ends_with(p, "l$"@) && !ends_with(p, "l=$"@) ==> prefix_items(p, sym, pos)
            == sym.globals@.filter(|g: Global| g.name is Some).map_values(
            |g: Global| global_item(GlobalStyle::GlobalGet, g)->0,
        ),
        ends_with(p, "g=$"@) && !ends_with(p, "l$"@) && !ends_with(p, "l=$"@) && !ends_with(p, "g$"@)
            ==> prefix_items(p, sym, pos) == sym.globals@.filter(|g: Global| g.name is Some && g.is_mutable).map_values(
            |g: Global| global_item(GlobalStyle::GlobalSet, g)->0,
        ),
        forall|g: Global| #![trigger global_item(GlobalStyle::GlobalGet, g)] g.name is Some ==> {
            let c = global_item(GlobalStyle::GlobalGet, g)->0;
            &&& c.label == "g"@ + g.name->0@
            &&& c.kind == Some(CompletionItemKind::Snippet)
            &&& c.insert_text == Some("(global.get "@ + g.name->0@ + ")"@)
        },
        forall|g: Global| #![trigger global_item(GlobalStyle::GlobalSet, g)] g.name is Some && g.is_mutable ==> {
            let c = global_item(GlobalStyle::GlobalSet, g)->0;
            &&& c.label == "g="@ + g.name->0@
            &&& c.insert_text == Some("(global.set "@ + g.name->0@ + " $0)"@)
        },
{
    lemma_somes_map(
        sym.globals@,
        |g: Global| global_item(GlobalStyle::GlobalGet, g),
        |g: Global| g.name is Some,
        |g: Global| global_item(GlobalStyle::GlobalGet, g)->0,
    );
    lemma_somes_map(
        sym.globals@,
        |g: Global| global_item(GlobalStyle::GlobalSet, g),
        |g: Global| g.name is Some && g.is_mutable,
        |g: Global| global_item(GlobalStyle::GlobalSet, g)->0,
    );
}

/// After `call $` the suggestions are the named functions in order, each
/// labelled by its name without the `$`, of kind Function, with its
/// parameter and result types as detail.
pub proof fn law_call_suggestions(sym: SymbolTable)
    ensures
        function_items(true, sym.functions@) == sym.functions@.filter(|f: Function| f.name is Some).map_values(
            |f: Function| function_item(true, f)->0,
        ),
        forall|f: Function| #![trigger function_item(true, f)] f.name is Some ==> {
            let c = function_item(true, f)->0;
            &&& c.label == f.name->0@.drop_first()
            &&& c.kind == Some(CompletionItemKind::Function)
        },
{
    lemma_somes_map(
        sym.functions@,
        |f: Function| function_item(true, f),
        |f: Function| f.name is Some,
        |f: Function| function_item(true, f)->0,
    );
}

} // verus!
