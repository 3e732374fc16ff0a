//! Hover on symbols: the context of the word under the cursor, from the
//! syntax around it, decides which kind of symbol it names.
use vstd::prelude::*;
use crate::docs::{doc_lookup, get_instruction_doc};
use crate::hover;
use crate::hover::{any_symbol_hover, block_hover, block_text, code, code_exec, data_hover, data_preview_ok, data_text, elem_hover, elem_text, format_type_signature, function_hover, function_hover_text, global_hover, global_text, memory_hover, memory_text, provide_struct_field_hover, struct_field_hover, table_hover, table_text, tag_hover, tag_text, try_all_symbol_types, type_signature, var_hover, var_text};
use crate::parser;
use crate::parser::{doc_wf, Doc};
use crate::references::{all_digits, all_digits_exec, catch_context, catch_context_exec, cursor_node, cursor_node_exec, head_node, is_comment_exec, next_child_exec};
use crate::semantic_tokens::{block_word_exec, is_field, is_field_exec, prev_from_exec, prev_keyword, word_is};
use crate::symbols;
use crate::symbols::{first_named, lookup_index, lookup_named, value_type_name, Named, SymbolTable};
use crate::syntax;
use crate::syntax::{byte_at, NodeKind, SyntaxNode};
use crate::text;
use crate::types::{HoverResult, Position};
use crate::utils;
use crate::utils::{containing_function_index, context_from_line, line_at, word_at, InstructionContext};

verus! {

/// Words that head declarations and structure rather than instructions.
pub open spec fn structural_word(w: Seq<char>) -> bool {
    ||| w == "module"@ || w == "func"@ || w == "param"@ || w == "result"@ || w == "local"@
    ||| w == "global"@ || w == "table"@ || w == "memory"@ || w == "type"@ || w == "import"@
    ||| w == "export"@ || w == "elem"@ || w == "data"@ || w == "start"@ || w == "tag"@
    ||| w == "rec"@ || w == "sub"@ || w == "struct"@ || w == "array"@ || w == "field"@
    ||| w == "mut"@ || w == "ref"@ || w == "then"@ || w == "else"@ || w == "offset"@
    ||| w == "item"@ || w == "declare"@ || w == "delegate"@
    ||| crate::references::catch_word(w)
    ||| parser::block_word(w)
}

/// The context that the text of an instruction suggests.
pub open spec fn instr_text_context(x: Seq<char>) -> Option<InstructionContext> {
    if text::contains(x, "call"@) {
        Some(InstructionContext::Call)
    } else if text::contains(x, "local."@) {
        Some(InstructionContext::Local)
    } else if text::contains(x, "global."@) {
        Some(InstructionContext::Global)
    } else if text::starts_with(x, "br"@) || text::contains(x, " br"@) {
        Some(InstructionContext::Branch)
    } else if text::contains(x, "memory.init"@) || text::contains(x, "data.drop"@) {
        Some(InstructionContext::Data)
    } else if text::contains(x, "table.init"@) || text::contains(x, "elem.drop"@) {
        Some(InstructionContext::Elem)
    } else if text::contains(x, "table."@) {
        Some(InstructionContext::Table)
    } else if text::contains(x, "memory."@) || text::contains(x, ".load"@) || text::contains(x, ".store"@) {
        Some(InstructionContext::Memory)
    } else if text::contains(x, "struct."@) || text::contains(x, "array."@) || text::contains(x, "ref.cast"@)
        || text::contains(x, "ref.test"@) {
        Some(InstructionContext::Type)
    } else if text::contains(x, "throw"@) || text::contains(x, "rethrow"@) {
        Some(InstructionContext::Tag)
    } else {
        None
    }
}

/// Where the operands of a flat instruction of `p` end: at the last word
/// before the next keyword or list, scanning the children from node `i`
/// (`end` when there is none).
pub open spec fn operands_end(t: Seq<SyntaxNode>, p: int, i: int, end: int) -> int
    decreases t.len() - i,
{
    if i < 0 || i >= t.len() || p < 0 || p >= t.len() || i >= t[p].last {
        end
    } else if t[i].parent == p && !syntax::is_comment(t[i].kind) {
        if t[i].kind == NodeKind::Keyword || !syntax::is_atom(t[i]) {
            end
        } else {
            operands_end(t, p, i + 1, t[i].end as int)
        }
    } else {
        operands_end(t, p, i + 1, end)
    }
}

/// The context of the flat instruction that node `k` belongs to: a block
/// keyword opens a block; another instruction keyword and its operands are
/// read as text.
pub open spec fn flat_context(s: Seq<char>, t: Seq<SyntaxNode>, k: int) -> Option<InstructionContext> {
    let h = if t[k].kind == NodeKind::Keyword {
        Some(k as usize)
    } else {
        prev_keyword(t, k)
    };
    match h {
        Some(h) => {
            let p = t[h as int].parent as int;
            if t[p].kind == NodeKind::List && head_node(t, p) == Some(h as int) {
                None
            } else {
                let w = syntax::text_of(s, t[h as int]);
                if parser::block_word(w) {
                    Some(InstructionContext::Block)
                } else if structural_word(w) {
                    None
                } else {
                    instr_text_context(
                        s.subrange(t[h as int].start as int, operands_end(t, p, h + 1, t[h as int].end as int)),
                    )
                }
            }
        },
        None => None,
    }
}

/// The text of a list after its opening parenthesis.
pub open spec fn inner_text(s: Seq<char>, n: SyntaxNode) -> Seq<char> {
    let x = syntax::text_of(s, n);
    if x.len() > 0 {
        x.subrange(1, x.len() as int)
    } else {
        x
    }
}

/// The context that list `l` gives what it contains, if any.
pub open spec fn list_context(s: Seq<char>, t: Seq<SyntaxNode>, l: int) -> Option<InstructionContext> {
    match head_node(t, l) {
        Some(h) => if t[h].kind == NodeKind::Keyword {
            let w = syntax::text_of(s, t[h]);
            if parser::block_word(w) {
                Some(InstructionContext::Block)
            } else if w == "func"@ && is_field(s, t, l) {
                Some(InstructionContext::Function)
            } else if w == "type"@ {
                Some(InstructionContext::Type)
            } else if w == "tag"@ && is_field(s, t, l) {
                Some(InstructionContext::Tag)
            } else if w == "data"@ && is_field(s, t, l) {
                Some(InstructionContext::Data)
            } else if w == "elem"@ && is_field(s, t, l) {
                Some(InstructionContext::Elem)
            } else if !structural_word(w) {
                instr_text_context(inner_text(s, t[l]))
            } else {
                None
            }
        } else {
            None
        },
        None => None,
    }
}

/// The first context that list `l` or an enclosing list gives.
pub open spec fn enclosing_context(s: Seq<char>, t: Seq<SyntaxNode>, l: int) -> InstructionContext
    decreases l,
{
    if l <= 0 || l >= t.len() {
        InstructionContext::General
    } else if t[l].kind == NodeKind::List && list_context(s, t, l) is Some {
        list_context(s, t, l).unwrap()
    } else if t[l].parent < l {
        enclosing_context(s, t, t[l].parent as int)
    } else {
        InstructionContext::General
    }
}

/// The context of node `k` from the syntax around it: a catch clause index,
/// its flat instruction, else the nearest enclosing list that gives one.
pub open spec fn walk_context(s: Seq<char>, t: Seq<SyntaxNode>, k: int) -> InstructionContext {
    let c = if k > 0 && (t[k].kind == NodeKind::Identifier || t[k].kind == NodeKind::Number) {
        catch_context(s, t, k)
    } else {
        None
    };
    if c is Some {
        c.unwrap()
    } else if k > 0 && t[k].kind != NodeKind::List && flat_context(s, t, k) is Some {
        flat_context(s, t, k).unwrap()
    } else if t[k].kind == NodeKind::List {
        enclosing_context(s, t, k)
    } else {
        enclosing_context(s, t, t[k].parent as int)
    }
}

/// The context of the line at the cursor.
pub open spec fn line_context(line: Option<Seq<char>>) -> InstructionContext {
    match line {
        Some(l) => context_from_line(l),
        None => InstructionContext::General,
    }
}

/// The context of a `$name` under the cursor at byte `b`: from the syntax,
/// unless it gives none (or a block where the line `lc` speaks of tags),
/// then from the line.
pub open spec fn symbol_context(s: Seq<char>, t: Seq<SyntaxNode>, b: int, lc: InstructionContext) -> InstructionContext {
    match cursor_node(s, t, b) {
        Some(k) => {
            let ast = walk_context(s, t, k);
            if ast == InstructionContext::General || (ast == InstructionContext::Block && lc
                == InstructionContext::Tag) {
                lc
            } else {
                ast
            }
        },
        None => lc,
    }
}

/// The context of an index under the cursor at byte `b`: from the syntax,
/// else from the line.
pub open spec fn index_context(s: Seq<char>, t: Seq<SyntaxNode>, b: int, lc: InstructionContext) -> InstructionContext {
    match cursor_node(s, t, b) {
        Some(k) => if walk_context(s, t, k) == InstructionContext::General {
            lc
        } else {
            walk_context(s, t, k)
        },
        None => lc,
    }
}

} // verus!

verus! {

/// The hover of a parameter or local named `w` of the function around
/// `pos`.
pub open spec fn var_hover_text(st: SymbolTable, pos: Position, w: Seq<char>) -> Option<Seq<char>> {
    match containing_function_index(st.functions@, pos.line) {
        Some(i) => {
            let f = st.functions@[i];
            match first_named(f.parameters@, w) {
                Some(p) => Some(var_text("param"@, w, f.parameters@[p].param_type)),
                None => match first_named(f.locals@, w) {
                    Some(l) => Some(var_text("local"@, w, f.locals@[l].var_type)),
                    None => None,
                },
            }
        },
        None => None,
    }
}

/// The hover of the block labelled `w` in the function around `pos`.
pub open spec fn label_hover_text(st: SymbolTable, pos: Position, w: Seq<char>) -> Option<Seq<char>> {
    match containing_function_index(st.functions@, pos.line) {
        Some(i) => match first_named(st.functions@[i].blocks@, w) {
            Some(b) => Some(block_text(st.functions@[i].blocks@[b])),
            None => None,
        },
        None => None,
    }
}

/// The hover of a `$name` in context `ctx`: each kind of symbol is tried in
/// turn where the context allows it, and an unknown context tries them all.
pub open spec fn symbol_hover(w: Seq<char>, st: SymbolTable, ctx: InstructionContext, doc: Seq<char>, pos: Position) -> Option<
    Seq<char>,
> {
    let f = lookup_named(st.functions@, w);
    let g = lookup_named(st.globals@, w);
    let v = var_hover_text(st, pos, w);
    let b = label_hover_text(st, pos, w);
    let tb = lookup_named(st.tables@, w);
    let m = lookup_named(st.memories@, w);
    let ty = lookup_named(st.types@, w);
    let fh = struct_field_hover(st, w, doc, pos);
    let tg = lookup_named(st.tags@, w);
    let d = lookup_named(st.data_segments@, w);
    let e = lookup_named(st.elem_segments@, w);
    if (ctx == InstructionContext::Call || ctx == InstructionContext::Function) && f is Some {
        Some(function_hover_text(f.unwrap()))
    } else if ctx == InstructionContext::Global && g is Some {
        Some(global_text(w, g.unwrap()))
    } else if (ctx == InstructionContext::Local || ctx == InstructionContext::Function) && v is Some {
        v
    } else if (ctx == InstructionContext::Branch || ctx == InstructionContext::Block) && b is Some {
        b
    } else if (ctx == InstructionContext::Table || ctx == InstructionContext::Call) && tb is Some {
        Some(table_text(w, tb.unwrap()))
    } else if (ctx == InstructionContext::Memory || ctx == InstructionContext::General) && m is Some {
        Some(memory_text(w, m.unwrap()))
    } else if ctx == InstructionContext::Type && ty is Some {
        Some(code(type_signature(w, ty.unwrap())))
    } else if ctx == InstructionContext::Type && fh is Some {
        fh
    } else if ctx == InstructionContext::Tag && tg is Some {
        Some(tag_text(w, tg.unwrap()))
    } else if ctx == InstructionContext::Data && d is Some {
        Some(data_text(w, d.unwrap()))
    } else if ctx == InstructionContext::Elem && e is Some {
        Some(elem_text(w, e.unwrap()))
    } else if ctx == InstructionContext::General {
        any_symbol_hover(st, w, doc, pos)
    } else {
        None
    }
}

/// The name, or the given fallback.
pub open spec fn name_or(n: Option<String>, fallback: Seq<char>) -> Seq<char> {
    match n {
        Some(x) => x@,
        None => fallback,
    }
}

/// The hover of index `i` in context `ctx`: a function, global, parameter
/// or local.
pub open spec fn index_hover(i: usize, st: SymbolTable, ctx: InstructionContext, pos: Position) -> Option<Seq<char>> {
    if ctx == InstructionContext::Call && lookup_index(st.functions@, i as int) is Some {
        Some(function_hover_text(st.functions@[i as int]))
    } else if ctx == InstructionContext::Global && lookup_index(st.globals@, i as int) is Some {
        let g = st.globals@[i as int];
        Some(
            code(
                "(global "@ + name_or(g.name, Seq::empty()) + (if g.is_mutable {
                    " mut"@
                } else {
                    Seq::empty()
                }) + " "@ + value_type_name(g.var_type) + ")"@,
            ),
        )
    } else if ctx == InstructionContext::Local {
        match containing_function_index(st.functions@, pos.line) {
            Some(k) => {
                let f = st.functions@[k];
                if i < f.parameters@.len() {
                    let p = f.parameters@[i as int];
                    Some(
                        code(
                            "(param "@ + name_or(p.name, text::decimal(i as nat)) + " "@ + value_type_name(
                                p.param_type,
                            ) + ")"@,
                        ),
                    )
                } else if i - f.parameters@.len() < f.locals@.len() {
                    let j = i - f.parameters@.len();
                    let l = f.locals@[j];
                    Some(
                        code(
                            "(local "@ + name_or(l.name, text::decimal(j as nat)) + " "@ + value_type_name(
                                l.var_type,
                            ) + ")"@,
                        ),
                    )
                } else {
                    None
                }
            },
            None => None,
        }
    } else {
        None
    }
}

/// Byte `b` lies inside a comment.
pub open spec fn inside_comment(s: Seq<char>, t: Seq<SyntaxNode>, b: int) -> bool {
    exists|k: int|
        0 <= k < t.len() && syntax::is_comment(#[trigger] t[k].kind) && byte_at(s, t[k].start as int) <= b
            < byte_at(s, t[k].end as int)
}

/// Annotations that WebAssembly tools define: names, custom sections,
/// producers and branch hints.
pub open spec fn standard_annotation(a: Seq<char>) -> bool {
    a == "name"@ || a == "custom"@ || a == "producers"@ || a == "metadata.code.branch_hint"@
}

/// The hover of annotation `a`: its form, and whether it is a standard or
/// a custom one.
pub open spec fn annotation_text(a: Seq<char>) -> Seq<char> {
    code("(@"@ + a + " ...)"@) + if standard_annotation(a) {
        "\nstandard annotation"@
    } else {
        "\ncustom annotation"@
    }
}

/// The name of the annotation under the cursor at byte `b`, if it is on
/// one: a word `@name`.
pub open spec fn annotation_at(s: Seq<char>, t: Seq<SyntaxNode>, b: int) -> Option<Seq<char>> {
    match cursor_node(s, t, b) {
        Some(k) => {
            let x = syntax::text_of(s, t[k]);
            if t[k].kind == NodeKind::Keyword && x.len() > 0 && x[0] == '@' {
                Some(x.subrange(1, x.len() as int))
            } else {
                None
            }
        },
        None => None,
    }
}

/// The hover at `pos`: nothing inside a comment; on an annotation, what it
/// is; for a word with an entry in the instruction reference `docs`, that
/// entry's text; for a `$name` or a decimal index, the symbol it names in its
/// context.
pub open spec fn hover(s: Seq<char>, st: SymbolTable, docs: Seq<(String, String)>, pos: Position) -> Option<Seq<char>> {
    let t = syntax::tree_of(s);
    let b = utils::position_to_byte_spec(s, pos);
    let lc = line_context(line_at(s, pos.line as int));
    if inside_comment(s, t, b) {
        None
    } else {
        match word_at(s, pos) {
            None => None,
            Some(w) => if annotation_at(s, t, b) is Some {
                Some(annotation_text(annotation_at(s, t, b).unwrap()))
            } else if doc_lookup(docs, w) is Some {
                doc_lookup(docs, w)
            } else if text::starts_with(w, "$"@) {
                symbol_hover(w, st, symbol_context(s, t, b, lc), s, pos)
            } else if all_digits(w) {
                match parser::bounded_value(w, 10, usize::MAX as nat) {
                    Some(i) => index_hover(i as usize, st, index_context(s, t, b, lc), pos),
                    None => None,
                }
            } else {
                None
            },
        }
    }
}

} // verus!

verus! {

fn structural_word_exec(d: &Doc, k: usize) -> (b: bool)
    requires
        doc_wf(d),
        k < d.tree@.len(),
    ensures
        b == structural_word(syntax::text_of(d.chars@, d.tree@[k as int])),
{
    word_is(d, k, "module") || word_is(d, k, "func") || word_is(d, k, "param") || word_is(d, k, "result")
        || word_is(d, k, "local") || word_is(d, k, "global") || word_is(d, k, "table") || word_is(
        d,
        k,
        "memory",
    ) || word_is(d, k, "type") || word_is(d, k, "import") || word_is(d, k, "export") || word_is(
        d,
        k,
        "elem",
    ) || word_is(d, k, "data") || word_is(d, k, "start") || word_is(d, k, "tag") || word_is(d, k, "rec")
        || word_is(d, k, "sub") || word_is(d, k, "struct") || word_is(d, k, "array") || word_is(
        d,
        k,
        "field",
    ) || word_is(d, k, "mut") || word_is(d, k, "ref") || word_is(d, k, "then") || word_is(d, k, "else")
        || word_is(d, k, "offset") || word_is(d, k, "item") || word_is(d, k, "declare") || word_is(
        d,
        k,
        "delegate",
    ) || word_is(d, k, "catch") || word_is(d, k, "catch_ref") || word_is(d, k, "catch_all")
        || word_is(d, k, "catch_all_ref") || block_word_exec(d, k)
}

fn instr_text_context_exec(x: &[char]) -> (r: Option<InstructionContext>)
    ensures
        r == instr_text_context(x@),
{
    if text::contains_str(x, "call") {
        Some(InstructionContext::Call)
    } else if text::contains_str(x, "local.") {
        Some(InstructionContext::Local)
    } else if text::contains_str(x, "global.") {
        Some(InstructionContext::Global)
    } else if text::starts_with_str(x, "br") || text::contains_str(x, " br") {
        Some(InstructionContext::Branch)
    } else if text::contains_str(x, "memory.init") || text::contains_str(x, "data.drop") {
        Some(InstructionContext::Data)
    } else if text::contains_str(x, "table.init") || text::contains_str(x, "elem.drop") {
        Some(InstructionContext::Elem)
    } else if text::contains_str(x, "table.") {
        Some(InstructionContext::Table)
    } else if text::contains_str(x, "memory.") || text::contains_str(x, ".load") || text::contains_str(
        x,
        ".store",
    ) {
        Some(InstructionContext::Memory)
    } else if text::contains_str(x, "struct.") || text::contains_str(x, "array.") || text::contains_str(
        x,
        "ref.cast",
    ) || text::contains_str(x, "ref.test") {
        Some(InstructionContext::Type)
    } else if text::contains_str(x, "throw") || text::contains_str(x, "rethrow") {
        Some(InstructionContext::Tag)
    } else {
        None
    }
}

pub(crate) fn operands_end_exec(d: &Doc, p: usize, i: usize, end: usize) -> (r: usize)
    requires
        doc_wf(d),
        p < d.tree@.len(),
    ensures
        r == operands_end(d.tree@, p as int, i as int, end as int),
{
    let n = d.tree.len();
    proof {
        parser::lemma_node_wf(d, p as int);
    }
    let last = d.tree[p].last;
    let mut j = i;
    let mut e = end;
    while j < last
        invariant
            doc_wf(d),
            n == d.tree@.len(),
            p < n,
            last == d.tree@[p as int].last,
            last <= n,
            i <= j,
            operands_end(d.tree@, p as int, i as int, end as int) == operands_end(
                d.tree@,
                p as int,
                j as int,
                e as int,
            ),
        decreases last - j,
    {
        let x = d.tree[j];
        if x.parent == p && !is_comment_exec(x.kind) {
            if x.kind == NodeKind::Keyword || x.kind == NodeKind::Root || x.kind == NodeKind::List {
                return e;
            }
            e = x.end;
        }
        j = j + 1;
    }
    e
}

/// The operands' end lies between `lo` and `hi` when every word from node
/// `i` on ends there.
pub(crate) proof fn lemma_operands_end_bounds(t: Seq<SyntaxNode>, p: int, i: int, end: int, lo: int, hi: int)
    requires
        lo <= end <= hi,
        forall|j: int| i <= j < t.len() && syntax::is_atom(#[trigger] t[j]) ==> lo <= t[j].end <= hi,
    ensures
        lo <= operands_end(t, p, i, end) <= hi,
    decreases t.len() - i,
{
    if !(i < 0 || i >= t.len() || p < 0 || p >= t.len() || i >= t[p].last) {
        if t[i].parent == p && !syntax::is_comment(t[i].kind) {
            if !(t[i].kind == NodeKind::Keyword || !syntax::is_atom(t[i])) {
                lemma_operands_end_bounds(t, p, i + 1, t[i].end as int, lo, hi);
            }
        } else {
            lemma_operands_end_bounds(t, p, i + 1, end, lo, hi);
        }
    }
}

fn flat_context_exec(d: &Doc, k: usize) -> (r: Option<InstructionContext>)
    requires
        doc_wf(d),
        0 < k < d.tree@.len(),
    ensures
        r == flat_context(d.chars@, d.tree@, k as int),
{
    let _n = d.tree.len();
    let _m = d.pos.len();
    proof {
        parser::lemma_node_wf(d, k as int);
    }
    let h = if d.tree[k].kind == NodeKind::Keyword {
        k
    } else {
        match prev_from_exec(d, d.tree[k].parent, k, true) {
            Some(h) => h,
            None => return None,
        }
    };
    proof {
        parser::lemma_node_wf(d, h as int);
        crate::semantic_tokens::lemma_prev_from(d.tree@, d.tree@[k as int].parent as int, k - 1, true);
    }
    let p = d.tree[h].parent;
    if d.tree[p].kind == NodeKind::List {
        match next_child_exec(d, p, p + 1) {
            Some(x) => {
                if x == h {
                    return None;
                }
            },
            None => {},
        }
    }
    if block_word_exec(d, h) {
        return Some(InstructionContext::Block);
    }
    if structural_word_exec(d, h) {
        return None;
    }
    let start = d.tree[h].start;
    let hend = d.tree[h].end;
    let e = operands_end_exec(d, p, h + 1, hend);
    proof {
        let s = d.chars@;
        let t = d.tree@;
        syntax::lemma_tree_atoms_ordered(s);
        assert(syntax::is_atom(t[h as int]));
        assert forall|j: int| h + 1 <= j < t.len() && syntax::is_atom(#[trigger] t[j]) implies hend <= t[j].end
            <= s.len() by {
            assert(t[h as int].end <= t[j].start);
        }
        lemma_operands_end_bounds(t, p as int, h + 1, hend as int, hend as int, s.len() as int);
    }
    let x = text::sub_chars(d.chars.as_slice(), start, e);
    instr_text_context_exec(x.as_slice())
}

fn list_context_exec(d: &Doc, l: usize) -> (r: Option<InstructionContext>)
    requires
        doc_wf(d),
        l < d.tree@.len(),
    ensures
        r == list_context(d.chars@, d.tree@, l as int),
{
    let _n = d.tree.len();
    let h = match next_child_exec(d, l, l + 1) {
        Some(h) => h,
        None => return None,
    };
    if d.tree[h].kind != NodeKind::Keyword {
        return None;
    }
    if block_word_exec(d, h) {
        Some(InstructionContext::Block)
    } else if word_is(d, h, "func") && is_field_exec(d, l) {
        Some(InstructionContext::Function)
    } else if word_is(d, h, "type") {
        Some(InstructionContext::Type)
    } else if word_is(d, h, "tag") && is_field_exec(d, l) {
        Some(InstructionContext::Tag)
    } else if word_is(d, h, "data") && is_field_exec(d, l) {
        Some(InstructionContext::Data)
    } else if word_is(d, h, "elem") && is_field_exec(d, l) {
        Some(InstructionContext::Elem)
    } else if !structural_word_exec(d, h) {
        let x = parser::node_chars(d, l);
        if x.len() > 0 {
            let y = text::sub_chars(x.as_slice(), 1, x.len());
            instr_text_context_exec(y.as_slice())
        } else {
            instr_text_context_exec(x.as_slice())
        }
    } else {
        None
    }
}

fn enclosing_context_exec(d: &Doc, l: usize) -> (r: InstructionContext)
    requires
        doc_wf(d),
        l < d.tree@.len(),
    ensures
        r == enclosing_context(d.chars@, d.tree@, l as int),
{
    let mut c = l;
    while c > 0
        invariant
            doc_wf(d),
            c < d.tree@.len(),
            enclosing_context(d.chars@, d.tree@, l as int) == enclosing_context(d.chars@, d.tree@, c as int),
        decreases c,
    {
        proof {
            parser::lemma_node_wf(d, c as int);
        }
        if d.tree[c].kind == NodeKind::List {
            if let Some(x) = list_context_exec(d, c) {
                return x;
            }
        }
        let p = d.tree[c].parent;
        if p < c {
            c = p;
        } else {
            return InstructionContext::General;
        }
    }
    InstructionContext::General
}

fn walk_context_exec(d: &Doc, k: usize) -> (r: InstructionContext)
    requires
        doc_wf(d),
        k < d.tree@.len(),
    ensures
        r == walk_context(d.chars@, d.tree@, k as int),
{
    proof {
        parser::lemma_node_wf(d, k as int);
    }
    let n = d.tree[k];
    if k > 0 && (n.kind == NodeKind::Identifier || n.kind == NodeKind::Number) {
        if let Some(c) = catch_context_exec(d, k) {
            return c;
        }
    }
    if k > 0 && n.kind != NodeKind::List {
        if let Some(c) = flat_context_exec(d, k) {
            return c;
        }
    }
    if n.kind == NodeKind::List {
        enclosing_context_exec(d, k)
    } else {
        enclosing_context_exec(d, n.parent)
    }
}

fn symbol_context_exec(d: &Doc, b: usize, lc: InstructionContext) -> (r: InstructionContext)
    requires
        doc_wf(d),
    ensures
        r == symbol_context(d.chars@, d.tree@, b as int, lc),
{
    match cursor_node_exec(d, b) {
        Some(k) => {
            let ast = walk_context_exec(d, k);
            if ast == InstructionContext::General || (ast == InstructionContext::Block && lc
                == InstructionContext::Tag) {
                lc
            } else {
                ast
            }
        },
        None => lc,
    }
}

fn index_context_exec(d: &Doc, b: usize, lc: InstructionContext) -> (r: InstructionContext)
    requires
        doc_wf(d),
    ensures
        r == index_context(d.chars@, d.tree@, b as int, lc),
{
    match cursor_node_exec(d, b) {
        Some(k) => {
            let ast = walk_context_exec(d, k);
            if ast == InstructionContext::General {
                lc
            } else {
                ast
            }
        },
        None => lc,
    }
}

pub(crate) fn inside_comment_exec(d: &Doc, b: usize) -> (r: bool)
    requires
        doc_wf(d),
    ensures
        r == inside_comment(d.chars@, d.tree@, b as int),
{
    let n = d.tree.len();
    let mut i: usize = 0;
    while i < n
        invariant
            doc_wf(d),
            n == d.tree@.len(),
            i <= n,
            forall|k: int|
                0 <= k < i ==> !(syntax::is_comment(#[trigger] d.tree@[k].kind) && byte_at(
                    d.chars@,
                    d.tree@[k].start as int,
                ) <= b < byte_at(d.chars@, d.tree@[k].end as int)),
        decreases n - i,
    {
        proof {
            parser::lemma_node_wf(d, i as int);
        }
        let x = d.tree[i];
        if is_comment_exec(x.kind) && d.pos[x.start].byte <= b && b < d.pos[x.end].byte {
            assert(syntax::is_comment(d.tree@[i as int].kind));
            return true;
        }
        i = i + 1;
    }
    false
}

} // verus!

verus! {

/// A hovered `$name` that the hover would preview as a data segment can be
/// cut where the preview ends.
pub open spec fn hover_ok(s: Seq<char>, st: SymbolTable, docs: Seq<(String, String)>, pos: Position) -> bool {
    let t = syntax::tree_of(s);
    let b = utils::position_to_byte_spec(s, pos);
    let lc = line_context(line_at(s, pos.line as int));
    match word_at(s, pos) {
        Some(w) => (text::starts_with(w, "$"@) && !inside_comment(s, t, b) && annotation_at(s, t, b) is None
            && doc_lookup(docs, w) is None
            && (symbol_context(s, t, b, lc)
            == InstructionContext::Data || symbol_context(s, t, b, lc) == InstructionContext::General))
            ==> data_preview_ok(st, w),
        None => true,
    }
}

fn annotation_exec(d: &Doc, b: usize) -> (r: Option<Vec<char>>)
    requires
        doc_wf(d),
    ensures
        match annotation_at(d.chars@, d.tree@, b as int) {
            Some(a) => r is Some && r->0@ == a,
            None => r is None,
        },
{
    match cursor_node_exec(d, b) {
        Some(k) => {
            let x = parser::node_chars(d, k);
            if d.tree[k].kind == NodeKind::Keyword && x.len() > 0 && x[0] == '@' {
                Some(text::sub_chars(x.as_slice(), 1, x.len()))
            } else {
                None
            }
        },
        None => None,
    }
}

fn annotation_hover(a: &Vec<char>) -> (r: String)
    ensures
        r@ == annotation_text(a@),
{
    let name = text::string_from_chars(a.as_slice());
    let mut s = String::new();
    text::push_str(&mut s, "(@");
    text::push_str(&mut s, name.as_str());
    text::push_str(&mut s, " ...)");
    let mut r = code_exec(s);
    let x = a.as_slice();
    if text::chars_eq_str(x, "name") || text::chars_eq_str(x, "custom") || text::chars_eq_str(x, "producers")
        || text::chars_eq_str(x, "metadata.code.branch_hint") {
        text::push_str(&mut r, "\nstandard annotation");
    } else {
        text::push_str(&mut r, "\ncustom annotation");
    }
    r
}

fn var_hover_exec(st: &SymbolTable, pos: Position, w: &str) -> (r: Option<String>)
    ensures
        match var_hover_text(*st, pos, w@) {
            Some(x) => r is Some && r->0@ == x,
            None => r is None,
        },
{
    match utils::find_containing_function(st, pos) {
        Some(f) => {
            if let Some(p) = crate::symbol_lookup::find_param_in_function(w, f) {
                Some(var_hover("param", w, p.param_type))
            } else if let Some(l) = crate::symbol_lookup::find_local_in_function(w, f) {
                Some(var_hover("local", w, l.var_type))
            } else {
                None
            }
        },
        None => None,
    }
}

fn label_hover_exec(st: &SymbolTable, pos: Position, w: &str) -> (r: Option<String>)
    ensures
        match label_hover_text(*st, pos, w@) {
            Some(x) => r is Some && r->0@ == x,
            None => r is None,
        },
{
    match utils::find_containing_function(st, pos) {
        Some(f) => match crate::symbol_lookup::find_block_in_function(w, f) {
            Some(b) => Some(block_hover(b)),
            None => None,
        },
        None => None,
    }
}

fn symbol_hover_exec(w: &str, st: &SymbolTable, ctx: InstructionContext, doc: &str, pos: Position) -> (r: Option<String>)
    requires
        (ctx == InstructionContext::Data || ctx == InstructionContext::General) ==> data_preview_ok(*st, w@),
    ensures
        match symbol_hover(w@, *st, ctx, doc@, pos) {
            Some(x) => r is Some && r->0@ == x,
            None => r is None,
        },
{
    proof {
        symbols::lemma_last_named_in_bounds(st.functions@, w@);
        symbols::lemma_last_named_in_bounds(st.data_segments@, w@);
    }
    if ctx == InstructionContext::Call || ctx == InstructionContext::Function {
        if let Some(f) = st.get_function_by_name(w) {
            return Some(function_hover(f));
        }
    }
    if ctx == InstructionContext::Global {
        if let Some(g) = st.get_global_by_name(w) {
            return Some(global_hover(w, g));
        }
    }
    if ctx == InstructionContext::Local || ctx == InstructionContext::Function {
        if let Some(h) = var_hover_exec(st, pos, w) {
            return Some(h);
        }
    }
    if ctx == InstructionContext::Branch || ctx == InstructionContext::Block {
        if let Some(h) = label_hover_exec(st, pos, w) {
            return Some(h);
        }
    }
    if ctx == InstructionContext::Table || ctx == InstructionContext::Call {
        if let Some(t) = st.get_table_by_name(w) {
            return Some(table_hover(w, t));
        }
    }
    if ctx == InstructionContext::Memory || ctx == InstructionContext::General {
        if let Some(m) = st.get_memory_by_name(w) {
            return Some(memory_hover(w, m));
        }
    }
    if ctx == InstructionContext::Type {
        if let Some(td) = st.get_type_by_name(w) {
            return Some(code_exec(format_type_signature(w, td)));
        }
        if let Some(h) = provide_struct_field_hover(w, st, doc, pos) {
            return Some(h.contents);
        }
    }
    if ctx == InstructionContext::Tag {
        if let Some(t) = st.get_tag_by_name(w) {
            return Some(tag_hover(w, t));
        }
    }
    if ctx == InstructionContext::Data {
        if let Some(d) = st.get_data_by_name(w) {
            return Some(data_hover(w, d));
        }
    }
    if ctx == InstructionContext::Elem {
        if let Some(e) = st.get_elem_by_name(w) {
            return Some(elem_hover(w, e));
        }
    }
    if ctx == InstructionContext::General {
        return match try_all_symbol_types(w, st, doc, pos) {
            Some(h) => Some(h.contents),
            None => None,
        };
    }
    None
}

fn push_name_or_index(s: &mut String, n: &Option<String>, i: u64)
    ensures
        final(s)@ == old(s)@ + name_or(*n, text::decimal(i as nat)),
{
    match n {
        Some(x) => text::push_str(s, x.as_str()),
        None => text::push_decimal(s, i),
    }
}

fn index_hover_exec(i: usize, st: &SymbolTable, ctx: InstructionContext, pos: Position) -> (r: Option<String>)
    ensures
        match index_hover(i, *st, ctx, pos) {
            Some(x) => r is Some && r->0@ == x,
            None => r is None,
        },
{
    if ctx == InstructionContext::Call {
        return match st.get_function_by_index(i) {
            Some(f) => Some(function_hover(f)),
            None => None,
        };
    }
    if ctx == InstructionContext::Global {
        return match st.get_global_by_index(i) {
            Some(g) => {
                let mut s = String::new();
                text::push_str(&mut s, "(global ");
                match &g.name {
                    Some(n) => text::push_str(&mut s, n.as_str()),
                    None => {},
                }
                if g.is_mutable {
                    text::push_str(&mut s, " mut");
                }
                text::push_str(&mut s, " ");
                text::push_str(&mut s, g.var_type.to_str().as_str());
                text::push_str(&mut s, ")");
                let r = code_exec(s);
                proof {
                    let gv = st.globals@[i as int];
                    assert(r@ =~= code(
                        "(global "@ + name_or(gv.name, Seq::empty()) + (if gv.is_mutable {
                            " mut"@
                        } else {
                            Seq::empty()
                        }) + " "@ + value_type_name(gv.var_type) + ")"@,
                    ));
                }
                Some(r)
            },
            None => None,
        };
    }
    if ctx == InstructionContext::Local {
        return match utils::find_containing_function(st, pos) {
            Some(f) => {
                let np = f.parameters.len();
                if i < np {
                    let p = &f.parameters[i];
                    let mut s = String::new();
                    text::push_str(&mut s, "(param ");
                    push_name_or_index(&mut s, &p.name, i as u64);
                    text::push_str(&mut s, " ");
                    text::push_str(&mut s, p.param_type.to_str().as_str());
                    text::push_str(&mut s, ")");
                    Some(code_exec(s))
                } else if i - np < f.locals.len() {
                    let j = i - np;
                    let l = &f.locals[j];
                    let mut s = String::new();
                    text::push_str(&mut s, "(local ");
                    push_name_or_index(&mut s, &l.name, j as u64);
                    text::push_str(&mut s, " ");
                    text::push_str(&mut s, l.var_type.to_str().as_str());
                    text::push_str(&mut s, ")");
                    Some(code_exec(s))
                } else {
                    None
                }
            },
            None => None,
        };
    }
    None
}

fn data_preview_ok_exec(st: &SymbolTable, w: &str) -> (b: bool)
    ensures
        b == data_preview_ok(*st, w@),
{
    proof {
        symbols::lemma_last_named_in_bounds(st.data_segments@, w@);
    }
    match st.get_data_by_name(w) {
        Some(d) => {
            let c = text::chars_of(d.content.as_str());
            text::str_byte_len(d.content.as_str()) <= 32 || text::is_char_boundary_exec(c.as_slice(), 32)
        },
        None => true,
    }
}

/// Whether `provide_hover_core` can serve this position (`hover_ok`): a
/// data segment that the hover would preview can be cut where the preview
/// ends.
pub fn hover_applies(document: &str, symbols: &SymbolTable, docs: &Vec<(String, String)>, position: Position) -> (b: bool)
    requires
        text::byte_len(document@) < usize::MAX,
    ensures
        b == hover_ok(document@, *symbols, docs@, position),
{
    proof {
        text::lemma_byte_len_bound(document@);
    }
    let word = match utils::get_word_at_position(document, position) {
        Some(w) => w,
        None => return true,
    };
    let wc = text::chars_of(word.as_str());
    if !text::starts_with_str(wc.as_slice(), "$") {
        return true;
    }
    if get_instruction_doc(word.as_str(), docs).is_some() {
        return true;
    }
    let d = parser::read_doc(document);
    let b = utils::position_to_byte(document, position);
    if inside_comment_exec(&d, b) || annotation_exec(&d, b).is_some() {
        return true;
    }
    let lc = match utils::get_line_at_position(document, position.line as usize) {
        Some(l) => utils::determine_context_from_line(l),
        None => InstructionContext::General,
    };
    let ctx = symbol_context_exec(&d, b, lc);
    if ctx == InstructionContext::Data || ctx == InstructionContext::General {
        data_preview_ok_exec(symbols, word.as_str())
    } else {
        true
    }
}

/// The hover at a position (see `hover`): nothing inside a comment; on an
/// annotation, what it is; for an instruction word, its entry in the
/// instruction reference `docs`; for a `$name`, the symbol it names in the
/// context around it; for a decimal index, the function, global, parameter or
/// local it numbers.
pub fn provide_hover_core(document: &str, symbols: &SymbolTable, docs: &Vec<(String, String)>, position: Position) -> (r: Option<HoverResult>)
    requires
        text::byte_len(document@) < usize::MAX,
        hover_ok(document@, *symbols, docs@, position),
    ensures
        match hover(document@, *symbols, docs@, position) {
            Some(x) => r is Some && r->0.contents@ == x && r->0.range is None,
            None => r is None,
        },
{
    proof {
        text::lemma_byte_len_bound(document@);
    }
    let d = parser::read_doc(document);
    let b = utils::position_to_byte(document, position);
    if inside_comment_exec(&d, b) {
        return None;
    }
    let word = match utils::get_word_at_position(document, position) {
        Some(w) => w,
        None => return None,
    };
    let lc = match utils::get_line_at_position(document, position.line as usize) {
        Some(l) => utils::determine_context_from_line(l),
        None => InstructionContext::General,
    };
    match annotation_exec(&d, b) {
        Some(a) => return Some(HoverResult::new(annotation_hover(&a))),
        None => {},
    }
    match get_instruction_doc(word.as_str(), docs) {
        Some(text) => return Some(HoverResult::new(text)),
        None => {},
    }
    let wc = text::chars_of(word.as_str());
    if text::starts_with_str(wc.as_slice(), "$") {
        let ctx = symbol_context_exec(&d, b, lc);
        return match symbol_hover_exec(word.as_str(), symbols, ctx, document, position) {
            Some(h) => Some(HoverResult::new(h)),
            None => None,
        };
    }
    if !all_digits_exec(&wc) {
        return None;
    }
    match parser::parse_number(wc.as_slice(), 10, usize::MAX as u64) {
        Some(v) => {
            let ctx = index_context_exec(&d, b, lc);
            match index_hover_exec(v as usize, symbols, ctx, position) {
                Some(h) => Some(HoverResult::new(h)),
                None => None,
            }
        },
        None => None,
    }
}

} // verus!

verus! {

/// Nothing inside a comment has a hover, whatever it looks like.
pub proof fn law_no_hover_inside_comments(s: Seq<char>, st: SymbolTable, docs: Seq<(String, String)>, pos: Position)
    requires
        inside_comment(s, syntax::tree_of(s), utils::position_to_byte_spec(s, pos)),
    ensures
        hover(s, st, docs, pos) is None,
{
}

/// Outside a comment, a word that is no annotation and has an entry in the
/// instruction reference gets that entry's text as its hover.
pub proof fn law_instruction_hover(s: Seq<char>, st: SymbolTable, docs: Seq<(String, String)>, pos: Position, w: Seq<char>)
    requires
        !inside_comment(s, syntax::tree_of(s), utils::position_to_byte_spec(s, pos)),
        word_at(s, pos) == Some(w),
        annotation_at(s, syntax::tree_of(s), utils::position_to_byte_spec(s, pos)) is None,
        doc_lookup(docs, w) is Some,
    ensures
        hover(s, st, docs, pos) == doc_lookup(docs, w),
{
}


/// A `$name` hovered where an entity of one kind is expected (after `call`,
/// `global.get`, `table.get`, `memory.size`, in a type use, after `throw`,
/// `memory.init`, `elem.drop`, ...) shows the hover of the last entity of
/// that kind with that name.
pub proof fn law_symbol_hover_by_kind(w: Seq<char>, st: SymbolTable, doc: Seq<char>, pos: Position, i: int)
    ensures
        0 <= i < st.functions@.len() && st.functions@[i].spec_name() == Some(w) && (forall|j: int|
            i < j < st.functions@.len() ==> (#[trigger] st.functions@[j]).spec_name() != Some(w)) ==> symbol_hover(
            w,
            st,
            InstructionContext::Call,
            doc,
            pos,
        ) == Some(function_hover_text(st.functions@[i])),
        0 <= i < st.globals@.len() && st.globals@[i].spec_name() == Some(w) && (forall|j: int|
            i < j < st.globals@.len() ==> (#[trigger] st.globals@[j]).spec_name() != Some(w)) ==> symbol_hover(
            w,
            st,
            InstructionContext::Global,
            doc,
            pos,
        ) == Some(global_text(w, st.globals@[i])),
        0 <= i < st.tables@.len() && st.tables@[i].spec_name() == Some(w) && (forall|j: int|
            i < j < st.tables@.len() ==> (#[trigger] st.tables@[j]).spec_name() != Some(w)) ==> symbol_hover(
            w,
            st,
            InstructionContext::Table,
            doc,
            pos,
        ) == Some(table_text(w, st.tables@[i])),
        0 <= i < st.memories@.len() && st.memories@[i].spec_name() == Some(w) && (forall|j: int|
            i < j < st.memories@.len() ==> (#[trigger] st.memories@[j]).spec_name() != Some(w)) ==> symbol_hover(
            w,
            st,
            InstructionContext::Memory,
            doc,
            pos,
        ) == Some(memory_text(w, st.memories@[i])),
        0 <= i < st.types@.len() && st.types@[i].spec_name() == Some(w) && (forall|j: int|
            i < j < st.types@.len() ==> (#[trigger] st.types@[j]).spec_name() != Some(w)) ==> symbol_hover(
            w,
            st,
            InstructionContext::Type,
            doc,
            pos,
        ) == Some(code(type_signature(w, st.types@[i]))),
        0 <= i < st.tags@.len() && st.tags@[i].spec_name() == Some(w) && (forall|j: int|
            i < j < st.tags@.len() ==> (#[trigger] st.tags@[j]).spec_name() != Some(w)) ==> symbol_hover(
            w,
            st,
            InstructionContext::Tag,
            doc,
            pos,
        ) == Some(tag_text(w, st.tags@[i])),
        0 <= i < st.data_segments@.len() && st.data_segments@[i].spec_name() == Some(w) && (forall|j: int|
            i < j < st.data_segments@.len() ==> (#[trigger] st.data_segments@[j]).spec_name() != Some(w)) ==> symbol_hover(
            w,
            st,
            InstructionContext::Data,
            doc,
            pos,
        ) == Some(data_text(w, st.data_segments@[i])),
        0 <= i < st.elem_segments@.len() && st.elem_segments@[i].spec_name() == Some(w) && (forall|j: int|
            i < j < st.elem_segments@.len() ==> (#[trigger] st.elem_segments@[j]).spec_name() != Some(w)) ==> symbol_hover(
            w,
            st,
            InstructionContext::Elem,
            doc,
            pos,
        ) == Some(elem_text(w, st.elem_segments@[i])),
{
    if 0 <= i < st.functions@.len() && st.functions@[i].spec_name() == Some(w) && (forall|j: int|
        i < j < st.functions@.len() ==> (#[trigger] st.functions@[j]).spec_name() != Some(w)) {
        crate::definition::lemma_last_named_at(st.functions@, w, i);
    }
    if 0 <= i < st.globals@.len() && st.globals@[i].spec_name() == Some(w) && (forall|j: int|
        i < j < st.globals@.len() ==> (#[trigger] st.globals@[j]).spec_name() != Some(w)) {
        crate::definition::lemma_last_named_at(st.globals@, w, i);
    }
    if 0 <= i < st.tables@.len() && st.tables@[i].spec_name() == Some(w) && (forall|j: int|
        i < j < st.tables@.len() ==> (#[trigger] st.tables@[j]).spec_name() != Some(w)) {
        crate::definition::lemma_last_named_at(st.tables@, w, i);
    }
    if 0 <= i < st.memories@.len() && st.memories@[i].spec_name() == Some(w) && (forall|j: int|
        i < j < st.memories@.len() ==> (#[trigger] st.memories@[j]).spec_name() != Some(w)) {
        crate::definition::lemma_last_named_at(st.memories@, w, i);
    }
    if 0 <= i < st.types@.len() && st.types@[i].spec_name() == Some(w) && (forall|j: int|
        i < j < st.types@.len() ==> (#[trigger] st.types@[j]).spec_name() != Some(w)) {
        crate::definition::lemma_last_named_at(st.types@, w, i);
    }
    if 0 <= i < st.tags@.len() && st.tags@[i].spec_name() == Some(w) && (forall|j: int|
        i < j < st.tags@.len() ==> (#[trigger] st.tags@[j]).spec_name() != Some(w)) {
        crate::definition::lemma_last_named_at(st.tags@, w, i);
    }
    if 0 <= i < st.data_segments@.len() && st.data_segments@[i].spec_name() == Some(w) && (forall|j: int|
        i < j < st.data_segments@.len() ==> (#[trigger] st.data_segments@[j]).spec_name() != Some(w)) {
        crate::definition::lemma_last_named_at(st.data_segments@, w, i);
    }
    if 0 <= i < st.elem_segments@.len() && st.elem_segments@[i].spec_name() == Some(w) && (forall|j: int|
        i < j < st.elem_segments@.len() ==> (#[trigger] st.elem_segments@[j]).spec_name() != Some(w)) {
        crate::definition::lemma_last_named_at(st.elem_segments@, w, i);
    }
}

} // verus!
