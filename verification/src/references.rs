//! Find references: the symbol under the cursor, and every place in the
//! document that refers to it, by name or by index.
use vstd::prelude::*;
use crate::parser;
use crate::parser::{doc_wf, range_of, Doc};
use crate::semantic_tokens::{ref_context, RefContext};
use crate::symbols;
use crate::symbols::{first_named, last_named, Function, Named, SymbolTable};
use crate::syntax;
use crate::syntax::{byte_at, NodeKind, SyntaxNode};
use crate::text;
use crate::types::{Position, Range};
use crate::utils;
use crate::utils::{containing_function_index, context_from_line, line_at, word_at, InstructionContext};

verus! {

/// Represents the type of symbol being referenced
#[derive(Debug, Clone)]
pub enum ReferenceTarget {
    Function { name: Option<String>, index: usize },
    Global { name: Option<String>, index: usize },
    Local { name: Option<String>, index: usize, function_start_byte: usize },
    Parameter { name: Option<String>, index: usize, function_start_byte: usize },
    BlockLabel { label: String, function_start_byte: usize, line: u32 },
    Table { name: Option<String>, index: usize },
    Memory { name: Option<String>, index: usize },
    Type { name: Option<String>, index: usize },
    Tag { name: Option<String>, index: usize },
    Data { name: Option<String>, index: usize },
    Elem { name: Option<String>, index: usize },
}

/// The entity kinds that a reference target can be.
#[derive(Debug, Clone, Copy, PartialEq, Eq, Structural)]
pub enum TargetKind {
    Function,
    Global,
    Local,
    Parameter,
    BlockLabel,
    Table,
    Memory,
    Type,
    Tag,
    Data,
    Elem,
}

/// The mathematical content of a `ReferenceTarget`: its kind, its name (the
/// label of a block), its index, and for function-scoped targets the start
/// byte of their function and the line of a block.
pub struct TargetModel {
    pub kind: TargetKind,
    pub name: Option<Seq<char>>,
    pub index: usize,
    pub function_start_byte: usize,
    pub line: u32,
}

pub open spec fn target(kind: TargetKind, name: Option<Seq<char>>, index: usize) -> TargetModel {
    TargetModel { kind, name, index, function_start_byte: 0, line: 0 }
}

pub open spec fn scoped_target(kind: TargetKind, name: Option<Seq<char>>, index: usize, fsb: usize) -> TargetModel {
    TargetModel { kind, name, index, function_start_byte: fsb, line: 0 }
}

impl DeepView for ReferenceTarget {
    type V = TargetModel;

    open spec fn deep_view(&self) -> TargetModel {
        match self {
            ReferenceTarget::Function { name, index } => target(TargetKind::Function, text::opt_view(*name), *index),
            ReferenceTarget::Global { name, index } => target(TargetKind::Global, text::opt_view(*name), *index),
            ReferenceTarget::Local { name, index, function_start_byte } => scoped_target(
                TargetKind::Local,
                text::opt_view(*name),
                *index,
                *function_start_byte,
            ),
            ReferenceTarget::Parameter { name, index, function_start_byte } => scoped_target(
                TargetKind::Parameter,
                text::opt_view(*name),
                *index,
                *function_start_byte,
            ),
            ReferenceTarget::BlockLabel { label, function_start_byte, line } => TargetModel {
                kind: TargetKind::BlockLabel,
                name: Some(label@),
                index: 0,
                function_start_byte: *function_start_byte,
                line: *line,
            },
            ReferenceTarget::Table { name, index } => target(TargetKind::Table, text::opt_view(*name), *index),
            ReferenceTarget::Memory { name, index } => target(TargetKind::Memory, text::opt_view(*name), *index),
            ReferenceTarget::Type { name, index } => target(TargetKind::Type, text::opt_view(*name), *index),
            ReferenceTarget::Tag { name, index } => target(TargetKind::Tag, text::opt_view(*name), *index),
            ReferenceTarget::Data { name, index } => target(TargetKind::Data, text::opt_view(*name), *index),
            ReferenceTarget::Elem { name, index } => target(TargetKind::Elem, text::opt_view(*name), *index),
        }
    }
}

impl ReferenceTarget {
    /// Returns true if this symbol has a name (i.e. can be renamed).
    /// Block labels are always considered named.
    pub fn has_name(&self) -> (b: bool)
        ensures
            b == (self.deep_view().name is Some),
    {
        match self {
            ReferenceTarget::Function { name, .. } => name.is_some(),
            ReferenceTarget::Global { name, .. } => name.is_some(),
            ReferenceTarget::Local { name, .. } => name.is_some(),
            ReferenceTarget::Parameter { name, .. } => name.is_some(),
            ReferenceTarget::Table { name, .. } => name.is_some(),
            ReferenceTarget::Memory { name, .. } => name.is_some(),
            ReferenceTarget::Type { name, .. } => name.is_some(),
            ReferenceTarget::Tag { name, .. } => name.is_some(),
            ReferenceTarget::Data { name, .. } => name.is_some(),
            ReferenceTarget::Elem { name, .. } => name.is_some(),
            ReferenceTarget::BlockLabel { .. } => true,
        }
    }
}

} // verus!

verus! {

/// The first function, at or after position `i`, whose lines include `line`.
pub open spec fn function_covering(fs: Seq<Function>, line: u32, i: int) -> Option<int>
    decreases fs.len() - i,
{
    if i < 0 || i >= fs.len() {
        None
    } else if fs[i].line <= line && line <= fs[i].end_line {
        Some(i)
    } else {
        function_covering(fs, line, i + 1)
    }
}

/// The first function whose lines include `line` starts at byte `fsb`.
pub open spec fn in_same_function(st: SymbolTable, line: u32, fsb: usize) -> bool {
    match function_covering(st.functions@, line, 0) {
        Some(i) => st.functions@[i].start_byte == fsb,
        None => false,
    }
}

/// The reference contexts in which uses are searched for.
pub open spec fn searched(ctx: RefContext) -> bool {
    ctx == RefContext::Function || ctx == RefContext::Global || ctx == RefContext::Local || ctx
        == RefContext::Label || ctx == RefContext::Table || ctx == RefContext::Memory || ctx
        == RefContext::Type || ctx == RefContext::Tag
}

/// A use in context `ctx` can refer to an entity of kind `k`.
pub open spec fn context_fits(k: TargetKind, ctx: RefContext) -> bool {
    match k {
        TargetKind::Function => ctx == RefContext::Function,
        TargetKind::Global => ctx == RefContext::Global,
        TargetKind::Local | TargetKind::Parameter => ctx == RefContext::Local,
        TargetKind::BlockLabel => ctx == RefContext::Label,
        TargetKind::Table => ctx == RefContext::Table,
        TargetKind::Memory => ctx == RefContext::Memory,
        TargetKind::Type => ctx == RefContext::Type,
        TargetKind::Tag => ctx == RefContext::Tag,
        TargetKind::Data => ctx == RefContext::Data,
        TargetKind::Elem => ctx == RefContext::Elem,
    }
}

/// Kinds whose names and indices are local to a function.
pub open spec fn function_scoped(k: TargetKind) -> bool {
    k == TargetKind::Local || k == TargetKind::Parameter || k == TargetKind::BlockLabel
}

/// An enclosing labelled block, as a branch index resolves it.
pub struct BlockModel {
    pub label: Option<Seq<char>>,
    pub line: u32,
}

/// The block that branch depth `d` names: 0 is the innermost.
pub open spec fn resolve_depth(d: usize, stack: Seq<BlockModel>) -> Option<BlockModel> {
    if d < stack.len() {
        Some(stack[stack.len() - 1 - d])
    } else {
        None
    }
}

/// The identifier `w`, used on `line` in context `ctx`, names the target.
pub open spec fn matches_name(tm: TargetModel, ctx: RefContext, w: Seq<char>, line: u32, st: SymbolTable) -> bool {
    &&& searched(ctx)
    &&& context_fits(tm.kind, ctx)
    &&& tm.name == Some(w)
    &&& function_scoped(tm.kind) ==> in_same_function(st, line, tm.function_start_byte)
}

/// The index `v`, used on `line` in context `ctx` inside the blocks
/// `stack`, names the target.
pub open spec fn matches_index(
    tm: TargetModel,
    ctx: RefContext,
    v: usize,
    line: u32,
    st: SymbolTable,
    stack: Seq<BlockModel>,
) -> bool {
    &&& searched(ctx)
    &&& context_fits(tm.kind, ctx)
    &&& if tm.kind == TargetKind::BlockLabel {
        match resolve_depth(v, stack) {
            Some(b) => match b.label {
                Some(l) => Some(l) == tm.name && in_same_function(st, line, tm.function_start_byte),
                None => b.line == tm.line && in_same_function(st, line, tm.function_start_byte),
            },
            None => false,
        }
    } else if function_scoped(tm.kind) {
        v == tm.index && in_same_function(st, line, tm.function_start_byte)
    } else {
        v == tm.index
    }
}

/// The next child of `p` at or after node `i` (comments left out).
pub open spec fn next_child(t: Seq<SyntaxNode>, p: int, i: int) -> Option<int>
    decreases t.len() - i,
{
    if i < 0 || i >= t.len() || p < 0 || p >= t.len() || i >= t[p].last {
        None
    } else if t[i].parent == p && !syntax::is_comment(t[i].kind) {
        Some(i)
    } else {
        next_child(t, p, i + 1)
    }
}

/// The `end` that closes a flat block of `p`, scanning the children from
/// node `i` with `depth` inner blocks open.
pub open spec fn flat_end(s: Seq<char>, t: Seq<SyntaxNode>, p: int, i: int, depth: nat) -> Option<int>
    decreases t.len() - i,
{
    if i < 0 || i >= t.len() || p < 0 || p >= t.len() || i >= t[p].last {
        None
    } else if t[i].parent == p && t[i].kind == NodeKind::Keyword && parser::block_word(
        syntax::text_of(s, t[i]),
    ) {
        flat_end(s, t, p, i + 1, depth + 1)
    } else if t[i].parent == p && t[i].kind == NodeKind::Keyword && syntax::text_of(s, t[i]) == "end"@ {
        if depth == 0 {
            Some(i)
        } else {
            flat_end(s, t, p, i + 1, (depth - 1) as nat)
        }
    } else {
        flat_end(s, t, p, i + 1, depth)
    }
}

/// Node `k` opens a labelled block: a `block`, `loop`, `if`, `try` or
/// `try_table` keyword.
pub open spec fn is_opener(s: Seq<char>, t: Seq<SyntaxNode>, k: int) -> bool {
    &&& 0 < k < t.len()
    &&& t[k].kind == NodeKind::Keyword
    &&& parser::block_word(syntax::text_of(s, t[k]))
}

/// The first child of list `k` (comments left out).
pub open spec fn head_node(t: Seq<SyntaxNode>, k: int) -> Option<int> {
    next_child(t, k, k + 1)
}

/// The opener heads its list: `(block ...)`.
pub open spec fn is_folded(t: Seq<SyntaxNode>, k: int) -> bool {
    head_node(t, t[k].parent as int) == Some(k)
}

/// Where a block starts: its list, or its keyword.
pub open spec fn block_start(t: Seq<SyntaxNode>, k: int) -> int {
    if is_folded(t, k) {
        t[t[k].parent as int].start as int
    } else {
        t[k].start as int
    }
}

/// Where a block ends: its list's end, or the end of its `end` keyword
/// (the end of the enclosing list when it has none).
pub open spec fn block_end(s: Seq<char>, t: Seq<SyntaxNode>, k: int) -> int {
    let p = t[k].parent as int;
    if is_folded(t, k) {
        t[p].end as int
    } else {
        match flat_end(s, t, p, k + 1, 0) {
            Some(e) => t[e].end as int,
            None => t[p].end as int,
        }
    }
}

/// The label of a block: the identifier after its keyword, else (for a
/// flat block) the identifier after its `end`.
pub open spec fn block_label(s: Seq<char>, t: Seq<SyntaxNode>, k: int) -> Option<Seq<char>> {
    let p = t[k].parent as int;
    match next_child(t, p, k + 1) {
        Some(n) if t[n].kind == NodeKind::Identifier => Some(syntax::text_of(s, t[n])),
        _ => if is_folded(t, k) {
            None
        } else {
            match flat_end(s, t, p, k + 1, 0) {
                Some(e) => match next_child(t, p, e + 1) {
                    Some(n) if t[n].kind == NodeKind::Identifier => Some(syntax::text_of(s, t[n])),
                    _ => None,
                },
                None => None,
            }
        },
    }
}

pub open spec fn block_model(s: Seq<char>, t: Seq<SyntaxNode>, k: int) -> BlockModel {
    BlockModel { label: block_label(s, t, k), line: syntax::row_at(s, block_start(t, k)) as u32 }
}

/// The blocks opened before node `k` whose bytes include offset `b`, outer
/// first.
pub open spec fn blocks_upto(s: Seq<char>, t: Seq<SyntaxNode>, b: int, k: int) -> Seq<BlockModel>
    decreases k,
{
    if k <= 0 {
        Seq::empty()
    } else {
        let r = blocks_upto(s, t, b, k - 1);
        if is_opener(s, t, k - 1) && byte_at(s, block_start(t, k - 1)) <= b && b <= byte_at(
            s,
            block_end(s, t, k - 1),
        ) {
            r.push(block_model(s, t, k - 1))
        } else {
            r
        }
    }
}

/// The labelled blocks around byte offset `b`, outer first.
pub open spec fn block_stack(s: Seq<char>, t: Seq<SyntaxNode>, b: int) -> Seq<BlockModel> {
    blocks_upto(s, t, b, t.len() as int)
}

/// Node `j` is a use of the target.
pub open spec fn is_reference(s: Seq<char>, t: Seq<SyntaxNode>, st: SymbolTable, tm: TargetModel, j: int) -> bool {
    let n = t[j];
    let line = syntax::row_at(s, n.start as int) as u32;
    let w = syntax::text_of(s, n);
    if j > 0 && n.kind == NodeKind::Identifier {
        matches_name(tm, ref_context(s, t, j), w, line, st)
    } else if j > 0 && n.kind == NodeKind::Number {
        match parser::wat_nat_value(w) {
            Some(v) => matches_index(
                tm,
                ref_context(s, t, j),
                v as usize,
                line,
                st,
                block_stack(s, t, byte_at(s, n.start as int) as int),
            ),
            None => false,
        }
    } else {
        false
    }
}

/// The ranges of the uses of the target among the nodes before `j`.
pub open spec fn references_upto(s: Seq<char>, t: Seq<SyntaxNode>, st: SymbolTable, tm: TargetModel, j: int) -> Seq<
    Range,
>
    decreases j,
{
    if j <= 0 {
        Seq::empty()
    } else {
        let r = references_upto(s, t, st, tm, j - 1);
        if is_reference(s, t, st, tm, j - 1) {
            r.push(range_of(s, t[j - 1]))
        } else {
            r
        }
    }
}

} // verus!

verus! {

/// The context that a plain instruction named `w` gives its operands.
pub open spec fn plain_context(w: Seq<char>) -> Option<InstructionContext> {
    if text::starts_with(w, "struct."@) || text::starts_with(w, "array."@) || w == "ref.cast"@ || w
        == "ref.test"@ || w == "call_ref"@ || w == "return_call_ref"@ {
        Some(InstructionContext::Type)
    } else if text::starts_with(w, "br"@) {
        Some(InstructionContext::Branch)
    } else if text::starts_with(w, "call"@) && w != "call_indirect"@ {
        Some(InstructionContext::Call)
    } else if text::starts_with(w, "local."@) {
        Some(InstructionContext::Local)
    } else if text::starts_with(w, "global."@) {
        Some(InstructionContext::Global)
    } else if text::starts_with(w, "table."@) {
        Some(InstructionContext::Table)
    } else if text::starts_with(w, "memory."@) {
        Some(InstructionContext::Memory)
    } else if w == "throw"@ || w == "rethrow"@ {
        Some(InstructionContext::Tag)
    } else {
        None
    }
}

/// The heads of catch clauses.
pub open spec fn catch_word(w: Seq<char>) -> bool {
    w == "catch"@ || w == "catch_ref"@ || w == "catch_all"@ || w == "catch_all_ref"@
}

/// Identifiers and numbers among the children of `p` at nodes `p+1..k`.
pub open spec fn index_kids_before(t: Seq<SyntaxNode>, p: int, k: int) -> nat
    decreases k - p,
{
    if k <= p + 1 {
        0
    } else {
        index_kids_before(t, p, k - 1) + if t[k - 1].parent == p && (t[k - 1].kind == NodeKind::Identifier
            || t[k - 1].kind == NodeKind::Number) {
            1nat
        } else {
            0nat
        }
    }
}

/// Within a catch clause, the first index of a clause that names a tag is
/// that tag, and the others are labels.
pub open spec fn catch_context(s: Seq<char>, t: Seq<SyntaxNode>, k: int) -> Option<InstructionContext> {
    let p = t[k].parent as int;
    if t[p].kind == NodeKind::List && head_node(t, p) is Some && t[head_node(t, p).unwrap()].kind
        == NodeKind::Keyword && catch_word(syntax::text_of(s, t[head_node(t, p).unwrap()])) {
        let text = syntax::text_of(s, t[p]);
        let has_tag = text::contains(text, "catch_ref"@) || (text::contains(text, "catch"@)
            && !text::contains(text, "catch_all"@));
        if has_tag && index_kids_before(t, p, k) == 0 {
            Some(InstructionContext::Tag)
        } else {
            Some(InstructionContext::Branch)
        }
    } else {
        None
    }
}

/// The last node before `i` whose bytes strictly include offset `b`: the
/// innermost one.
pub open spec fn innermost(s: Seq<char>, t: Seq<SyntaxNode>, b: int, i: int) -> Option<int>
    decreases i,
{
    if i <= 0 {
        None
    } else if byte_at(s, t[i - 1].start as int) <= b < byte_at(s, t[i - 1].end as int) {
        Some(i - 1)
    } else {
        innermost(s, t, b, i - 1)
    }
}

/// The first child of `k`, from node `i`, that ends exactly at byte `b`.
pub open spec fn adjacent_child(s: Seq<char>, t: Seq<SyntaxNode>, k: int, b: int, i: int) -> Option<int>
    decreases t.len() - i,
{
    if i < 0 || i >= t.len() || k < 0 || k >= t.len() || i >= t[k].last {
        None
    } else if t[i].parent == k && i != k && byte_at(s, t[i].end as int) == b {
        Some(i)
    } else {
        adjacent_child(s, t, k, b, i + 1)
    }
}

/// The node under the cursor at byte `b`: the innermost node that includes
/// it, or the child of that node that ends right at it.
pub open spec fn cursor_node(s: Seq<char>, t: Seq<SyntaxNode>, b: int) -> Option<int> {
    match innermost(s, t, b, t.len() as int) {
        Some(k) => match adjacent_child(s, t, k, b, k + 1) {
            Some(c) => Some(c),
            None => Some(k),
        },
        None => None,
    }
}

/// The context that the node under the cursor gives: an index in a catch
/// clause, or a list inside its parentheses that is a plain instruction, a
/// type use or a reference type.
pub open spec fn node_context(s: Seq<char>, t: Seq<SyntaxNode>, b: int) -> InstructionContext {
    match cursor_node(s, t, b) {
        Some(k) => if k > 0 && (t[k].kind == NodeKind::Identifier || t[k].kind == NodeKind::Number) {
            match catch_context(s, t, k) {
                Some(c) => c,
                None => InstructionContext::General,
            }
        } else if k > 0 && t[k].kind == NodeKind::List && byte_at(s, t[k].start as int) < b < byte_at(
            s,
            t[k].end as int,
        ) - 1 && head_node(t, k) is Some && t[head_node(t, k).unwrap()].kind == NodeKind::Keyword {
            let w = syntax::text_of(s, t[head_node(t, k).unwrap()]);
            match plain_context(w) {
                Some(c) => c,
                None => if (w == "type"@ && !crate::semantic_tokens::is_field(s, t, k)) || w == "ref"@ {
                    InstructionContext::Type
                } else {
                    InstructionContext::General
                },
            }
        } else {
            InstructionContext::General
        },
        None => InstructionContext::General,
    }
}

/// The context at the cursor: from the syntax under it, else from the
/// keywords of its line.
pub open spec fn cursor_context(s: Seq<char>, t: Seq<SyntaxNode>, b: int, line: Option<Seq<char>>) -> InstructionContext {
    if node_context(s, t, b) != InstructionContext::General {
        node_context(s, t, b)
    } else {
        match line {
            Some(l) => context_from_line(l),
            None => InstructionContext::General,
        }
    }
}

/// The entry that a name resolves to, as a target of `kind`.
pub open spec fn by_name<T: symbols::Named>(items: Seq<T>, w: Seq<char>, kind: TargetKind, idx: spec_fn(T) -> usize) -> Option<TargetModel> {
    match last_named(items, w) {
        Some(i) => Some(target(kind, Some(w), idx(items[i]))),
        None => None,
    }
}

/// A parameter, else a local, named `w` in the function around `pos`.
pub open spec fn scoped_var(w: Seq<char>, st: SymbolTable, pos: Position) -> Option<TargetModel> {
    match containing_function_index(st.functions@, pos.line) {
        Some(fi) => {
            let f = st.functions@[fi];
            match first_named(f.parameters@, w) {
                Some(p) => Some(scoped_target(TargetKind::Parameter, Some(w), f.parameters@[p].index, f.start_byte)),
                None => match first_named(f.locals@, w) {
                    Some(l) => Some(
                        scoped_target(
                            TargetKind::Local,
                            Some(w),
                            (f.locals@[l].index + f.parameters@.len()) as usize,
                            f.start_byte,
                        ),
                    ),
                    None => None,
                },
            }
        },
        None => None,
    }
}

/// A block label `w` in the function around `pos`.
pub open spec fn scoped_block(w: Seq<char>, st: SymbolTable, pos: Position) -> Option<TargetModel> {
    match containing_function_index(st.functions@, pos.line) {
        Some(fi) => {
            let f = st.functions@[fi];
            match first_named(f.blocks@, w) {
                Some(b) => Some(
                    TargetModel {
                        kind: TargetKind::BlockLabel,
                        name: Some(w),
                        index: 0,
                        function_start_byte: f.start_byte,
                        line: f.blocks@[b].line,
                    },
                ),
                None => None,
            }
        },
        None => None,
    }
}

/// The first of two candidates that is present.
pub open spec fn or_else(a: Option<TargetModel>, b: Option<TargetModel>) -> Option<TargetModel> {
    if a is Some {
        a
    } else {
        b
    }
}

/// The entity that the name `w` at `pos` refers to in context `ctx`.
pub open spec fn identify_named(w: Seq<char>, st: SymbolTable, ctx: InstructionContext, pos: Position) -> Option<TargetModel> {
    let f = by_name(st.functions@, w, TargetKind::Function, |x: Function| x.index);
    let g = by_name(st.globals@, w, TargetKind::Global, |x: symbols::Global| x.index);
    let tb = by_name(st.tables@, w, TargetKind::Table, |x: symbols::Table| x.index);
    let m = by_name(st.memories@, w, TargetKind::Memory, |x: symbols::Memory| x.index);
    let ty = by_name(st.types@, w, TargetKind::Type, |x: symbols::TypeDef| x.index);
    let tg = by_name(st.tags@, w, TargetKind::Tag, |x: symbols::Tag| x.index);
    match ctx {
        InstructionContext::Call => f,
        InstructionContext::Global => g,
        InstructionContext::Local => scoped_var(w, st, pos),
        InstructionContext::Branch | InstructionContext::Block => scoped_block(w, st, pos),
        InstructionContext::Function | InstructionContext::General => or_else(
            f,
            or_else(
                scoped_var(w, st, pos),
                or_else(scoped_block(w, st, pos), or_else(g, or_else(tb, or_else(m, or_else(ty, tg))))),
            ),
        ),
        InstructionContext::Table => tb,
        InstructionContext::Memory => m,
        InstructionContext::Type => ty,
        InstructionContext::Tag => tg,
        InstructionContext::Data => by_name(st.data_segments@, w, TargetKind::Data, |x: symbols::DataSegment| x.index),
        InstructionContext::Elem => by_name(st.elem_segments@, w, TargetKind::Elem, |x: symbols::ElemSegment| x.index),
    }
}

/// The entry at index `i`, as a target of `kind` with the entry's name.
pub open spec fn by_index<T: symbols::Named>(items: Seq<T>, i: usize, kind: TargetKind) -> Option<TargetModel> {
    if i < items.len() {
        Some(target(kind, items[i as int].spec_name(), i))
    } else {
        None
    }
}

/// The entity that index `i` at `pos` refers to in context `ctx`, with the
/// labelled blocks `stack` around the cursor.
pub open spec fn identify_indexed(
    i: usize,
    st: SymbolTable,
    ctx: InstructionContext,
    pos: Position,
    stack: Seq<BlockModel>,
) -> Option<TargetModel> {
    let fi = containing_function_index(st.functions@, pos.line);
    match ctx {
        InstructionContext::Call => by_index(st.functions@, i, TargetKind::Function),
        InstructionContext::Global => by_index(st.globals@, i, TargetKind::Global),
        InstructionContext::Local => match fi {
            Some(k) => {
                let f = st.functions@[k];
                if i < f.parameters@.len() {
                    Some(
                        scoped_target(
                            TargetKind::Parameter,
                            text::opt_view(f.parameters@[i as int].name),
                            i,
                            f.start_byte,
                        ),
                    )
                } else if i - f.parameters@.len() < f.locals@.len() {
                    Some(
                        scoped_target(
                            TargetKind::Local,
                            text::opt_view(f.locals@[i - f.parameters@.len()].name),
                            i,
                            f.start_byte,
                        ),
                    )
                } else {
                    None
                }
            },
            None => None,
        },
        InstructionContext::Type => by_index(st.types@, i, TargetKind::Type),
        InstructionContext::Tag => by_index(st.tags@, i, TargetKind::Tag),
        InstructionContext::Branch => match fi {
            Some(k) => match resolve_depth(i, stack) {
                Some(b) => Some(
                    TargetModel {
                        kind: TargetKind::BlockLabel,
                        name: Some(
                            match b.label {
                                Some(l) => l,
                                None => "@"@ + text::decimal(b.line as nat),
                            },
                        ),
                        index: 0,
                        function_start_byte: st.functions@[k].start_byte,
                        line: b.line,
                    },
                ),
                None => None,
            },
            None => None,
        },
        _ => None,
    }
}

/// Every character of `w` is an ASCII digit.
pub open spec fn all_digits(w: Seq<char>) -> bool {
    forall|k: int| 0 <= k < w.len() ==> '0' <= #[trigger] w[k] && w[k] <= '9'
}

/// The symbol under the cursor at `pos`: a `$name` resolved by context, or
/// a decimal index resolved by context (an index in a function context
/// falls back to the context of its line).
pub open spec fn identify(s: Seq<char>, st: SymbolTable, pos: Position) -> Option<TargetModel> {
    match word_at(s, pos) {
        None => None,
        Some(w) => {
            let t = syntax::tree_of(s);
            let b = utils::position_to_byte_spec(s, pos);
            let lt = line_at(s, pos.line as int);
            let ctx = cursor_context(s, t, b, lt);
            if text::starts_with(w, "$"@) {
                identify_named(w, st, ctx, pos)
            } else if all_digits(w) {
                match parser::bounded_value(w, 10, usize::MAX as nat) {
                    Some(i) => {
                        let stack = block_stack(s, t, b);
                        let r = identify_indexed(i as usize, st, ctx, pos, stack);
                        if r is None && ctx == InstructionContext::Function {
                            match lt {
                                Some(l) => identify_indexed(i as usize, st, context_from_line(l), pos, stack),
                                None => None,
                            }
                        } else {
                            r
                        }
                    },
                    None => None,
                }
            } else {
                None
            }
        },
    }
}

} // verus!

verus! {

/// The first function, at or after position `i`, that starts at byte `fsb`.
pub open spec fn function_at_byte(fs: Seq<Function>, fsb: usize, i: int) -> Option<int>
    decreases fs.len() - i,
{
    if i < 0 || i >= fs.len() {
        None
    } else if fs[i].start_byte == fsb {
        Some(i)
    } else {
        function_at_byte(fs, fsb, i + 1)
    }
}

/// Where the target is declared.
pub open spec fn definition_range(tm: TargetModel, st: SymbolTable) -> Option<Range> {
    match tm.kind {
        TargetKind::Function => (if tm.index < st.functions@.len() {
            st.functions@[tm.index as int].range
        } else {
            None
        }),
        TargetKind::Global => (if tm.index < st.globals@.len() {
            st.globals@[tm.index as int].range
        } else {
            None
        }),
        TargetKind::Table => (if tm.index < st.tables@.len() {
            st.tables@[tm.index as int].range
        } else {
            None
        }),
        TargetKind::Memory => (if tm.index < st.memories@.len() {
            st.memories@[tm.index as int].range
        } else {
            None
        }),
        TargetKind::Type => (if tm.index < st.types@.len() {
            st.types@[tm.index as int].range
        } else {
            None
        }),
        TargetKind::Tag => (if tm.index < st.tags@.len() {
            st.tags@[tm.index as int].range
        } else {
            None
        }),
        TargetKind::Data => (if tm.index < st.data_segments@.len() {
            st.data_segments@[tm.index as int].range
        } else {
            None
        }),
        TargetKind::Elem => (if tm.index < st.elem_segments@.len() {
            st.elem_segments@[tm.index as int].range
        } else {
            None
        }),
        TargetKind::Local => match function_at_byte(st.functions@, tm.function_start_byte, 0) {
            Some(k) => {
                let f = st.functions@[k];
                if tm.index < f.parameters@.len() {
                    (if tm.index < f.parameters@.len() {
            f.parameters@[tm.index as int].range
        } else {
            None
        })
                } else {
                    if tm.index - f.parameters@.len() < f.locals@.len() {
                        f.locals@[tm.index - f.parameters@.len()].range
                    } else {
                        None
                    }
                }
            },
            None => None,
        },
        TargetKind::Parameter => match function_at_byte(st.functions@, tm.function_start_byte, 0) {
            Some(k) => (if tm.index < st.functions@[k].parameters@.len() {
            st.functions@[k].parameters@[tm.index as int].range
        } else {
            None
        }),
            None => None,
        },
        TargetKind::BlockLabel => match function_at_byte(st.functions@, tm.function_start_byte, 0) {
            Some(k) => match tm.name {
                Some(l) => match first_named(st.functions@[k].blocks@, l) {
                    Some(b) => st.functions@[k].blocks@[b].range,
                    None => None,
                },
                None => None,
            },
            None => None,
        },
    }
}

/// Position `a` is not after position `b`.
pub open spec fn pos_le(a: Position, b: Position) -> bool {
    a.line < b.line || (a.line == b.line && a.character <= b.character)
}

/// Range `r` lies within `scope`.
pub open spec fn within(r: Range, scope: Range) -> bool {
    pos_le(scope.start, r.start) && pos_le(r.end, scope.end)
}

/// The ranges that lie within `scope`, in order.
pub open spec fn keep_within(rs: Seq<Range>, scope: Range) -> Seq<Range>
    decreases rs.len(),
{
    if rs.len() == 0 {
        rs
    } else if within(rs.last(), scope) {
        keep_within(rs.drop_last(), scope).push(rs.last())
    } else {
        keep_within(rs.drop_last(), scope)
    }
}

/// Range `a` starts before range `b`.
pub open spec fn starts_before(a: Range, b: Range) -> bool {
    a.start.line < b.start.line || (a.start.line == b.start.line && a.start.character < b.start.character)
}

/// Where `x` goes in the sorted `rs`: after every range that does not start
/// after it.
pub open spec fn insert_point(rs: Seq<Range>, x: Range, i: int) -> int
    decreases rs.len() - i,
{
    if i < 0 || i >= rs.len() {
        rs.len() as int
    } else if starts_before(x, rs[i]) {
        i
    } else {
        insert_point(rs, x, i + 1)
    }
}

/// The ranges stably sorted by their start positions.
pub open spec fn sort_by_start(rs: Seq<Range>) -> Seq<Range>
    decreases rs.len(),
{
    if rs.len() == 0 {
        rs
    } else {
        let sorted = sort_by_start(rs.drop_last());
        let k = insert_point(sorted, rs.last(), 0);
        sorted.take(k).push(rs.last()) + sorted.skip(k)
    }
}

/// The ranges without consecutive repeats.
pub open spec fn dedup(rs: Seq<Range>) -> Seq<Range>
    decreases rs.len(),
{
    if rs.len() == 0 {
        rs
    } else {
        let d = dedup(rs.drop_last());
        if d.len() > 0 && d.last() == rs.last() {
            d
        } else {
            d.push(rs.last())
        }
    }
}

/// The references to the symbol under the cursor: its uses (within
/// `scope`, when given), its declaration first when asked for and within
/// scope, sorted by start position without repeats.
pub open spec fn references(
    s: Seq<char>,
    st: SymbolTable,
    pos: Position,
    include_declaration: bool,
    scope: Option<Range>,
) -> Seq<Range> {
    match identify(s, st, pos) {
        None => Seq::empty(),
        Some(tm) => {
            let t = syntax::tree_of(s);
            let uses = references_upto(s, t, st, tm, t.len() as int);
            let kept = match scope {
                Some(sc) => keep_within(uses, sc),
                None => uses,
            };
            let all = if include_declaration {
                match definition_range(tm, st) {
                    Some(d) => if scope is None || within(d, scope.unwrap()) {
                        seq![d] + kept
                    } else {
                        kept
                    },
                    None => kept,
                }
            } else {
                kept
            };
            dedup(sort_by_start(all))
        },
    }
}

} // verus!

verus! {

/// A reference target with its name as characters.
struct TargetInfo {
    kind: TargetKind,
    name: Option<Vec<char>>,
    index: usize,
    function_start_byte: usize,
    line: u32,
}

impl TargetInfo {
    spec fn model(&self) -> TargetModel {
        TargetModel {
            kind: self.kind,
            name: match self.name {
                Some(v) => Some(v@),
                None => None,
            },
            index: self.index,
            function_start_byte: self.function_start_byte,
            line: self.line,
        }
    }
}

fn opt_chars(o: &Option<String>) -> (r: Option<Vec<char>>)
    ensures
        match r {
            Some(v) => text::opt_view(*o) == Some(v@),
            None => o.is_none(),
        },
{
    match o {
        Some(s) => Some(text::chars_of(s.as_str())),
        None => None,
    }
}

fn opt_string(o: &Option<Vec<char>>) -> (r: Option<String>)
    ensures
        text::opt_view(r) == match o {
            Some(v) => Some(v@),
            None => None::<Seq<char>>,
        },
{
    match o {
        Some(v) => Some(text::string_from_chars(v.as_slice())),
        None => None,
    }
}

fn target_info(r: &ReferenceTarget) -> (t: TargetInfo)
    ensures
        t.model() == r.deep_view(),
{
    match r {
        ReferenceTarget::Function { name, index } => TargetInfo {
            kind: TargetKind::Function,
            name: opt_chars(name),
            index: *index,
            function_start_byte: 0,
            line: 0,
        },
        ReferenceTarget::Global { name, index } => TargetInfo {
            kind: TargetKind::Global,
            name: opt_chars(name),
            index: *index,
            function_start_byte: 0,
            line: 0,
        },
        ReferenceTarget::Local { name, index, function_start_byte } => TargetInfo {
            kind: TargetKind::Local,
            name: opt_chars(name),
            index: *index,
            function_start_byte: *function_start_byte,
            line: 0,
        },
        ReferenceTarget::Parameter { name, index, function_start_byte } => TargetInfo {
            kind: TargetKind::Parameter,
            name: opt_chars(name),
            index: *index,
            function_start_byte: *function_start_byte,
            line: 0,
        },
        ReferenceTarget::BlockLabel { label, function_start_byte, line } => TargetInfo {
            kind: TargetKind::BlockLabel,
            name: Some(text::chars_of(label.as_str())),
            index: 0,
            function_start_byte: *function_start_byte,
            line: *line,
        },
        ReferenceTarget::Table { name, index } => TargetInfo {
            kind: TargetKind::Table,
            name: opt_chars(name),
            index: *index,
            function_start_byte: 0,
            line: 0,
        },
        ReferenceTarget::Memory { name, index } => TargetInfo {
            kind: TargetKind::Memory,
            name: opt_chars(name),
            index: *index,
            function_start_byte: 0,
            line: 0,
        },
        ReferenceTarget::Type { name, index } => TargetInfo {
            kind: TargetKind::Type,
            name: opt_chars(name),
            index: *index,
            function_start_byte: 0,
            line: 0,
        },
        ReferenceTarget::Tag { name, index } => TargetInfo {
            kind: TargetKind::Tag,
            name: opt_chars(name),
            index: *index,
            function_start_byte: 0,
            line: 0,
        },
        ReferenceTarget::Data { name, index } => TargetInfo {
            kind: TargetKind::Data,
            name: opt_chars(name),
            index: *index,
            function_start_byte: 0,
            line: 0,
        },
        ReferenceTarget::Elem { name, index } => TargetInfo {
            kind: TargetKind::Elem,
            name: opt_chars(name),
            index: *index,
            function_start_byte: 0,
            line: 0,
        },
    }
}

/// The public form of a target; a block label is never without its label.
fn reference_target(t: &TargetInfo) -> (r: ReferenceTarget)
    requires
        t.kind == TargetKind::BlockLabel ==> t.name is Some,
    ensures
        r.deep_view() == (if t.kind == TargetKind::BlockLabel {
            TargetModel { index: 0, ..t.model() }
        } else if function_scoped(t.kind) {
            TargetModel { line: 0, ..t.model() }
        } else {
            TargetModel { function_start_byte: 0, line: 0, ..t.model() }
        }),
{
    let name = opt_string(&t.name);
    match t.kind {
        TargetKind::Function => ReferenceTarget::Function { name, index: t.index },
        TargetKind::Global => ReferenceTarget::Global { name, index: t.index },
        TargetKind::Local => ReferenceTarget::Local {
            name,
            index: t.index,
            function_start_byte: t.function_start_byte,
        },
        TargetKind::Parameter => ReferenceTarget::Parameter {
            name,
            index: t.index,
            function_start_byte: t.function_start_byte,
        },
        TargetKind::BlockLabel => {
            let label = match name {
                Some(l) => l,
                None => String::new(),
            };
            ReferenceTarget::BlockLabel {
                label,
                function_start_byte: t.function_start_byte,
                line: t.line,
            }
        },
        TargetKind::Table => ReferenceTarget::Table { name, index: t.index },
        TargetKind::Memory => ReferenceTarget::Memory { name, index: t.index },
        TargetKind::Type => ReferenceTarget::Type { name, index: t.index },
        TargetKind::Tag => ReferenceTarget::Tag { name, index: t.index },
        TargetKind::Data => ReferenceTarget::Data { name, index: t.index },
        TargetKind::Elem => ReferenceTarget::Elem { name, index: t.index },
    }
}

fn in_same_function_exec(st: &SymbolTable, line: u32, fsb: usize) -> (b: bool)
    ensures
        b == in_same_function(*st, line, fsb),
{
    let fs = &st.functions;
    let mut i: usize = 0;
    while i < fs.len()
        invariant
            i <= fs@.len(),
            fs@ == st.functions@,
            function_covering(fs@, line, 0) == function_covering(fs@, line, i as int),
        decreases fs@.len() - i,
    {
        if fs[i].line <= line && line <= fs[i].end_line {
            return fs[i].start_byte == fsb;
        }
        i = i + 1;
    }
    false
}

fn searched_exec(ctx: RefContext) -> (b: bool)
    ensures
        b == searched(ctx),
{
    match ctx {
        RefContext::Function | RefContext::Global | RefContext::Local | RefContext::Label
        | RefContext::Table | RefContext::Memory | RefContext::Type | RefContext::Tag => true,
        _ => false,
    }
}

fn context_fits_exec(k: TargetKind, ctx: RefContext) -> (b: bool)
    ensures
        b == context_fits(k, ctx),
{
    match k {
        TargetKind::Function => ctx == RefContext::Function,
        TargetKind::Global => ctx == RefContext::Global,
        TargetKind::Local | TargetKind::Parameter => ctx == RefContext::Local,
        TargetKind::BlockLabel => ctx == RefContext::Label,
        TargetKind::Table => ctx == RefContext::Table,
        TargetKind::Memory => ctx == RefContext::Memory,
        TargetKind::Type => ctx == RefContext::Type,
        TargetKind::Tag => ctx == RefContext::Tag,
        TargetKind::Data => ctx == RefContext::Data,
        TargetKind::Elem => ctx == RefContext::Elem,
    }
}

fn function_scoped_exec(k: TargetKind) -> (b: bool)
    ensures
        b == function_scoped(k),
{
    k == TargetKind::Local || k == TargetKind::Parameter || k == TargetKind::BlockLabel
}

fn opt_chars_eq(o: &Option<Vec<char>>, w: &Vec<char>) -> (b: bool)
    ensures
        b == (match o {
            Some(v) => Some(v@),
            None => None::<Seq<char>>,
        } == Some(w@)),
{
    match o {
        Some(v) => text::chars_eq(v.as_slice(), w.as_slice()),
        None => false,
    }
}

fn matches_name_exec(tm: &TargetInfo, ctx: RefContext, w: &Vec<char>, line: u32, st: &SymbolTable) -> (b: bool)
    ensures
        b == matches_name(tm.model(), ctx, w@, line, *st),
{
    searched_exec(ctx) && context_fits_exec(tm.kind, ctx) && opt_chars_eq(&tm.name, w) && (
    !function_scoped_exec(tm.kind) || in_same_function_exec(st, line, tm.function_start_byte))
}

/// An enclosing labelled block.
struct BlockInfo {
    label: Option<Vec<char>>,
    line: u32,
}

impl BlockInfo {
    spec fn model(&self) -> BlockModel {
        BlockModel {
            label: match self.label {
                Some(v) => Some(v@),
                None => None,
            },
            line: self.line,
        }
    }
}

spec fn stack_models(v: Seq<BlockInfo>) -> Seq<BlockModel> {
    v.map_values(|b: BlockInfo| b.model())
}

fn matches_index_exec(
    tm: &TargetInfo,
    ctx: RefContext,
    v: usize,
    line: u32,
    st: &SymbolTable,
    stack: &Vec<BlockInfo>,
) -> (b: bool)
    ensures
        b == matches_index(tm.model(), ctx, v, line, *st, stack_models(stack@)),
{
    if !searched_exec(ctx) || !context_fits_exec(tm.kind, ctx) {
        return false;
    }
    if tm.kind == TargetKind::BlockLabel {
        let n = stack.len();
        if v < n {
            let blk = &stack[n - 1 - v];
            assert(stack_models(stack@)[n - 1 - v] == blk.model());
            match &blk.label {
                Some(l) => {
                    let same = match &tm.name {
                        Some(tn) => text::chars_eq(l.as_slice(), tn.as_slice()),
                        None => false,
                    };
                    same && in_same_function_exec(st, line, tm.function_start_byte)
                },
                None => blk.line == tm.line && in_same_function_exec(st, line, tm.function_start_byte),
            }
        } else {
            false
        }
    } else if function_scoped_exec(tm.kind) {
        v == tm.index && in_same_function_exec(st, line, tm.function_start_byte)
    } else {
        v == tm.index
    }
}

} // verus!

verus! {

pub(crate) fn is_comment_exec(k: NodeKind) -> (b: bool)
    ensures
        b == syntax::is_comment(k),
{
    k == NodeKind::LineComment || k == NodeKind::BlockComment
}

pub(crate) fn next_child_exec(d: &Doc, p: usize, i: usize) -> (r: Option<usize>)
    requires
        doc_wf(d),
        p < d.tree@.len(),
        1 <= i,
    ensures
        match next_child(d.tree@, p as int, i as int) {
            Some(k) => r == Some(k as usize) && p < k < d.tree@.len() && d.tree@[k].parent == p && i <= k,
            None => r is None,
        },
{
    let t = &d.tree;
    let n = t.len();
    proof {
        parser::lemma_node_wf(d, p as int);
    }
    let last = t[p].last;
    let mut j = i;
    while j < last
        invariant
            doc_wf(d),
            t == &d.tree,
            n == t@.len(),
            p < n,
            last == t@[p as int].last,
            last <= n,
            1 <= i <= j,
            next_child(t@, p as int, i as int) == next_child(t@, p as int, j as int),
        decreases last - j,
    {
        if t[j].parent == p && !is_comment_exec(t[j].kind) {
            proof {
                parser::lemma_node_wf(d, j as int);
            }
            return Some(j);
        }
        j = j + 1;
    }
    None
}

fn flat_end_exec(d: &Doc, p: usize, i: usize) -> (r: Option<usize>)
    requires
        doc_wf(d),
        p < d.tree@.len(),
        1 <= i,
    ensures
        match flat_end(d.chars@, d.tree@, p as int, i as int, 0) {
            Some(e) => r == Some(e as usize) && i <= e < d.tree@.len(),
            None => r is None,
        },
{
    let t = &d.tree;
    let n = t.len();
    proof {
        parser::lemma_node_wf(d, p as int);
    }
    let last = t[p].last;
    let mut j = i;
    let mut depth: usize = 0;
    while j < last
        invariant
            doc_wf(d),
            t == &d.tree,
            n == t@.len(),
            p < n,
            last == t@[p as int].last,
            last <= n,
            1 <= i <= j,
            depth <= j,
            flat_end(d.chars@, t@, p as int, i as int, 0) == flat_end(d.chars@, t@, p as int, j as int, depth as nat),
        decreases last - j,
    {
        if t[j].parent == p && t[j].kind == NodeKind::Keyword && crate::semantic_tokens::block_word_exec(d, j) {
            depth = depth + 1;
        } else if t[j].parent == p && t[j].kind == NodeKind::Keyword && crate::semantic_tokens::word_is(d, j, "end") {
            if depth == 0 {
                return Some(j);
            }
            depth = depth - 1;
        }
        j = j + 1;
    }
    None
}

fn is_opener_exec(d: &Doc, k: usize) -> (b: bool)
    requires
        doc_wf(d),
        k < d.tree@.len(),
    ensures
        b == is_opener(d.chars@, d.tree@, k as int),
{
    0 < k && d.tree[k].kind == NodeKind::Keyword && crate::semantic_tokens::block_word_exec(d, k)
}

pub(crate) fn is_folded_exec(d: &Doc, k: usize) -> (b: bool)
    requires
        doc_wf(d),
        k < d.tree@.len(),
    ensures
        b == is_folded(d.tree@, k as int),
{
    let _n = d.tree.len();
    proof {
        parser::lemma_node_wf(d, k as int);
    }
    let p = d.tree[k].parent;
    match next_child_exec(d, p, p + 1) {
        Some(h) => h == k,
        None => false,
    }
}

fn block_start_exec(d: &Doc, k: usize) -> (r: usize)
    requires
        doc_wf(d),
        k < d.tree@.len(),
    ensures
        r == block_start(d.tree@, k as int),
        r <= d.chars@.len(),
{
    proof {
        parser::lemma_node_wf(d, k as int);
        parser::lemma_node_wf(d, d.tree@[k as int].parent as int);
    }
    if is_folded_exec(d, k) {
        d.tree[d.tree[k].parent].start
    } else {
        d.tree[k].start
    }
}

pub(crate) fn block_end_exec(d: &Doc, k: usize) -> (r: usize)
    requires
        doc_wf(d),
        k < d.tree@.len(),
    ensures
        r == block_end(d.chars@, d.tree@, k as int),
        r <= d.chars@.len(),
{
    let _n = d.tree.len();
    proof {
        parser::lemma_node_wf(d, k as int);
        parser::lemma_node_wf(d, d.tree@[k as int].parent as int);
    }
    let p = d.tree[k].parent;
    if is_folded_exec(d, k) {
        d.tree[p].end
    } else {
        match flat_end_exec(d, p, k + 1) {
            Some(e) => {
                proof {
                    parser::lemma_node_wf(d, e as int);
                }
                d.tree[e].end
            },
            None => d.tree[p].end,
        }
    }
}

fn block_label_exec(d: &Doc, k: usize) -> (r: Option<Vec<char>>)
    requires
        doc_wf(d),
        k < d.tree@.len(),
    ensures
        match r {
            Some(v) => block_label(d.chars@, d.tree@, k as int) == Some(v@),
            None => block_label(d.chars@, d.tree@, k as int) is None,
        },
{
    let _n = d.tree.len();
    proof {
        parser::lemma_node_wf(d, k as int);
    }
    let p = d.tree[k].parent;
    if let Some(n) = next_child_exec(d, p, k + 1) {
        if d.tree[n].kind == NodeKind::Identifier {
            return Some(parser::node_chars(d, n));
        }
    }
    if is_folded_exec(d, k) {
        return None;
    }
    match flat_end_exec(d, p, k + 1) {
        Some(e) => match next_child_exec(d, p, e + 1) {
            Some(n) => if d.tree[n].kind == NodeKind::Identifier {
                Some(parser::node_chars(d, n))
            } else {
                None
            },
            None => None,
        },
        None => None,
    }
}

fn block_stack_exec(d: &Doc, b: usize) -> (r: Vec<BlockInfo>)
    requires
        doc_wf(d),
    ensures
        stack_models(r@) == block_stack(d.chars@, d.tree@, b as int),
{
    let t = &d.tree;
    let n = t.len();
    let mut r: Vec<BlockInfo> = Vec::new();
    let mut k: usize = 0;
    while k < n
        invariant
            doc_wf(d),
            t == &d.tree,
            n == t@.len(),
            k <= n,
            stack_models(r@) == blocks_upto(d.chars@, t@, b as int, k as int),
        decreases n - k,
    {
        if is_opener_exec(d, k) {
            let a = block_start_exec(d, k);
            let e = block_end_exec(d, k);
            if d.pos[a].byte <= b && b <= d.pos[e].byte {
                let label = block_label_exec(d, k);
                let line = d.pos[a].row as u32;
                let ghost old_r = r@;
                r.push(BlockInfo { label, line });
                assert(stack_models(r@) =~= stack_models(old_r).push(block_model(d.chars@, t@, k as int)));
            }
        }
        k = k + 1;
    }
    r
}

} // verus!

verus! {

fn is_reference_exec(d: &Doc, st: &SymbolTable, tm: &TargetInfo, j: usize) -> (b: bool)
    requires
        doc_wf(d),
        j < d.tree@.len(),
    ensures
        b == is_reference(d.chars@, d.tree@, *st, tm.model(), j as int),
{
    proof {
        parser::lemma_node_wf(d, j as int);
    }
    let n = d.tree[j];
    if j == 0 || !(n.kind == NodeKind::Identifier || n.kind == NodeKind::Number) {
        return false;
    }
    let line = d.pos[n.start].row as u32;
    let w = parser::node_chars(d, j);
    let ctx = crate::semantic_tokens::ref_context_exec(d, j);
    if n.kind == NodeKind::Identifier {
        matches_name_exec(tm, ctx, &w, line, st)
    } else {
        match parser::parse_wat_nat(w.as_slice()) {
            Some(v) => {
                let stack = block_stack_exec(d, d.pos[n.start].byte);
                matches_index_exec(tm, ctx, v as usize, line, st, &stack)
            },
            None => false,
        }
    }
}

fn find_all_references(d: &Doc, st: &SymbolTable, tm: &TargetInfo) -> (r: Vec<Range>)
    requires
        doc_wf(d),
    ensures
        r@ == references_upto(d.chars@, d.tree@, *st, tm.model(), d.tree@.len() as int),
{
    let n = d.tree.len();
    let mut r: Vec<Range> = Vec::new();
    let mut j: usize = 0;
    while j < n
        invariant
            doc_wf(d),
            n == d.tree@.len(),
            j <= n,
            r@ == references_upto(d.chars@, d.tree@, *st, tm.model(), j as int),
        decreases n - j,
    {
        if is_reference_exec(d, st, tm, j) {
            r.push(parser::range_exec(d, j));
        }
        j = j + 1;
    }
    r
}

} // verus!

verus! {

fn plain_context_exec(w: &Vec<char>) -> (r: Option<InstructionContext>)
    ensures
        r == plain_context(w@),
{
    let s = w.as_slice();
    if text::starts_with_str(s, "struct.") || text::starts_with_str(s, "array.") || text::chars_eq_str(
        s,
        "ref.cast",
    ) || text::chars_eq_str(s, "ref.test") || text::chars_eq_str(s, "call_ref") || text::chars_eq_str(
        s,
        "return_call_ref",
    ) {
        Some(InstructionContext::Type)
    } else if text::starts_with_str(s, "br") {
        Some(InstructionContext::Branch)
    } else if text::starts_with_str(s, "call") && !text::chars_eq_str(s, "call_indirect") {
        Some(InstructionContext::Call)
    } else if text::starts_with_str(s, "local.") {
        Some(InstructionContext::Local)
    } else if text::starts_with_str(s, "global.") {
        Some(InstructionContext::Global)
    } else if text::starts_with_str(s, "table.") {
        Some(InstructionContext::Table)
    } else if text::starts_with_str(s, "memory.") {
        Some(InstructionContext::Memory)
    } else if text::chars_eq_str(s, "throw") || text::chars_eq_str(s, "rethrow") {
        Some(InstructionContext::Tag)
    } else {
        None
    }
}

pub(crate) fn catch_context_exec(d: &Doc, k: usize) -> (r: Option<InstructionContext>)
    requires
        doc_wf(d),
        0 < k < d.tree@.len(),
    ensures
        r == catch_context(d.chars@, d.tree@, k as int),
{
    let _n = d.tree.len();
    proof {
        parser::lemma_node_wf(d, k as int);
    }
    let p = d.tree[k].parent;
    if d.tree[p].kind != NodeKind::List {
        return None;
    }
    let h = match next_child_exec(d, p, p + 1) {
        Some(h) => h,
        None => return None,
    };
    if d.tree[h].kind != NodeKind::Keyword {
        return None;
    }
    let hw = parser::node_chars(d, h);
    let hs = hw.as_slice();
    if !(text::chars_eq_str(hs, "catch") || text::chars_eq_str(hs, "catch_ref") || text::chars_eq_str(
        hs,
        "catch_all",
    ) || text::chars_eq_str(hs, "catch_all_ref")) {
        return None;
    }
    let clause = parser::node_chars(d, p);
    let cs = clause.as_slice();
    let has_tag = text::contains_str(cs, "catch_ref") || (text::contains_str(cs, "catch")
        && !text::contains_str(cs, "catch_all"));
    let mut count: usize = 0;
    let mut i: usize = p + 1;
    while i < k
        invariant
            doc_wf(d),
            p < i <= k < d.tree@.len(),
            count <= i,
            count == index_kids_before(d.tree@, p as int, i as int),
        decreases k - i,
    {
        if d.tree[i].parent == p && (d.tree[i].kind == NodeKind::Identifier || d.tree[i].kind
            == NodeKind::Number) {
            count = count + 1;
        }
        i = i + 1;
    }
    if has_tag && count == 0 {
        Some(InstructionContext::Tag)
    } else {
        Some(InstructionContext::Branch)
    }
}

fn innermost_exec(d: &Doc, b: usize) -> (r: Option<usize>)
    requires
        doc_wf(d),
    ensures
        match innermost(d.chars@, d.tree@, b as int, d.tree@.len() as int) {
            Some(k) => r == Some(k as usize) && 0 <= k < d.tree@.len(),
            None => r is None,
        },
{
    let mut i = d.tree.len();
    while i > 0
        invariant
            doc_wf(d),
            i <= d.tree@.len(),
            innermost(d.chars@, d.tree@, b as int, d.tree@.len() as int) == innermost(
                d.chars@,
                d.tree@,
                b as int,
                i as int,
            ),
        decreases i,
    {
        proof {
            parser::lemma_node_wf(d, i - 1);
        }
        let n = d.tree[i - 1];
        if d.pos[n.start].byte <= b && b < d.pos[n.end].byte {
            return Some(i - 1);
        }
        i = i - 1;
    }
    None
}

fn adjacent_child_exec(d: &Doc, k: usize, b: usize) -> (r: Option<usize>)
    requires
        doc_wf(d),
        k < d.tree@.len(),
    ensures
        match adjacent_child(d.chars@, d.tree@, k as int, b as int, k + 1) {
            Some(c) => r == Some(c as usize) && 0 < c < d.tree@.len(),
            None => r is None,
        },
{
    let n = d.tree.len();
    proof {
        parser::lemma_node_wf(d, k as int);
    }
    let last = d.tree[k].last;
    let mut i = k + 1;
    while i < last
        invariant
            doc_wf(d),
            n == d.tree@.len(),
            k < n,
            last == d.tree@[k as int].last,
            last <= n,
            k + 1 <= i,
            adjacent_child(d.chars@, d.tree@, k as int, b as int, k + 1) == adjacent_child(
                d.chars@,
                d.tree@,
                k as int,
                b as int,
                i as int,
            ),
        decreases last - i,
    {
        proof {
            parser::lemma_node_wf(d, i as int);
        }
        if d.tree[i].parent == k && i != k && d.pos[d.tree[i].end].byte == b {
            return Some(i);
        }
        i = i + 1;
    }
    None
}

/// The node under the cursor at byte `b` (see `cursor_node`).
pub(crate) fn cursor_node_exec(d: &Doc, b: usize) -> (r: Option<usize>)
    requires
        doc_wf(d),
    ensures
        match cursor_node(d.chars@, d.tree@, b as int) {
            Some(k) => r == Some(k as usize) && 0 <= k < d.tree@.len(),
            None => r is None,
        },
{
    match innermost_exec(d, b) {
        Some(k) => match adjacent_child_exec(d, k, b) {
            Some(c) => Some(c),
            None => Some(k),
        },
        None => None,
    }
}

pub(crate) fn node_context_exec(d: &Doc, b: usize) -> (c: InstructionContext)
    requires
        doc_wf(d),
    ensures
        c == node_context(d.chars@, d.tree@, b as int),
{
    let k = match cursor_node_exec(d, b) {
        Some(k) => k,
        None => return InstructionContext::General,
    };
    proof {
        parser::lemma_node_wf(d, k as int);
    }
    let n = d.tree[k];
    if k > 0 && (n.kind == NodeKind::Identifier || n.kind == NodeKind::Number) {
        match catch_context_exec(d, k) {
            Some(c) => c,
            None => InstructionContext::General,
        }
    } else if k > 0 && n.kind == NodeKind::List && d.pos[n.start].byte < b && b as u128 + 1 < d.pos[n.end].byte
        as u128 {
        let h = match next_child_exec(d, k, k + 1) {
            Some(h) => h,
            None => return InstructionContext::General,
        };
        if d.tree[h].kind != NodeKind::Keyword {
            return InstructionContext::General;
        }
        let w = parser::node_chars(d, h);
        match plain_context_exec(&w) {
            Some(c) => c,
            None => if (text::chars_eq_str(w.as_slice(), "type") && !crate::semantic_tokens::is_field_exec(
                d,
                k,
            )) || text::chars_eq_str(w.as_slice(), "ref") {
                InstructionContext::Type
            } else {
                InstructionContext::General
            },
        }
    } else {
        InstructionContext::General
    }
}

} // verus!

verus! {

fn plain_target(kind: TargetKind, name: Option<Vec<char>>, index: usize) -> (t: TargetInfo)
    ensures
        t.model() == target(
            kind,
            match name {
                Some(v) => Some(v@),
                None => None,
            },
            index,
        ),
        t.name == name,
{
    TargetInfo { kind, name, index, function_start_byte: 0, line: 0 }
}

/// Every local of the function around `pos` can be numbered after the
/// function's parameters within `usize`.
pub open spec fn local_indices_fit(st: SymbolTable, pos: Position) -> bool {
    match containing_function_index(st.functions@, pos.line) {
        Some(i) => forall|k: int|
            0 <= k < st.functions@[i].locals@.len() ==> (#[trigger] st.functions@[i].locals@[k]).index
                + st.functions@[i].parameters@.len() <= usize::MAX,
        None => true,
    }
}

/// Whether every local of the function around `position` can be numbered
/// (`local_indices_fit`).
pub fn local_indices_fit_check(symbols: &SymbolTable, position: Position) -> (b: bool)
    ensures
        b == local_indices_fit(*symbols, position),
{
    match utils::find_containing_function(symbols, position) {
        Some(f) => {
            let np = f.parameters.len();
            let mut k: usize = 0;
            while k < f.locals.len()
                invariant
                    k <= f.locals@.len(),
                    np == f.parameters@.len(),
                    containing_function_index(symbols.functions@, position.line) matches Some(i)
                        && symbols.functions@[i] == *f,
                    forall|j: int| 0 <= j < k ==> (#[trigger] f.locals@[j]).index + np <= usize::MAX,
                decreases f.locals@.len() - k,
            {
                if f.locals[k].index > usize::MAX - np {
                    proof {
                        let i = containing_function_index(symbols.functions@, position.line).unwrap();
                        assert(symbols.functions@[i].locals@[k as int].index + symbols.functions@[i].parameters@.len()
                            > usize::MAX);
                    }
                    return false;
                }
                k = k + 1;
            }
            true
        },
        None => true,
    }
}

fn scoped_var_exec(w: &str, st: &SymbolTable, pos: Position) -> (r: Option<TargetInfo>)
    requires
        local_indices_fit(*st, pos),
    ensures
        match scoped_var(w@, *st, pos) {
            Some(m) => r is Some && r->0.model() == m,
            None => r is None,
        },
{
    let f = match utils::find_containing_function(st, pos) {
        Some(f) => f,
        None => return None,
    };
    if let Some(p) = crate::symbol_lookup::find_param_in_function(w, f) {
        return Some(
            TargetInfo {
                kind: TargetKind::Parameter,
                name: Some(text::chars_of(w)),
                index: p.index,
                function_start_byte: f.start_byte,
                line: 0,
            },
        );
    }
    if let Some(l) = crate::symbol_lookup::find_local_in_function(w, f) {
        proof {
            symbols::lemma_first_named(f.locals@, w@);
            let i = first_named(f.locals@, w@).unwrap();
            assert(f.locals@[i] == *l);
        }
        return Some(
            TargetInfo {
                kind: TargetKind::Local,
                name: Some(text::chars_of(w)),
                index: l.index + f.parameters.len(),
                function_start_byte: f.start_byte,
                line: 0,
            },
        );
    }
    None
}

fn scoped_block_exec(w: &str, st: &SymbolTable, pos: Position) -> (r: Option<TargetInfo>)
    ensures
        match scoped_block(w@, *st, pos) {
            Some(m) => r is Some && r->0.model() == m,
            None => r is None,
        },
{
    let f = match utils::find_containing_function(st, pos) {
        Some(f) => f,
        None => return None,
    };
    match crate::symbol_lookup::find_block_in_function(w, f) {
        Some(b) => Some(
            TargetInfo {
                kind: TargetKind::BlockLabel,
                name: Some(text::chars_of(w)),
                index: 0,
                function_start_byte: f.start_byte,
                line: b.line,
            },
        ),
        None => None,
    }
}

fn identify_named_exec(w: &str, st: &SymbolTable, ctx: InstructionContext, pos: Position) -> (r: Option<TargetInfo>)
    requires
        local_indices_fit(*st, pos),
    ensures
        match identify_named(w@, *st, ctx, pos) {
            Some(m) => r is Some && r->0.model() == m,
            None => r is None,
        },
{
    let general = ctx == InstructionContext::Function || ctx == InstructionContext::General;
    if ctx == InstructionContext::Call || general {
        if let Some(f) = st.get_function_by_name(w) {
            return Some(plain_target(TargetKind::Function, Some(text::chars_of(w)), f.index));
        }
        if !general {
            return None;
        }
    }
    if ctx == InstructionContext::Local || general {
        let v = scoped_var_exec(w, st, pos);
        if v.is_some() || !general {
            return v;
        }
    }
    if ctx == InstructionContext::Branch || ctx == InstructionContext::Block || general {
        let b = scoped_block_exec(w, st, pos);
        if b.is_some() || !general {
            return b;
        }
    }
    if ctx == InstructionContext::Global || general {
        if let Some(g) = st.get_global_by_name(w) {
            return Some(plain_target(TargetKind::Global, Some(text::chars_of(w)), g.index));
        }
        if !general {
            return None;
        }
    }
    if ctx == InstructionContext::Table || general {
        if let Some(x) = st.get_table_by_name(w) {
            return Some(plain_target(TargetKind::Table, Some(text::chars_of(w)), x.index));
        }
        if !general {
            return None;
        }
    }
    if ctx == InstructionContext::Memory || general {
        if let Some(x) = st.get_memory_by_name(w) {
            return Some(plain_target(TargetKind::Memory, Some(text::chars_of(w)), x.index));
        }
        if !general {
            return None;
        }
    }
    if ctx == InstructionContext::Type || general {
        if let Some(x) = st.get_type_by_name(w) {
            return Some(plain_target(TargetKind::Type, Some(text::chars_of(w)), x.index));
        }
        if !general {
            return None;
        }
    }
    if ctx == InstructionContext::Tag || general {
        if let Some(x) = st.get_tag_by_name(w) {
            return Some(plain_target(TargetKind::Tag, Some(text::chars_of(w)), x.index));
        }
        return None;
    }
    if ctx == InstructionContext::Data {
        if let Some(x) = st.get_data_by_name(w) {
            return Some(plain_target(TargetKind::Data, Some(text::chars_of(w)), x.index));
        }
        return None;
    }
    if ctx == InstructionContext::Elem {
        if let Some(x) = st.get_elem_by_name(w) {
            return Some(plain_target(TargetKind::Elem, Some(text::chars_of(w)), x.index));
        }
        return None;
    }
    None
}

} // verus!

verus! {

fn identify_indexed_exec(
    i: usize,
    st: &SymbolTable,
    ctx: InstructionContext,
    pos: Position,
    stack: &Vec<BlockInfo>,
) -> (r: Option<TargetInfo>)
    ensures
        match identify_indexed(i, *st, ctx, pos, stack_models(stack@)) {
            Some(m) => r is Some && r->0.model() == m && (m.kind == TargetKind::BlockLabel ==> r->0.name is Some),
            None => r is None,
        },
{
    match ctx {
        InstructionContext::Call => match st.get_function_by_index(i) {
            Some(f) => Some(plain_target(TargetKind::Function, opt_chars(&f.name), i)),
            None => None,
        },
        InstructionContext::Global => match st.get_global_by_index(i) {
            Some(g) => Some(plain_target(TargetKind::Global, opt_chars(&g.name), i)),
            None => None,
        },
        InstructionContext::Local => {
            let f = match utils::find_containing_function(st, pos) {
                Some(f) => f,
                None => return None,
            };
            let np = f.parameters.len();
            if i < np {
                Some(
                    TargetInfo {
                        kind: TargetKind::Parameter,
                        name: opt_chars(&f.parameters[i].name),
                        index: i,
                        function_start_byte: f.start_byte,
                        line: 0,
                    },
                )
            } else if i - np < f.locals.len() {
                Some(
                    TargetInfo {
                        kind: TargetKind::Local,
                        name: opt_chars(&f.locals[i - np].name),
                        index: i,
                        function_start_byte: f.start_byte,
                        line: 0,
                    },
                )
            } else {
                None
            }
        },
        InstructionContext::Type => match st.get_type_by_index(i) {
            Some(t) => Some(plain_target(TargetKind::Type, opt_chars(&t.name), i)),
            None => None,
        },
        InstructionContext::Tag => match st.get_tag_by_index(i) {
            Some(t) => Some(plain_target(TargetKind::Tag, opt_chars(&t.name), i)),
            None => None,
        },
        InstructionContext::Branch => {
            let f = match utils::find_containing_function(st, pos) {
                Some(f) => f,
                None => return None,
            };
            let n = stack.len();
            if i < n {
                let b = &stack[n - 1 - i];
                assert(stack_models(stack@)[n - 1 - i] == b.model());
                let label = match &b.label {
                    Some(l) => l.clone(),
                    None => {
                        let mut s = "@".to_owned();
                        text::push_decimal(&mut s, b.line as u64);
                        let v = text::chars_of(s.as_str());
                        proof {
                            reveal_strlit("@");
                        }
                        v
                    },
                };
                Some(
                    TargetInfo {
                        kind: TargetKind::BlockLabel,
                        name: Some(label),
                        index: 0,
                        function_start_byte: f.start_byte,
                        line: b.line,
                    },
                )
            } else {
                None
            }
        },
        _ => None,
    }
}

pub(crate) fn all_digits_exec(w: &Vec<char>) -> (b: bool)
    ensures
        b == all_digits(w@),
{
    let mut i: usize = 0;
    while i < w.len()
        invariant
            i <= w@.len(),
            forall|k: int| 0 <= k < i ==> '0' <= #[trigger] w@[k] && w@[k] <= '9',
        decreases w@.len() - i,
    {
        if !('0' <= w[i] && w[i] <= '9') {
            return false;
        }
        i = i + 1;
    }
    true
}

fn identify_in(d: &Doc, document: &str, st: &SymbolTable, pos: Position) -> (r: Option<TargetInfo>)
    requires
        doc_wf(d),
        d.chars@ == document@,
        text::byte_len(document@) < usize::MAX,
        local_indices_fit(*st, pos),
    ensures
        match identify(document@, *st, pos) {
            Some(m) => r is Some && r->0.model() == m && (m.kind == TargetKind::BlockLabel ==> r->0.name is Some),
            None => r is None,
        },
{
    let word = match utils::get_word_at_position(document, pos) {
        Some(w) => w,
        None => return None,
    };
    let b = utils::position_to_byte(document, pos);
    let line = utils::get_line_at_position(document, pos.line as usize);
    let nc = node_context_exec(d, b);
    let ctx = if nc != InstructionContext::General {
        nc
    } else {
        match line {
            Some(l) => utils::determine_context_from_line(l),
            None => InstructionContext::General,
        }
    };
    let wc = text::chars_of(word.as_str());
    if text::starts_with_str(wc.as_slice(), "$") {
        let r = identify_named_exec(word.as_str(), st, ctx, pos);
        proof {
            if let Some(m) = identify_named(word@, *st, ctx, pos) {
                if m.kind == TargetKind::BlockLabel {
                    assert(m.name is Some);
                }
            }
        }
        return r;
    }
    if !all_digits_exec(&wc) {
        return None;
    }
    let i = match parser::parse_number(wc.as_slice(), 10, usize::MAX as u64) {
        Some(v) => v as usize,
        None => return None,
    };
    let stack = block_stack_exec(d, b);
    let r = identify_indexed_exec(i, st, ctx, pos, &stack);
    if r.is_none() && ctx == InstructionContext::Function {
        match line {
            Some(l) => identify_indexed_exec(i, st, utils::determine_context_from_line(l), pos, &stack),
            None => None,
        }
    } else {
        r
    }
}

/// Identify what symbol the cursor is positioned on.
pub fn identify_symbol_at_position(document: &str, symbols: &SymbolTable, position: Position) -> (r: Option<ReferenceTarget>)
    requires
        text::byte_len(document@) < usize::MAX,
        local_indices_fit(*symbols, position),
    ensures
        match identify(document@, *symbols, position) {
            Some(m) => r is Some && r->0.deep_view() == m,
            None => r is None,
        },
{
    proof {
        text::lemma_byte_len_bound(document@);
    }
    let d = parser::read_doc(document);
    match identify_in(&d, document, symbols, position) {
        Some(t) => {
            proof {
                identify_shape(document@, *symbols, position);
            }
            Some(reference_target(&t))
        },
        None => None,
    }
}

/// Identified targets carry only the fields of their kind.
proof fn identify_shape(s: Seq<char>, st: SymbolTable, pos: Position)
    ensures
        identify(s, st, pos) matches Some(m) ==> (if m.kind == TargetKind::BlockLabel {
            m.index == 0
        } else if function_scoped(m.kind) {
            m.line == 0
        } else {
            m.function_start_byte == 0 && m.line == 0
        }),
{
}

} // verus!

verus! {

fn function_at_byte_exec(fs: &Vec<Function>, fsb: usize) -> (r: Option<usize>)
    ensures
        match r {
            Some(k) => function_at_byte(fs@, fsb, 0) == Some(k as int) && k < fs@.len(),
            None => function_at_byte(fs@, fsb, 0) is None,
        },
{
    let mut i: usize = 0;
    while i < fs.len()
        invariant
            i <= fs@.len(),
            function_at_byte(fs@, fsb, 0) == function_at_byte(fs@, fsb, i as int),
        decreases fs@.len() - i,
    {
        if fs[i].start_byte == fsb {
            return Some(i);
        }
        i = i + 1;
    }
    None
}

fn definition_in(t: &TargetInfo, st: &SymbolTable) -> (r: Option<Range>)
    ensures
        r == definition_range(t.model(), *st),
{
    match t.kind {
        TargetKind::Local => local_definition(t, st),
        TargetKind::Parameter => param_definition(t, st),
        TargetKind::BlockLabel => label_definition(t, st),
        _ => entity_definition(t, st),
    }
}

fn entity_definition(t: &TargetInfo, st: &SymbolTable) -> (r: Option<Range>)
    requires
        !function_scoped(t.kind),
    ensures
        r == definition_range(t.model(), *st),
{
    let i = t.index;
    match t.kind {
        TargetKind::Function => if i < st.functions.len() {
            st.functions[i].range
        } else {
            None
        },
        TargetKind::Global => if i < st.globals.len() {
            st.globals[i].range
        } else {
            None
        },
        TargetKind::Table => if i < st.tables.len() {
            st.tables[i].range
        } else {
            None
        },
        TargetKind::Memory => if i < st.memories.len() {
            st.memories[i].range
        } else {
            None
        },
        TargetKind::Type => if i < st.types.len() {
            st.types[i].range
        } else {
            None
        },
        TargetKind::Tag => if i < st.tags.len() {
            st.tags[i].range
        } else {
            None
        },
        TargetKind::Data => if i < st.data_segments.len() {
            st.data_segments[i].range
        } else {
            None
        },
        _ => if i < st.elem_segments.len() {
            st.elem_segments[i].range
        } else {
            None
        },
    }
}

fn local_definition(t: &TargetInfo, st: &SymbolTable) -> (r: Option<Range>)
    requires
        t.kind == TargetKind::Local,
    ensures
        r == definition_range(t.model(), *st),
{
    match function_at_byte_exec(&st.functions, t.function_start_byte) {
        Some(k) => {
            let f = &st.functions[k];
            if t.index < f.parameters.len() {
                f.parameters[t.index].range
            } else if t.index - f.parameters.len() < f.locals.len() {
                f.locals[t.index - f.parameters.len()].range
            } else {
                None
            }
        },
        None => None,
    }
}

fn param_definition(t: &TargetInfo, st: &SymbolTable) -> (r: Option<Range>)
    requires
        t.kind == TargetKind::Parameter,
    ensures
        r == definition_range(t.model(), *st),
{
    match function_at_byte_exec(&st.functions, t.function_start_byte) {
        Some(k) => {
            let f = &st.functions[k];
            if t.index < f.parameters.len() {
                f.parameters[t.index].range
            } else {
                None
            }
        },
        None => None,
    }
}

fn label_definition(t: &TargetInfo, st: &SymbolTable) -> (r: Option<Range>)
    requires
        t.kind == TargetKind::BlockLabel,
    ensures
        r == definition_range(t.model(), *st),
{
    match function_at_byte_exec(&st.functions, t.function_start_byte) {
        Some(k) => {
            let f = &st.functions[k];
            match &t.name {
                Some(l) => {
                    let ls = text::string_from_chars(l.as_slice());
                    match crate::symbol_lookup::find_block_in_function(ls.as_str(), f) {
                        Some(b) => b.range,
                        None => None,
                    }
                },
                None => None,
            }
        },
        None => None,
    }
}

/// Get the definition range for a target.
pub fn get_definition_range(target: &ReferenceTarget, symbols: &SymbolTable) -> (r: Option<Range>)
    ensures
        r == definition_range(target.deep_view(), *symbols),
{
    definition_in(&target_info(target), symbols)
}

fn pos_le_exec(a: Position, b: Position) -> (r: bool)
    ensures
        r == pos_le(a, b),
{
    a.line < b.line || (a.line == b.line && a.character <= b.character)
}

fn within_exec(r: Range, scope: Range) -> (b: bool)
    ensures
        b == within(r, scope),
{
    pos_le_exec(scope.start, r.start) && pos_le_exec(r.end, scope.end)
}

fn keep_within_exec(rs: &Vec<Range>, scope: Range) -> (r: Vec<Range>)
    ensures
        r@ == keep_within(rs@, scope),
{
    let mut r: Vec<Range> = Vec::new();
    let mut i: usize = 0;
    while i < rs.len()
        invariant
            i <= rs@.len(),
            r@ == keep_within(rs@.take(i as int), scope),
        decreases rs@.len() - i,
    {
        assert(rs@.take(i + 1).drop_last() =~= rs@.take(i as int));
        if within_exec(rs[i], scope) {
            r.push(rs[i]);
        }
        i = i + 1;
    }
    assert(rs@.take(i as int) =~= rs@);
    r
}

fn starts_before_exec(a: Range, b: Range) -> (r: bool)
    ensures
        r == starts_before(a, b),
{
    a.start.line < b.start.line || (a.start.line == b.start.line && a.start.character < b.start.character)
}

fn sort_by_start_exec(rs: &Vec<Range>) -> (r: Vec<Range>)
    ensures
        r@ == sort_by_start(rs@),
{
    let mut r: Vec<Range> = Vec::new();
    let mut i: usize = 0;
    while i < rs.len()
        invariant
            i <= rs@.len(),
            r@ == sort_by_start(rs@.take(i as int)),
            r@.len() == i,
        decreases rs@.len() - i,
    {
        assert(rs@.take(i + 1).drop_last() =~= rs@.take(i as int));
        let x = rs[i];
        let mut k: usize = 0;
        while k < r.len() && !starts_before_exec(x, r[k])
            invariant
                k <= r@.len(),
                insert_point(r@, x, 0) == insert_point(r@, x, k as int),
            decreases r@.len() - k,
        {
            k = k + 1;
        }
        let ghost before = r@;
        r.insert(k, x);
        assert(r@ =~= before.take(k as int).push(x) + before.skip(k as int));
        i = i + 1;
    }
    assert(rs@.take(i as int) =~= rs@);
    r
}

fn dedup_exec(rs: &Vec<Range>) -> (r: Vec<Range>)
    ensures
        r@ == dedup(rs@),
{
    let mut r: Vec<Range> = Vec::new();
    let mut i: usize = 0;
    while i < rs.len()
        invariant
            i <= rs@.len(),
            r@ == dedup(rs@.take(i as int)),
        decreases rs@.len() - i,
    {
        assert(rs@.take(i + 1).drop_last() =~= rs@.take(i as int));
        let n = r.len();
        if !(n > 0 && r[n - 1] == rs[i]) {
            r.push(rs[i]);
        }
        i = i + 1;
    }
    assert(rs@.take(i as int) =~= rs@);
    r
}

/// Find all references, optionally scoped to a specific module range.
/// When `module_range` is provided, only references within that range are returned.
pub fn provide_references_core_scoped(
    document: &str,
    symbols: &SymbolTable,
    position: Position,
    include_declaration: bool,
    module_range: Option<Range>,
) -> (r: Vec<Range>)
    requires
        text::byte_len(document@) < usize::MAX,
        local_indices_fit(*symbols, position),
    ensures
        r@ == references(document@, *symbols, position, include_declaration, module_range),
{
    proof {
        text::lemma_byte_len_bound(document@);
    }
    let d = parser::read_doc(document);
    let target = match identify_in(&d, document, symbols, position) {
        Some(t) => t,
        None => return Vec::new(),
    };
    let found = find_all_references(&d, symbols, &target);
    let kept = match module_range {
        Some(scope) => keep_within_exec(&found, scope),
        None => found,
    };
    let mut all = kept;
    if include_declaration {
        if let Some(def) = definition_in(&target, symbols) {
            let in_scope = match module_range {
                Some(scope) => within_exec(def, scope),
                None => true,
            };
            if in_scope {
                let ghost before = all@;
                all.insert(0, def);
                assert(all@ =~= seq![def] + before);
            }
        }
    }
    let sorted = sort_by_start_exec(&all);
    dedup_exec(&sorted)
}

/// Main entry point: find all references to the symbol at the given position.
pub fn provide_references_core(document: &str, symbols: &SymbolTable, position: Position, include_declaration: bool) -> (r: Vec<
    Range,
>)
    requires
        text::byte_len(document@) < usize::MAX,
        local_indices_fit(*symbols, position),
    ensures
        r@ == references(document@, *symbols, position, include_declaration, None),
{
    provide_references_core_scoped(document, symbols, position, include_declaration, None)
}

} // verus!

verus! {

proof fn lemma_insert_point(rs: Seq<Range>, x: Range, i: int)
    requires
        0 <= i <= rs.len(),
    ensures
        i <= insert_point(rs, x, i) <= rs.len(),
        forall|m: int| i <= m < insert_point(rs, x, i) ==> !starts_before(x, #[trigger] rs[m]),
        insert_point(rs, x, i) < rs.len() ==> starts_before(x, rs[insert_point(rs, x, i)]),
    decreases rs.len() - i,
{
    if i < rs.len() && !starts_before(x, rs[i]) {
        lemma_insert_point(rs, x, i + 1);
    }
}

/// The ranges are sorted by start: none starts before one ahead of it.
pub open spec fn sorted_by_start(rs: Seq<Range>) -> bool {
    forall|i: int, j: int| 0 <= i < j < rs.len() ==> !starts_before(#[trigger] rs[j], #[trigger] rs[i])
}

proof fn lemma_sort_by_start(rs: Seq<Range>)
    ensures
        sort_by_start(rs).len() == rs.len(),
        sorted_by_start(sort_by_start(rs)),
        forall|y: Range| #[trigger] sort_by_start(rs).contains(y) <==> rs.contains(y),
    decreases rs.len(),
{
    if rs.len() > 0 {
        let p = rs.drop_last();
        lemma_sort_by_start(p);
        let sorted = sort_by_start(p);
        let x = rs.last();
        let k = insert_point(sorted, x, 0);
        lemma_insert_point(sorted, x, 0);
        let out = sorted.take(k).push(x) + sorted.skip(k);
        assert(out == sort_by_start(rs));
        assert forall|i: int| 0 <= i < out.len() implies #[trigger] out[i] == (if i < k {
            sorted[i]
        } else if i == k {
            x
        } else {
            sorted[i - 1]
        }) by {}
        assert forall|i: int, j: int| 0 <= i < j < out.len() implies !starts_before(#[trigger] out[j], #[trigger] out[i]) by {
            if j < k {
                assert(!starts_before(sorted[j], sorted[i]));
            } else if j == k {
                assert(!starts_before(x, sorted[i]));
            } else if i < k {
                assert(!starts_before(sorted[j - 1], sorted[i]));
            } else if i == k {
                assert(starts_before(x, sorted[k]));
                if k < j - 1 {
                    assert(!starts_before(sorted[j - 1], sorted[k]));
                }
            } else {
                assert(!starts_before(sorted[j - 1], sorted[i - 1]));
            }
        }
        assert forall|y: Range| #[trigger] out.contains(y) <==> rs.contains(y) by {
            if out.contains(y) {
                let i = choose|i: int| 0 <= i < out.len() && out[i] == y;
                if i == k {
                    assert(rs[rs.len() - 1] == y);
                } else {
                    let m = if i < k {
                        i
                    } else {
                        i - 1
                    };
                    assert(sorted[m] == y);
                    assert(sorted.contains(y));
                    let q = choose|q: int| 0 <= q < p.len() && p[q] == y;
                    assert(rs[q] == y);
                }
            }
            if rs.contains(y) {
                let m = choose|m: int| 0 <= m < rs.len() && rs[m] == y;
                if m == rs.len() - 1 {
                    assert(out[k] == y);
                } else {
                    assert(p[m] == y);
                    assert(p.contains(y));
                    assert(sorted.contains(y));
                    let i = choose|i: int| 0 <= i < sorted.len() && sorted[i] == y;
                    if i < k {
                        assert(out[i] == y);
                    } else {
                        assert(out[i + 1] == y);
                    }
                }
            }
        }
    }
}

proof fn lemma_dedup(rs: Seq<Range>)
    requires
        sorted_by_start(rs),
    ensures
        sorted_by_start(dedup(rs)),
        forall|i: int| 0 <= i < dedup(rs).len() - 1 ==> #[trigger] dedup(rs)[i] != dedup(rs)[i + 1],
        forall|y: Range| #[trigger] dedup(rs).contains(y) ==> rs.contains(y),
    decreases rs.len(),
{
    if rs.len() > 0 {
        let p = rs.drop_last();
        assert(sorted_by_start(p)) by {
            assert forall|i: int, j: int| 0 <= i < j < p.len() implies !starts_before(#[trigger] p[j], #[trigger] p[i]) by {
                assert(p[i] == rs[i] && p[j] == rs[j]);
            }
        }
        lemma_dedup(p);
        let d = dedup(p);
        let x = rs.last();
        assert forall|y: Range| #[trigger] d.contains(y) implies rs.contains(y) by {
            let m = choose|m: int| 0 <= m < p.len() && p[m] == y;
            assert(rs[m] == y);
        }
        if !(d.len() > 0 && d.last() == x) {
            let out = d.push(x);
            assert(dedup(rs) == out);
            assert forall|i: int| 0 <= i < d.len() implies !starts_before(x, #[trigger] d[i]) by {
                assert(d.contains(d[i]));
                let m = choose|m: int| 0 <= m < p.len() && p[m] == d[i];
                assert(rs[m] == d[i]);
                assert(!starts_before(rs[rs.len() - 1], rs[m]));
            }
            assert forall|i: int, j: int| 0 <= i < j < out.len() implies !starts_before(#[trigger] out[j], #[trigger] out[i]) by {
                if j < d.len() {
                    assert(!starts_before(d[j], d[i]));
                }
            }
            assert forall|i: int| 0 <= i < out.len() - 1 implies #[trigger] out[i] != out[i + 1] by {
                if i + 1 < d.len() {
                    assert(d[i] != d[i + 1]);
                }
            }
            assert forall|y: Range| #[trigger] out.contains(y) implies rs.contains(y) by {
                let i = choose|i: int| 0 <= i < out.len() && out[i] == y;
                if i == d.len() {
                    assert(rs[rs.len() - 1] == y);
                } else {
                    assert(d[i] == y);
                    assert(d.contains(y));
                }
            }
        }
    }
}

proof fn lemma_keep_within(rs: Seq<Range>, scope: Range)
    ensures
        forall|y: Range| #[trigger] keep_within(rs, scope).contains(y) ==> within(y, scope),
    decreases rs.len(),
{
    if rs.len() > 0 {
        lemma_keep_within(rs.drop_last(), scope);
        let k = keep_within(rs.drop_last(), scope);
        assert forall|y: Range| #[trigger] keep_within(rs, scope).contains(y) implies within(y, scope) by {
            let i = choose|i: int| 0 <= i < keep_within(rs, scope).len() && keep_within(rs, scope)[i] == y;
            if i < k.len() {
                assert(k[i] == y);
                assert(k.contains(y));
            }
        }
    }
}

/// References come sorted by their start positions, with no range listed
/// twice in a row.
pub proof fn law_references_sorted(s: Seq<char>, st: SymbolTable, pos: Position, include_declaration: bool, scope: Option<Range>)
    ensures
        sorted_by_start(references(s, st, pos, include_declaration, scope)),
        forall|i: int|
            0 <= i < references(s, st, pos, include_declaration, scope).len() - 1 ==> #[trigger] references(
                s,
                st,
                pos,
                include_declaration,
                scope,
            )[i] != references(s, st, pos, include_declaration, scope)[i + 1],
{
    match identify(s, st, pos) {
        None => {},
        Some(tm) => {
            let t = syntax::tree_of(s);
            let uses = references_upto(s, t, st, tm, t.len() as int);
            let kept = match scope {
                Some(sc) => keep_within(uses, sc),
                None => uses,
            };
            let all = if include_declaration {
                match definition_range(tm, st) {
                    Some(d) => if scope is None || within(d, scope.unwrap()) {
                        seq![d] + kept
                    } else {
                        kept
                    },
                    None => kept,
                }
            } else {
                kept
            };
            lemma_sort_by_start(all);
            lemma_dedup(sort_by_start(all));
        },
    }
}

/// References scoped to a range (one module of several) all lie within it.
pub proof fn law_references_within_scope(s: Seq<char>, st: SymbolTable, pos: Position, include_declaration: bool, scope: Range)
    ensures
        forall|i: int|
            0 <= i < references(s, st, pos, include_declaration, Some(scope)).len() ==> within(
                #[trigger] references(s, st, pos, include_declaration, Some(scope))[i],
                scope,
            ),
{
    match identify(s, st, pos) {
        None => {},
        Some(tm) => {
            let t = syntax::tree_of(s);
            let uses = references_upto(s, t, st, tm, t.len() as int);
            let kept = keep_within(uses, scope);
            lemma_keep_within(uses, scope);
            let all = if include_declaration {
                match definition_range(tm, st) {
                    Some(d) => if within(d, scope) {
                        seq![d] + kept
                    } else {
                        kept
                    },
                    None => kept,
                }
            } else {
                kept
            };
            assert forall|y: Range| #[trigger] all.contains(y) implies within(y, scope) by {
                let i = choose|i: int| 0 <= i < all.len() && all[i] == y;
                if all.len() == kept.len() + 1 && i == 0 && include_declaration {
                    assert(within(y, scope));
                } else {
                    let j = if all.len() == kept.len() + 1 {
                        i - 1
                    } else {
                        i
                    };
                    assert(kept[j] == y);
                    assert(kept.contains(y));
                }
            }
            lemma_sort_by_start(all);
            lemma_dedup(sort_by_start(all));
            let r = references(s, st, pos, include_declaration, Some(scope));
            assert forall|i: int| 0 <= i < r.len() implies within(#[trigger] r[i], scope) by {
                assert(r.contains(r[i]));
                assert(sort_by_start(all).contains(r[i]));
                assert(all.contains(r[i]));
            }
        },
    }
}


proof fn lemma_dedup_keeps(rs: Seq<Range>)
    ensures
        forall|y: Range| #[trigger] rs.contains(y) ==> dedup(rs).contains(y),
    decreases rs.len(),
{
    if rs.len() > 0 {
        let p = rs.drop_last();
        lemma_dedup_keeps(p);
        let d = dedup(p);
        let x = rs.last();
        assert forall|y: Range| #[trigger] rs.contains(y) implies dedup(rs).contains(y) by {
            let m = choose|m: int| 0 <= m < rs.len() && rs[m] == y;
            if m < rs.len() - 1 {
                assert(p[m] == y);
                assert(p.contains(y));
                assert(d.contains(y));
                let i = choose|i: int| 0 <= i < d.len() && d[i] == y;
                if !(d.len() > 0 && d.last() == x) {
                    assert(d.push(x)[i] == y);
                }
            } else {
                if d.len() > 0 && d.last() == x {
                    assert(d[d.len() - 1] == y);
                } else {
                    assert(d.push(x)[d.len() as int] == y);
                }
            }
        }
    }
}

/// Without a symbol under the cursor there are no references; with one, and
/// the declaration asked for, its definition range is among them whenever
/// it lies within the scope (or no scope is given).
pub proof fn law_references_target(s: Seq<char>, st: SymbolTable, pos: Position, include_declaration: bool, scope: Option<Range>)
    ensures
        identify(s, st, pos) is None ==> references(s, st, pos, include_declaration, scope).len() == 0,
        ({
            let tm = identify(s, st, pos);
            include_declaration && tm is Some && definition_range(tm.unwrap(), st) is Some && (scope is None
                || within(definition_range(tm.unwrap(), st).unwrap(), scope.unwrap())) ==> references(
                s,
                st,
                pos,
                include_declaration,
                scope,
            ).contains(definition_range(tm.unwrap(), st).unwrap())
        }),
{
    match identify(s, st, pos) {
        None => {},
        Some(tm) => {
            let t = syntax::tree_of(s);
            let uses = references_upto(s, t, st, tm, t.len() as int);
            let kept = match scope {
                Some(sc) => keep_within(uses, sc),
                None => uses,
            };
            let all = if include_declaration {
                match definition_range(tm, st) {
                    Some(d) => if scope is None || within(d, scope.unwrap()) {
                        seq![d] + kept
                    } else {
                        kept
                    },
                    None => kept,
                }
            } else {
                kept
            };
            if include_declaration && definition_range(tm, st) is Some && (scope is None || within(
                definition_range(tm, st).unwrap(),
                scope.unwrap(),
            )) {
                let d = definition_range(tm, st).unwrap();
                assert(all[0] == d);
                assert(all.contains(d));
                lemma_sort_by_start(all);
                assert(sort_by_start(all).contains(d));
                lemma_dedup_keeps(sort_by_start(all));
            }
        },
    }
}


/// In a local context, a name that no parameter of the function around the
/// cursor has resolves to the first local with that name, numbered after the
/// parameters (locals share the index space that follows them, as numeric
/// `local.get` operands do).
pub proof fn law_local_name_after_parameters(w: Seq<char>, st: SymbolTable, pos: Position, fi: int, l: int)
    requires
        containing_function_index(st.functions@, pos.line) == Some(fi),
        forall|p: int|
            0 <= p < st.functions@[fi].parameters@.len() ==> (#[trigger] st.functions@[fi].parameters@[p]).spec_name()
                != Some(w),
        0 <= l < st.functions@[fi].locals@.len(),
        st.functions@[fi].locals@[l].spec_name() == Some(w),
        forall|j: int| 0 <= j < l ==> (#[trigger] st.functions@[fi].locals@[j]).spec_name() != Some(w),
    ensures
        identify_named(w, st, InstructionContext::Local, pos) == Some(
            scoped_target(
                TargetKind::Local,
                Some(w),
                (st.functions@[fi].locals@[l].index + st.functions@[fi].parameters@.len()) as usize,
                st.functions@[fi].start_byte,
            ),
        ),
{
    let f = st.functions@[fi];
    symbols::lemma_first_named(f.parameters@, w);
    symbols::lemma_first_named(f.locals@, w);
    if first_named(f.parameters@, w) is Some {
        let p = first_named(f.parameters@, w).unwrap();
        assert(f.parameters@[p].spec_name() == Some(w));
    }
    match first_named(f.locals@, w) {
        Some(i) => {
            if i < l {
                assert(f.locals@[i].spec_name() == Some(w));
            }
            if l < i {
                assert(f.locals@[l].spec_name() != Some(w));
            }
        },
        None => {
            assert(f.locals@[l].spec_name() != Some(w));
        },
    }
}


proof fn lemma_references_upto_has(s: Seq<char>, t: Seq<SyntaxNode>, st: SymbolTable, tm: TargetModel, n: int, j: int)
    requires
        0 <= j < n,
        is_reference(s, t, st, tm, j),
    ensures
        references_upto(s, t, st, tm, n).contains(range_of(s, t[j])),
    decreases n,
{
    let r = references_upto(s, t, st, tm, n - 1);
    if j == n - 1 {
        assert(references_upto(s, t, st, tm, n)[r.len() as int] == range_of(s, t[j]));
    } else {
        lemma_references_upto_has(s, t, st, tm, n - 1, j);
        let i = choose|i: int| 0 <= i < r.len() && r[i] == range_of(s, t[j]);
        assert(references_upto(s, t, st, tm, n)[i] == range_of(s, t[j]));
    }
}

/// Every use by name of a module-level symbol is among its references: when
/// the cursor's symbol is a function, global, table, memory, type or tag
/// named `w`, each identifier `w` written where that kind of symbol is
/// expected (after `call`, `global.get`, `table.get`, `memory.size`, a type
/// use, `throw`, ...) is listed.
pub proof fn law_named_uses_are_references(s: Seq<char>, st: SymbolTable, pos: Position, w: Seq<char>, j: int)
    requires
        identify(s, st, pos) is Some,
        identify(s, st, pos).unwrap().name == Some(w),
        0 < j < syntax::tree_of(s).len(),
        syntax::tree_of(s)[j].kind == NodeKind::Identifier,
        syntax::text_of(s, syntax::tree_of(s)[j]) == w,
        ({
            let k = identify(s, st, pos).unwrap().kind;
            let c = ref_context(s, syntax::tree_of(s), j);
            ||| k == TargetKind::Function && c == RefContext::Function
            ||| k == TargetKind::Global && c == RefContext::Global
            ||| k == TargetKind::Table && c == RefContext::Table
            ||| k == TargetKind::Memory && c == RefContext::Memory
            ||| k == TargetKind::Type && c == RefContext::Type
            ||| k == TargetKind::Tag && c == RefContext::Tag
        }),
    ensures
        references(s, st, pos, false, None).contains(range_of(s, syntax::tree_of(s)[j])),
        references(s, st, pos, true, None).contains(range_of(s, syntax::tree_of(s)[j])),
{
    let t = syntax::tree_of(s);
    let tm = identify(s, st, pos).unwrap();
    assert(is_reference(s, t, st, tm, j));
    let uses = references_upto(s, t, st, tm, t.len() as int);
    lemma_references_upto_has(s, t, st, tm, t.len() as int, j);
    let x = range_of(s, t[j]);
    lemma_sort_by_start(uses);
    lemma_dedup_keeps(sort_by_start(uses));
    assert(uses.contains(x));
    assert(sort_by_start(uses).contains(x));
    assert(dedup(sort_by_start(uses)).contains(x));
    assert(references(s, st, pos, false, None) == dedup(sort_by_start(uses)));
    match definition_range(tm, st) {
        Some(d) => {
            let all = seq![d] + uses;
            let k = choose|k: int| 0 <= k < uses.len() && uses[k] == x;
            assert(all[k + 1] == x);
            assert(all.contains(x));
            lemma_sort_by_start(all);
            lemma_dedup_keeps(sort_by_start(all));
            assert(sort_by_start(all).contains(x));
            assert(dedup(sort_by_start(all)).contains(x));
            assert(references(s, st, pos, true, None) == dedup(sort_by_start(all)));
        },
        None => {
            assert(references(s, st, pos, true, None) == dedup(sort_by_start(uses)));
        },
    }
}


/// Every use by index of a module-level symbol is among its references: when
/// the cursor's symbol is a function, global, table, memory, type or tag with
/// index `v`, each decimal `v` written where that kind of symbol is expected
/// is listed.
pub proof fn law_indexed_uses_are_references(s: Seq<char>, st: SymbolTable, pos: Position, j: int)
    requires
        identify(s, st, pos) is Some,
        0 < j < syntax::tree_of(s).len(),
        syntax::tree_of(s)[j].kind == NodeKind::Number,
        parser::wat_nat_value(syntax::text_of(s, syntax::tree_of(s)[j])) is Some,
        parser::wat_nat_value(syntax::text_of(s, syntax::tree_of(s)[j])).unwrap() as usize == identify(
            s,
            st,
            pos,
        ).unwrap().index,
        ({
            let k = identify(s, st, pos).unwrap().kind;
            let c = ref_context(s, syntax::tree_of(s), j);
            ||| k == TargetKind::Function && c == RefContext::Function
            ||| k == TargetKind::Global && c == RefContext::Global
            ||| k == TargetKind::Table && c == RefContext::Table
            ||| k == TargetKind::Memory && c == RefContext::Memory
            ||| k == TargetKind::Type && c == RefContext::Type
            ||| k == TargetKind::Tag && c == RefContext::Tag
        }),
    ensures
        references(s, st, pos, false, None).contains(range_of(s, syntax::tree_of(s)[j])),
{
    let t = syntax::tree_of(s);
    let tm = identify(s, st, pos).unwrap();
    assert(is_reference(s, t, st, tm, j));
    let uses = references_upto(s, t, st, tm, t.len() as int);
    lemma_references_upto_has(s, t, st, tm, t.len() as int, j);
    let x = range_of(s, t[j]);
    lemma_sort_by_start(uses);
    lemma_dedup_keeps(sort_by_start(uses));
    assert(sort_by_start(uses).contains(x));
    assert(dedup(sort_by_start(uses)).contains(x));
    assert(references(s, st, pos, false, None) == dedup(sort_by_start(uses)));
}

/// A local or parameter is found by name only inside its own function: when
/// the cursor's symbol is a local or parameter named `w`, each identifier
/// `w` in a local context on a line of the function it belongs to is
/// listed.
pub proof fn law_local_uses_are_references(s: Seq<char>, st: SymbolTable, pos: Position, w: Seq<char>, j: int)
    requires
        identify(s, st, pos) is Some,
        identify(s, st, pos).unwrap().name == Some(w),
        identify(s, st, pos).unwrap().kind == TargetKind::Local || identify(s, st, pos).unwrap().kind
            == TargetKind::Parameter,
        0 < j < syntax::tree_of(s).len(),
        syntax::tree_of(s)[j].kind == NodeKind::Identifier,
        syntax::text_of(s, syntax::tree_of(s)[j]) == w,
        ref_context(s, syntax::tree_of(s), j) == RefContext::Local,
        in_same_function(
            st,
            syntax::row_at(s, syntax::tree_of(s)[j].start as int) as u32,
            identify(s, st, pos).unwrap().function_start_byte,
        ),
    ensures
        references(s, st, pos, false, None).contains(range_of(s, syntax::tree_of(s)[j])),
{
    let t = syntax::tree_of(s);
    let tm = identify(s, st, pos).unwrap();
    assert(is_reference(s, t, st, tm, j));
    let uses = references_upto(s, t, st, tm, t.len() as int);
    lemma_references_upto_has(s, t, st, tm, t.len() as int, j);
    let x = range_of(s, t[j]);
    lemma_sort_by_start(uses);
    lemma_dedup_keeps(sort_by_start(uses));
    assert(sort_by_start(uses).contains(x));
    assert(dedup(sort_by_start(uses)).contains(x));
    assert(references(s, st, pos, false, None) == dedup(sort_by_start(uses)));
}


/// The context a plain instruction gives its operands follows its
/// namespace: `local.*` locals, `global.*` globals, `table.*` tables,
/// `memory.*` memories, `struct.*` and `array.*` types, and `throw` a tag.
pub proof fn law_plain_instruction_contexts(w: Seq<char>)
    ensures
        text::starts_with(w, "local."@) ==> plain_context(w) == Some(InstructionContext::Local),
        text::starts_with(w, "global."@) ==> plain_context(w) == Some(InstructionContext::Global),
        text::starts_with(w, "table."@) ==> plain_context(w) == Some(InstructionContext::Table),
        text::starts_with(w, "memory."@) ==> plain_context(w) == Some(InstructionContext::Memory),
        text::starts_with(w, "struct."@) || text::starts_with(w, "array."@) ==> plain_context(w) == Some(
            InstructionContext::Type,
        ),
        w == "throw"@ ==> plain_context(w) == Some(InstructionContext::Tag),
{
    reveal_strlit("local.");
    reveal_strlit("global.");
    reveal_strlit("table.");
    reveal_strlit("memory.");
    reveal_strlit("struct.");
    reveal_strlit("array.");
    reveal_strlit("br");
    reveal_strlit("call");
    reveal_strlit("call_indirect");
    reveal_strlit("ref.cast");
    reveal_strlit("ref.test");
    reveal_strlit("call_ref");
    reveal_strlit("return_call_ref");
    reveal_strlit("throw");
    reveal_strlit("rethrow");
    if text::starts_with(w, "local."@) {
        assert(w.take(6) =~= "local."@);
        assert(w.take(6)[0] == w[0]);
    }
    if text::starts_with(w, "global."@) {
        assert(w.take(7) =~= "global."@);
        assert(w.take(7)[0] == w[0]);
    }
    if text::starts_with(w, "table."@) {
        assert(w.take(6) =~= "table."@);
        assert(w.take(6)[0] == w[0]);
    }
    if text::starts_with(w, "memory."@) {
        assert(w.take(7) =~= "memory."@);
        assert(w.take(7)[0] == w[0]);
    }
    if text::starts_with(w, "struct."@) {
        assert(w.take(7) =~= "struct."@);
    }
    if text::starts_with(w, "array."@) {
        assert(w.take(6) =~= "array."@);
    }
    if w == "throw"@ {
        assert(w.len() == 5 && w[0] == 't' && w[1] == 'h');
        assert(!text::starts_with(w, "br"@)) by {
            assert(w.take(2)[0] != "br"@[0]);
        }
        assert(!text::starts_with(w, "call"@)) by {
            assert(w.take(4)[0] != "call"@[0]);
        }
        assert(!text::starts_with(w, "local."@));
        assert(!text::starts_with(w, "global."@));
        assert(!text::starts_with(w, "table."@));
        assert(!text::starts_with(w, "memory."@));
        assert(!text::starts_with(w, "struct."@));
        assert(!text::starts_with(w, "array."@));
    }
}

} // verus!
