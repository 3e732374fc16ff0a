//! Semantic tokens: the classification of every `$identifier` and numeric
//! index of a document against the symbol tables of its modules, for syntax
//! highlighting. Only resolved symbols get a token.
use vstd::prelude::*;
use crate::parser;
use crate::parser::{Doc, ModuleInfo, doc_wf, head_is_exec, node_chars, pos_exec};
use crate::symbols;
use crate::symbols::{Named, SymbolTable, TypeDef, TypeKind};
use crate::symbol_lookup;
use crate::syntax;
use crate::syntax::{NodeKind, SyntaxNode};
use crate::text;
use crate::types::{Position, Range};
use crate::symbol_lookup::{find_block_in_function, find_local_in_function, find_param_in_function};
use crate::utils::find_containing_function;
use crate::utils::InstructionContext;

verus! {

/// Semantic classification of a single token.
#[derive(Debug, Clone, Copy, PartialEq, Eq, Structural)]
pub enum SemanticTokenKind {
    Function,
    Parameter,
    Local,
    Global,
    Table,
    Memory,
    Type,
    Tag,
    Data,
    Elem,
    Label,
    /// Struct field name
    Property,
    /// Module name in `(module $name ...)`
    Module,
}

/// A classified token with absolute document coordinates.
#[derive(Debug, Clone, Copy, PartialEq, Eq, Structural)]
pub struct SemanticTokenInfo {
    pub line: u32,
    pub start_char: u32,
    pub length: u32,
    pub kind: SemanticTokenKind,
    pub is_declaration: bool,
    pub is_readonly: bool,
}

/// Reference context for a token, derived from its enclosing syntax.
#[derive(Debug, Clone, Copy, PartialEq, Eq, Structural)]
pub enum RefContext {
    Function,
    Global,
    Local,
    Label,
    Table,
    Memory,
    Type,
    Tag,
    Data,
    Elem,
    /// No specific context: name-based resolution (identifiers only)
    General,
    /// Definitely not a symbol reference (such as an `i32.const` operand)
    Literal,
}

/// The symbol table of the module whose range contains `line`, else of the
/// first module.
pub open spec fn symbols_for_line(mods: Seq<ModuleInfo>, line: u32) -> Option<SymbolTable> {
    match module_at_line(mods, line, 0) {
        Some(i) => Some(mods[i].symbols),
        None => if mods.len() > 0 {
            Some(mods[0].symbols)
        } else {
            None
        },
    }
}

pub open spec fn module_at_line(mods: Seq<ModuleInfo>, line: u32, i: int) -> Option<int>
    decreases mods.len() - i,
{
    if i < 0 || i >= mods.len() {
        None
    } else if mods[i].range.start.line <= line && line <= mods[i].range.end.line {
        Some(i)
    } else {
        module_at_line(mods, line, i + 1)
    }
}

fn symbols_for_line_exec(mods: &Vec<ModuleInfo>, line: u32) -> (r: Option<&SymbolTable>)
    ensures
        match symbols_for_line(mods@, line) {
            Some(st) => r == Some(&st),
            None => r is None,
        },
{
    let mut i: usize = 0;
    while i < mods.len()
        invariant
            module_at_line(mods@, line, 0) == module_at_line(mods@, line, i as int),
        decreases mods@.len() - i,
    {
        if mods[i].range.start.line <= line && line <= mods[i].range.end.line {
            return Some(&mods[i].symbols);
        }
        i = i + 1;
    }
    if mods.len() > 0 {
        Some(&mods[0].symbols)
    } else {
        None
    }
}

/// The entity kind that an instruction's operands name, if any.
pub open spec fn instr_context(w: Seq<char>) -> Option<InstructionContext> {
    if text::starts_with(w, "struct."@) || text::starts_with(w, "array."@) || w == "ref.cast"@
        || w == "ref.test"@ || w == "call_ref"@ || w == "return_call_ref"@ {
        Some(InstructionContext::Type)
    } else if text::starts_with(w, "br"@) {
        Some(InstructionContext::Branch)
    } else if w == "call_indirect"@ || w == "return_call_indirect"@ {
        Some(InstructionContext::Table)
    } else if text::starts_with(w, "call"@) || text::starts_with(w, "return_call"@) || w == "ref.func"@ {
        Some(InstructionContext::Call)
    } else if text::starts_with(w, "local."@) {
        Some(InstructionContext::Local)
    } else if text::starts_with(w, "global."@) {
        Some(InstructionContext::Global)
    } else if w == "table.init"@ || w == "elem.drop"@ {
        Some(InstructionContext::Elem)
    } else if text::starts_with(w, "table."@) {
        Some(InstructionContext::Table)
    } else if w == "memory.init"@ || w == "data.drop"@ {
        Some(InstructionContext::Data)
    } else if text::starts_with(w, "memory."@) {
        Some(InstructionContext::Memory)
    } else if w == "throw"@ || w == "rethrow"@ {
        Some(InstructionContext::Tag)
    } else {
        None
    }
}

fn instr_context_exec(w: &Vec<char>) -> (r: Option<InstructionContext>)
    ensures
        r == instr_context(w@),
{
    let c = w.as_slice();
    if text::starts_with_str(c, "struct.") || text::starts_with_str(c, "array.") || text::chars_eq_str(c, "ref.cast")
        || text::chars_eq_str(c, "ref.test") || text::chars_eq_str(c, "call_ref") || text::chars_eq_str(c, "return_call_ref") {
        Some(InstructionContext::Type)
    } else if text::starts_with_str(c, "br") {
        Some(InstructionContext::Branch)
    } else if text::chars_eq_str(c, "call_indirect") || text::chars_eq_str(c, "return_call_indirect") {
        Some(InstructionContext::Table)
    } else if text::starts_with_str(c, "call") || text::starts_with_str(c, "return_call") || text::chars_eq_str(c, "ref.func") {
        Some(InstructionContext::Call)
    } else if text::starts_with_str(c, "local.") {
        Some(InstructionContext::Local)
    } else if text::starts_with_str(c, "global.") {
        Some(InstructionContext::Global)
    } else if text::chars_eq_str(c, "table.init") || text::chars_eq_str(c, "elem.drop") {
        Some(InstructionContext::Elem)
    } else if text::starts_with_str(c, "table.") {
        Some(InstructionContext::Table)
    } else if text::chars_eq_str(c, "memory.init") || text::chars_eq_str(c, "data.drop") {
        Some(InstructionContext::Data)
    } else if text::starts_with_str(c, "memory.") {
        Some(InstructionContext::Memory)
    } else if text::chars_eq_str(c, "throw") || text::chars_eq_str(c, "rethrow") {
        Some(InstructionContext::Tag)
    } else {
        None
    }
}

pub open spec fn instruction_ref_context(c: InstructionContext) -> RefContext {
    match c {
        InstructionContext::Call => RefContext::Function,
        InstructionContext::Global => RefContext::Global,
        InstructionContext::Local => RefContext::Local,
        InstructionContext::Branch | InstructionContext::Block => RefContext::Label,
        InstructionContext::Table => RefContext::Table,
        InstructionContext::Memory => RefContext::Memory,
        InstructionContext::Type => RefContext::Type,
        InstructionContext::Tag => RefContext::Tag,
        InstructionContext::Data => RefContext::Data,
        InstructionContext::Elem => RefContext::Elem,
        InstructionContext::Function | InstructionContext::General => RefContext::General,
    }
}

fn instruction_ref_context_exec(c: InstructionContext) -> (r: RefContext)
    ensures
        r == instruction_ref_context(c),
{
    match c {
        InstructionContext::Call => RefContext::Function,
        InstructionContext::Global => RefContext::Global,
        InstructionContext::Local => RefContext::Local,
        InstructionContext::Branch | InstructionContext::Block => RefContext::Label,
        InstructionContext::Table => RefContext::Table,
        InstructionContext::Memory => RefContext::Memory,
        InstructionContext::Type => RefContext::Type,
        InstructionContext::Tag => RefContext::Tag,
        InstructionContext::Data => RefContext::Data,
        InstructionContext::Elem => RefContext::Elem,
        InstructionContext::Function | InstructionContext::General => RefContext::General,
    }
}

/// The last non-comment child of `p` at or before index `i`, or only a
/// keyword one when `keyword`.
pub open spec fn prev_from(t: Seq<SyntaxNode>, p: int, i: int, keyword: bool) -> Option<usize>
    decreases i - p,
{
    if i <= p || i < 0 {
        None
    } else if t[i].parent == p && !syntax::is_comment(t[i].kind) && (!keyword || t[i].kind
        == NodeKind::Keyword) {
        Some(i as usize)
    } else {
        prev_from(t, p, i - 1, keyword)
    }
}

/// The sibling just before node `j` (comments left out).
pub open spec fn prev_sibling(t: Seq<SyntaxNode>, j: int) -> Option<usize> {
    prev_from(t, t[j].parent as int, j - 1, false)
}

/// The nearest keyword among the siblings before node `j`.
pub open spec fn prev_keyword(t: Seq<SyntaxNode>, j: int) -> Option<usize> {
    prev_from(t, t[j].parent as int, j - 1, true)
}

pub proof fn lemma_prev_from(t: Seq<SyntaxNode>, p: int, i: int, keyword: bool)
    requires
        i < t.len() <= usize::MAX,
    ensures
        prev_from(t, p, i, keyword) matches Some(h) ==> p < h <= i && t[h as int].parent == p && !syntax::is_comment(
            t[h as int].kind,
        ) && (keyword ==> t[h as int].kind == NodeKind::Keyword),
    decreases i - p,
{
    if i > p && i >= 0 && !(t[i].parent == p && !syntax::is_comment(t[i].kind) && (!keyword
        || t[i].kind == NodeKind::Keyword)) {
        lemma_prev_from(t, p, i - 1, keyword);
    }
}

pub(crate) fn prev_from_exec(d: &Doc, p: usize, j: usize, keyword: bool) -> (r: Option<usize>)
    requires
        doc_wf(d),
        p < j < d.tree@.len(),
    ensures
        r == prev_from(d.tree@, p as int, j - 1, keyword),
        r matches Some(h) ==> p < h < j,
{
    let _tl = d.tree.len();
    proof {
        lemma_prev_from(d.tree@, p as int, j - 1, keyword);
    }
    let mut i = j;
    while i > p + 1
        invariant
            doc_wf(d),
            p < i <= j < d.tree@.len(),
            prev_from(d.tree@, p as int, j - 1, keyword) == prev_from(d.tree@, p as int, i - 1, keyword),
        decreases i,
    {
        let n = d.tree[i - 1];
        if n.parent == p && !(n.kind == NodeKind::LineComment || n.kind == NodeKind::BlockComment)
            && (!keyword || n.kind == NodeKind::Keyword) {
            return Some(i - 1);
        }
        i = i - 1;
    }
    None
}

/// List `p` is a module field: a top-level list, or a list inside a module.
pub open spec fn is_field(s: Seq<char>, t: Seq<SyntaxNode>, p: int) -> bool {
    &&& p > 0
    &&& t[p].kind == NodeKind::List
    &&& (t[p].parent == 0 || syntax::head_is(s, t, t[p].parent as int, "module"@))
}

pub(crate) fn is_field_exec(d: &Doc, p: usize) -> (b: bool)
    requires
        doc_wf(d),
        p < d.tree@.len(),
    ensures
        b == is_field(d.chars@, d.tree@, p as int),
{
    if p == 0 || d.tree[p].kind != NodeKind::List {
        return false;
    }
    proof {
        assert(d.tree@[p as int].start <= d.tree@[p as int].end);
    }
    let q = d.tree[p].parent;
    q == 0 || head_is_exec(d, q, "module")
}


/// The kind of entity that a module field or import descriptor headed by `w`
/// declares.
pub open spec fn field_decl_kind(w: Seq<char>) -> Option<SemanticTokenKind> {
    if w == "func"@ {
        Some(SemanticTokenKind::Function)
    } else if w == "global"@ {
        Some(SemanticTokenKind::Global)
    } else if w == "table"@ {
        Some(SemanticTokenKind::Table)
    } else if w == "memory"@ {
        Some(SemanticTokenKind::Memory)
    } else if w == "tag"@ {
        Some(SemanticTokenKind::Tag)
    } else if w == "data"@ {
        Some(SemanticTokenKind::Data)
    } else if w == "elem"@ {
        Some(SemanticTokenKind::Elem)
    } else if w == "type"@ {
        Some(SemanticTokenKind::Type)
    } else {
        None
    }
}

/// Whether a list headed by `w` with parent list `q` declares its name: a
/// module field, an import descriptor, or a type inside a `(rec ...)` group.
pub open spec fn declares(s: Seq<char>, t: Seq<SyntaxNode>, p: int, k: SemanticTokenKind) -> bool {
    let q = t[p].parent as int;
    ||| is_field(s, t, p)
    ||| (syntax::head_is(s, t, q, "import"@) && (k == SemanticTokenKind::Function || k
        == SemanticTokenKind::Global || k == SemanticTokenKind::Table || k == SemanticTokenKind::Memory
        || k == SemanticTokenKind::Tag))
    ||| (k == SemanticTokenKind::Type && syntax::head_is(s, t, q, "rec"@))
}

/// The kind that identifier `j` declares, if it stands where a name is
/// declared: right after the head keyword of a declaring form, or right
/// after a block keyword.
pub open spec fn decl_kind(s: Seq<char>, t: Seq<SyntaxNode>, j: int) -> Option<SemanticTokenKind> {
    let p = t[j].parent as int;
    match prev_sibling(t, j) {
        Some(h) => if t[h as int].kind == NodeKind::Keyword {
            let w = syntax::text_of(s, t[h as int]);
            if prev_sibling(t, h as int) is None {
                if w == "module"@ {
                    Some(SemanticTokenKind::Module)
                } else if w == "param"@ {
                    Some(SemanticTokenKind::Parameter)
                } else if w == "local"@ {
                    Some(SemanticTokenKind::Local)
                } else if w == "field"@ {
                    Some(SemanticTokenKind::Property)
                } else if parser::block_word(w) {
                    Some(SemanticTokenKind::Label)
                } else {
                    match field_decl_kind(w) {
                        Some(k) => if declares(s, t, p, k) {
                            Some(k)
                        } else {
                            None
                        },
                        None => None,
                    }
                }
            } else if parser::block_word(w) {
                Some(SemanticTokenKind::Label)
            } else {
                None
            }
        } else {
            None
        },
        None => None,
    }
}

/// The context that the list or keyword `w` gives the names after it when it
/// refers to entities rather than declaring them.
pub open spec fn use_context(w: Seq<char>) -> Option<RefContext> {
    if w == "func"@ || w == "start"@ {
        Some(RefContext::Function)
    } else if w == "global"@ {
        Some(RefContext::Global)
    } else if w == "table"@ {
        Some(RefContext::Table)
    } else if w == "memory"@ {
        Some(RefContext::Memory)
    } else if w == "tag"@ {
        Some(RefContext::Tag)
    } else if w == "type"@ || w == "ref"@ || w == "sub"@ || w == "rec"@ || w == "null"@ || w == "final"@ {
        Some(RefContext::Type)
    } else {
        None
    }
}

/// Whether a list stands among the children of `p` between indices `a` and `b`.
pub open spec fn list_between(t: Seq<SyntaxNode>, p: int, a: int, b: int) -> bool {
    exists|i: int| a < i < b && t[i].parent == p && #[trigger] t[i].kind == NodeKind::List
}

/// The reference context of identifier or number `j`: decided by the nearest
/// keyword before it in its list.
pub open spec fn ref_context(s: Seq<char>, t: Seq<SyntaxNode>, j: int) -> RefContext {
    let p = t[j].parent as int;
    match prev_keyword(t, j) {
        None => RefContext::General,
        Some(h) => {
            let w = syntax::text_of(s, t[h as int]);
            let is_head = prev_sibling(t, h as int) is None;
            if w == "catch"@ || w == "catch_ref"@ {
                if prev_sibling(t, j) == Some(h) {
                    RefContext::Tag
                } else {
                    RefContext::Label
                }
            } else if w == "catch_all"@ || w == "catch_all_ref"@ || w == "delegate"@ {
                RefContext::Label
            } else if is_head && is_field(s, t, p) {
                if w == "start"@ {
                    RefContext::Function
                } else if w == "elem"@ {
                    if list_between(t, p, h as int, j) {
                        RefContext::Function
                    } else {
                        RefContext::Literal
                    }
                } else {
                    RefContext::General
                }
            } else {
                match use_context(w) {
                    Some(c) => c,
                    None => match instr_context(w) {
                        Some(c) => instruction_ref_context(c),
                        None => RefContext::Literal,
                    },
                }
            }
        }
    }
}

pub(crate) fn word_is(d: &Doc, k: usize, w: &str) -> (b: bool)
    requires
        doc_wf(d),
        k < d.tree@.len(),
    ensures
        b == (syntax::text_of(d.chars@, d.tree@[k as int]) == w@),
{
    proof {
        assert(d.tree@[k as int].start <= d.tree@[k as int].end);
    }
    syntax::range_is(&d.chars, d.tree[k].start, d.tree[k].end, w)
}

pub(crate) fn block_word_exec(d: &Doc, k: usize) -> (b: bool)
    requires
        doc_wf(d),
        k < d.tree@.len(),
    ensures
        b == parser::block_word(syntax::text_of(d.chars@, d.tree@[k as int])),
{
    word_is(d, k, "block") || word_is(d, k, "loop") || word_is(d, k, "if") || word_is(d, k, "try")
        || word_is(d, k, "try_table")
}

fn field_decl_kind_exec(d: &Doc, k: usize) -> (r: Option<SemanticTokenKind>)
    requires
        doc_wf(d),
        k < d.tree@.len(),
    ensures
        r == field_decl_kind(syntax::text_of(d.chars@, d.tree@[k as int])),
{
    if word_is(d, k, "func") {
        Some(SemanticTokenKind::Function)
    } else if word_is(d, k, "global") {
        Some(SemanticTokenKind::Global)
    } else if word_is(d, k, "table") {
        Some(SemanticTokenKind::Table)
    } else if word_is(d, k, "memory") {
        Some(SemanticTokenKind::Memory)
    } else if word_is(d, k, "tag") {
        Some(SemanticTokenKind::Tag)
    } else if word_is(d, k, "data") {
        Some(SemanticTokenKind::Data)
    } else if word_is(d, k, "elem") {
        Some(SemanticTokenKind::Elem)
    } else if word_is(d, k, "type") {
        Some(SemanticTokenKind::Type)
    } else {
        None
    }
}

proof fn lemma_parent(d: &Doc, j: int)
    requires
        doc_wf(d),
        0 < j < d.tree@.len(),
    ensures
        d.tree@[j].parent < j,
{
    assert(d.tree@[j].start <= d.tree@[j].end);
}

fn prev_sibling_exec(d: &Doc, j: usize) -> (r: Option<usize>)
    requires
        doc_wf(d),
        0 < j < d.tree@.len(),
    ensures
        r == prev_sibling(d.tree@, j as int),
        r matches Some(h) ==> 0 < h < j,
{
    proof {
        lemma_parent(d, j as int);
    }
    prev_from_exec(d, d.tree[j].parent, j, false)
}

fn decl_kind_exec(d: &Doc, j: usize) -> (r: Option<SemanticTokenKind>)
    requires
        doc_wf(d),
        0 < j < d.tree@.len(),
    ensures
        r == decl_kind(d.chars@, d.tree@, j as int),
{
    proof {
        lemma_parent(d, j as int);
    }
    let p = d.tree[j].parent;
    match prev_sibling_exec(d, j) {
        Some(h) => {
            if d.tree[h].kind != NodeKind::Keyword {
                return None;
            }
            if prev_sibling_exec(d, h).is_none() {
                if word_is(d, h, "module") {
                    Some(SemanticTokenKind::Module)
                } else if word_is(d, h, "param") {
                    Some(SemanticTokenKind::Parameter)
                } else if word_is(d, h, "local") {
                    Some(SemanticTokenKind::Local)
                } else if word_is(d, h, "field") {
                    Some(SemanticTokenKind::Property)
                } else if block_word_exec(d, h) {
                    Some(SemanticTokenKind::Label)
                } else {
                    match field_decl_kind_exec(d, h) {
                        Some(k) => {
                            let q = d.tree[p].parent;
                            proof {
                                assert(d.tree@[p as int].start <= d.tree@[p as int].end);
                            }
                            let decl = is_field_exec(d, p) || (head_is_exec(d, q, "import") && (k
                                == SemanticTokenKind::Function || k == SemanticTokenKind::Global || k
                                == SemanticTokenKind::Table || k == SemanticTokenKind::Memory || k
                                == SemanticTokenKind::Tag)) || (k == SemanticTokenKind::Type
                                && head_is_exec(d, q, "rec"));
                            if decl {
                                Some(k)
                            } else {
                                None
                            }
                        },
                        None => None,
                    }
                }
            } else if block_word_exec(d, h) {
                Some(SemanticTokenKind::Label)
            } else {
                None
            }
        },
        None => None,
    }
}

fn use_context_exec(d: &Doc, k: usize) -> (r: Option<RefContext>)
    requires
        doc_wf(d),
        k < d.tree@.len(),
    ensures
        r == use_context(syntax::text_of(d.chars@, d.tree@[k as int])),
{
    if word_is(d, k, "func") || word_is(d, k, "start") {
        Some(RefContext::Function)
    } else if word_is(d, k, "global") {
        Some(RefContext::Global)
    } else if word_is(d, k, "table") {
        Some(RefContext::Table)
    } else if word_is(d, k, "memory") {
        Some(RefContext::Memory)
    } else if word_is(d, k, "tag") {
        Some(RefContext::Tag)
    } else if word_is(d, k, "type") || word_is(d, k, "ref") || word_is(d, k, "sub") || word_is(d, k, "rec")
        || word_is(d, k, "null") || word_is(d, k, "final") {
        Some(RefContext::Type)
    } else {
        None
    }
}

fn list_between_exec(d: &Doc, p: usize, a: usize, b: usize) -> (r: bool)
    requires
        doc_wf(d),
        a < b <= d.tree@.len(),
    ensures
        r == list_between(d.tree@, p as int, a as int, b as int),
{
    let mut i = a + 1;
    while i < b
        invariant
            doc_wf(d),
            a < i <= b <= d.tree@.len(),
            forall|m: int| a < m < i ==> !(d.tree@[m].parent == p && #[trigger] d.tree@[m].kind == NodeKind::List),
        decreases b - i,
    {
        if d.tree[i].parent == p && d.tree[i].kind == NodeKind::List {
            return true;
        }
        i = i + 1;
    }
    false
}

pub(crate) fn ref_context_exec(d: &Doc, j: usize) -> (r: RefContext)
    requires
        doc_wf(d),
        0 < j < d.tree@.len(),
    ensures
        r == ref_context(d.chars@, d.tree@, j as int),
{
    proof {
        lemma_parent(d, j as int);
    }
    let p = d.tree[j].parent;
    let h = match prev_from_exec(d, p, j, true) {
        None => {
            return RefContext::General;
        },
        Some(h) => h,
    };
    let is_head = prev_sibling_exec(d, h).is_none();
    if word_is(d, h, "catch") || word_is(d, h, "catch_ref") {
        if prev_sibling_exec(d, j) == Some(h) {
            RefContext::Tag
        } else {
            RefContext::Label
        }
    } else if word_is(d, h, "catch_all") || word_is(d, h, "catch_all_ref") || word_is(d, h, "delegate") {
        RefContext::Label
    } else if is_head && is_field_exec(d, p) {
        if word_is(d, h, "start") {
            RefContext::Function
        } else if word_is(d, h, "elem") {
            if list_between_exec(d, p, h, j) {
                RefContext::Function
            } else {
                RefContext::Literal
            }
        } else {
            RefContext::General
        }
    } else {
        match use_context_exec(d, h) {
            Some(c) => c,
            None => {
                let w = node_chars(d, h);
                match instr_context_exec(&w) {
                    Some(c) => instruction_ref_context_exec(c),
                    None => RefContext::Literal,
                }
            },
        }
    }
}


/// Type `td` is a struct with a field named `w`.
pub open spec fn type_has_field(td: TypeDef, w: Seq<char>) -> bool {
    &&& td.kind is Struct
    &&& exists|k: int|
        0 <= k < td.kind->fields@.len() && #[trigger] text::opt_view(td.kind->fields@[k].0) == Some(w)
}

/// Some struct type of the module has a field named `w`.
pub open spec fn is_struct_field_name(st: SymbolTable, w: Seq<char>) -> bool {
    exists|i: int| 0 <= i < st.types@.len() && type_has_field(#[trigger] st.types@[i], w)
}

fn type_has_field_exec(td: &TypeDef, w: &Vec<char>) -> (b: bool)
    ensures
        b == type_has_field(*td, w@),
{
    match &td.kind {
        TypeKind::Struct { fields } => {
            let mut k: usize = 0;
            while k < fields.len()
                invariant
                    k <= fields@.len(),
                    td.kind is Struct,
                    td.kind->fields == *fields,
                    forall|m: int| 0 <= m < k ==> #[trigger] text::opt_view(fields@[m].0) != Some(w@),
                decreases fields@.len() - k,
            {
                if opt_eq_chars(&fields[k].0, w) {
                    assert(text::opt_view(fields@[k as int].0) == Some(w@));
                    return true;
                }
                k = k + 1;
            }
            false
        },
        _ => false,
    }
}

fn is_struct_field_name_exec(st: &SymbolTable, w: &Vec<char>) -> (b: bool)
    ensures
        b == is_struct_field_name(*st, w@),
{
    let mut i: usize = 0;
    while i < st.types.len()
        invariant
            i <= st.types@.len(),
            forall|m: int| 0 <= m < i ==> !type_has_field(#[trigger] st.types@[m], w@),
        decreases st.types@.len() - i,
    {
        if type_has_field_exec(&st.types[i], w) {
            return true;
        }
        i = i + 1;
    }
    false
}

fn opt_eq_chars(o: &Option<String>, c: &Vec<char>) -> (r: bool)
    ensures
        r == (text::opt_view(*o) == Some(c@)),
{
    match o {
        Some(st) => {
            let sc = text::chars_of(st.as_str());
            text::chars_eq(sc.as_slice(), c.as_slice())
        },
        None => false,
    }
}

/// A name used as a local: a parameter, else a local, of the containing
/// function.
pub open spec fn resolve_local_name(st: SymbolTable, pos: Position, w: Seq<char>) -> Option<(SemanticTokenKind, bool)> {
    match symbol_lookup::containing_function(st, pos) {
        Some(f) => if symbols::first_named(f.parameters@, w) is Some {
            Some((SemanticTokenKind::Parameter, false))
        } else if symbols::first_named(f.locals@, w) is Some {
            Some((SemanticTokenKind::Local, false))
        } else {
            None
        },
        None => None,
    }
}

/// A name used as a branch target: a label of the containing function.
pub open spec fn resolve_label(st: SymbolTable, pos: Position, w: Seq<char>) -> Option<(SemanticTokenKind, bool)> {
    match symbol_lookup::containing_function(st, pos) {
        Some(f) => if symbols::first_named(f.blocks@, w) is Some {
            Some((SemanticTokenKind::Label, false))
        } else {
            None
        },
        None => None,
    }
}

/// A name in a type context: a type, else a struct field, else a label.
pub open spec fn resolve_type_name(st: SymbolTable, pos: Position, w: Seq<char>) -> Option<(SemanticTokenKind, bool)> {
    if symbols::lookup_named(st.types@, w) is Some {
        Some((SemanticTokenKind::Type, false))
    } else if is_struct_field_name(st, w) {
        Some((SemanticTokenKind::Property, false))
    } else {
        resolve_label(st, pos, w)
    }
}

/// A name with no syntactic context: the first kind of entity that has it.
pub open spec fn resolve_general_name(st: SymbolTable, pos: Position, w: Seq<char>) -> Option<(SemanticTokenKind, bool)> {
    if symbols::lookup_named(st.functions@, w) is Some {
        Some((SemanticTokenKind::Function, false))
    } else if resolve_local_name(st, pos, w) is Some {
        resolve_local_name(st, pos, w)
    } else if resolve_label(st, pos, w) is Some {
        resolve_label(st, pos, w)
    } else if symbols::lookup_named(st.globals@, w) is Some {
        Some((SemanticTokenKind::Global, !symbols::lookup_named(st.globals@, w).unwrap().is_mutable))
    } else if symbols::lookup_named(st.tables@, w) is Some {
        Some((SemanticTokenKind::Table, false))
    } else if symbols::lookup_named(st.memories@, w) is Some {
        Some((SemanticTokenKind::Memory, false))
    } else if symbols::lookup_named(st.types@, w) is Some {
        Some((SemanticTokenKind::Type, false))
    } else if symbols::lookup_named(st.tags@, w) is Some {
        Some((SemanticTokenKind::Tag, false))
    } else if symbols::lookup_named(st.data_segments@, w) is Some {
        Some((SemanticTokenKind::Data, false))
    } else if symbols::lookup_named(st.elem_segments@, w) is Some {
        Some((SemanticTokenKind::Elem, false))
    } else if is_struct_field_name(st, w) {
        Some((SemanticTokenKind::Property, false))
    } else {
        None
    }
}

pub open spec fn found(b: bool, k: SemanticTokenKind) -> Option<(SemanticTokenKind, bool)> {
    if b {
        Some((k, false))
    } else {
        None
    }
}

/// How a `$name` used in context `ctx` resolves.
pub open spec fn resolve_name(st: SymbolTable, pos: Position, ctx: RefContext, w: Seq<char>) -> Option<(SemanticTokenKind, bool)> {
    match ctx {
        RefContext::Function => found(symbols::lookup_named(st.functions@, w) is Some, SemanticTokenKind::Function),
        RefContext::Global => match symbols::lookup_named(st.globals@, w) {
            Some(g) => Some((SemanticTokenKind::Global, !g.is_mutable)),
            None => None,
        },
        RefContext::Local => resolve_local_name(st, pos, w),
        RefContext::Label => resolve_label(st, pos, w),
        RefContext::Table => found(symbols::lookup_named(st.tables@, w) is Some, SemanticTokenKind::Table),
        RefContext::Memory => found(symbols::lookup_named(st.memories@, w) is Some, SemanticTokenKind::Memory),
        RefContext::Type => resolve_type_name(st, pos, w),
        RefContext::Tag => found(symbols::lookup_named(st.tags@, w) is Some, SemanticTokenKind::Tag),
        RefContext::Data => if symbols::lookup_named(st.data_segments@, w) is Some {
            Some((SemanticTokenKind::Data, false))
        } else {
            found(symbols::lookup_named(st.memories@, w) is Some, SemanticTokenKind::Memory)
        },
        RefContext::Elem => if symbols::lookup_named(st.elem_segments@, w) is Some {
            Some((SemanticTokenKind::Elem, false))
        } else {
            found(symbols::lookup_named(st.tables@, w) is Some, SemanticTokenKind::Table)
        },
        RefContext::General => resolve_general_name(st, pos, w),
        RefContext::Literal => None,
    }
}

/// How a numeric index used in context `ctx` resolves; a branch depth is a
/// label wherever a function contains it.
pub open spec fn resolve_index(st: SymbolTable, pos: Position, ctx: RefContext, i: usize) -> Option<(SemanticTokenKind, bool)> {
    match ctx {
        RefContext::Function => found(i < st.functions@.len(), SemanticTokenKind::Function),
        RefContext::Global => if i < st.globals@.len() {
            Some((SemanticTokenKind::Global, !st.globals@[i as int].is_mutable))
        } else {
            None
        },
        RefContext::Local => match symbol_lookup::containing_function(st, pos) {
            Some(f) => if i < f.parameters@.len() {
                Some((SemanticTokenKind::Parameter, false))
            } else if i - f.parameters@.len() < f.locals@.len() {
                Some((SemanticTokenKind::Local, false))
            } else {
                None
            },
            None => None,
        },
        RefContext::Label => found(symbol_lookup::containing_function(st, pos) is Some, SemanticTokenKind::Label),
        RefContext::Table => found(i < st.tables@.len(), SemanticTokenKind::Table),
        RefContext::Memory => found(i < st.memories@.len(), SemanticTokenKind::Memory),
        RefContext::Type => found(i < st.types@.len(), SemanticTokenKind::Type),
        RefContext::Tag => found(i < st.tags@.len(), SemanticTokenKind::Tag),
        RefContext::Data => found(i < st.data_segments@.len(), SemanticTokenKind::Data),
        RefContext::Elem => found(i < st.elem_segments@.len(), SemanticTokenKind::Elem),
        RefContext::General | RefContext::Literal => None,
    }
}


fn resolve_local_exec(st: &SymbolTable, pos: Position, w: &str) -> (r: Option<(SemanticTokenKind, bool)>)
    ensures
        r == resolve_local_name(*st, pos, w@),
{
    match find_containing_function(st, pos) {
        Some(f) => {
            if find_param_in_function(w, f).is_some() {
                Some((SemanticTokenKind::Parameter, false))
            } else if find_local_in_function(w, f).is_some() {
                Some((SemanticTokenKind::Local, false))
            } else {
                None
            }
        },
        None => None,
    }
}

fn resolve_label_exec(st: &SymbolTable, pos: Position, w: &str) -> (r: Option<(SemanticTokenKind, bool)>)
    ensures
        r == resolve_label(*st, pos, w@),
{
    match find_containing_function(st, pos) {
        Some(f) => {
            if find_block_in_function(w, f).is_some() {
                Some((SemanticTokenKind::Label, false))
            } else {
                None
            }
        },
        None => None,
    }
}

fn resolve_type_exec(st: &SymbolTable, pos: Position, w: &str, wc: &Vec<char>) -> (r: Option<(SemanticTokenKind, bool)>)
    requires
        wc@ == w@,
    ensures
        r == resolve_type_name(*st, pos, w@),
{
    if st.get_type_by_name(w).is_some() {
        Some((SemanticTokenKind::Type, false))
    } else if is_struct_field_name_exec(st, wc) {
        Some((SemanticTokenKind::Property, false))
    } else {
        resolve_label_exec(st, pos, w)
    }
}

fn resolve_general_exec(st: &SymbolTable, pos: Position, w: &str, wc: &Vec<char>) -> (r: Option<(SemanticTokenKind, bool)>)
    requires
        wc@ == w@,
    ensures
        r == resolve_general_name(*st, pos, w@),
{
    if st.get_function_by_name(w).is_some() {
        return Some((SemanticTokenKind::Function, false));
    }
    let l = resolve_local_exec(st, pos, w);
    if l.is_some() {
        return l;
    }
    let b = resolve_label_exec(st, pos, w);
    if b.is_some() {
        return b;
    }
    if let Some(g) = st.get_global_by_name(w) {
        return Some((SemanticTokenKind::Global, !g.is_mutable));
    }
    if st.get_table_by_name(w).is_some() {
        return Some((SemanticTokenKind::Table, false));
    }
    if st.get_memory_by_name(w).is_some() {
        return Some((SemanticTokenKind::Memory, false));
    }
    if st.get_type_by_name(w).is_some() {
        return Some((SemanticTokenKind::Type, false));
    }
    if st.get_tag_by_name(w).is_some() {
        return Some((SemanticTokenKind::Tag, false));
    }
    if st.get_data_by_name(w).is_some() {
        return Some((SemanticTokenKind::Data, false));
    }
    if st.get_elem_by_name(w).is_some() {
        return Some((SemanticTokenKind::Elem, false));
    }
    if is_struct_field_name_exec(st, wc) {
        return Some((SemanticTokenKind::Property, false));
    }
    None
}

fn found_exec(b: bool, k: SemanticTokenKind) -> (r: Option<(SemanticTokenKind, bool)>)
    ensures
        r == found(b, k),
{
    if b {
        Some((k, false))
    } else {
        None
    }
}

fn resolve_name_exec(st: &SymbolTable, pos: Position, ctx: RefContext, w: &str, wc: &Vec<char>) -> (r: Option<(SemanticTokenKind, bool)>)
    requires
        wc@ == w@,
    ensures
        r == resolve_name(*st, pos, ctx, w@),
{
    match ctx {
        RefContext::Function => found_exec(st.get_function_by_name(w).is_some(), SemanticTokenKind::Function),
        RefContext::Global => match st.get_global_by_name(w) {
            Some(g) => Some((SemanticTokenKind::Global, !g.is_mutable)),
            None => None,
        },
        RefContext::Local => resolve_local_exec(st, pos, w),
        RefContext::Label => resolve_label_exec(st, pos, w),
        RefContext::Table => found_exec(st.get_table_by_name(w).is_some(), SemanticTokenKind::Table),
        RefContext::Memory => found_exec(st.get_memory_by_name(w).is_some(), SemanticTokenKind::Memory),
        RefContext::Type => resolve_type_exec(st, pos, w, wc),
        RefContext::Tag => found_exec(st.get_tag_by_name(w).is_some(), SemanticTokenKind::Tag),
        RefContext::Data => {
            if st.get_data_by_name(w).is_some() {
                Some((SemanticTokenKind::Data, false))
            } else {
                found_exec(st.get_memory_by_name(w).is_some(), SemanticTokenKind::Memory)
            }
        },
        RefContext::Elem => {
            if st.get_elem_by_name(w).is_some() {
                Some((SemanticTokenKind::Elem, false))
            } else {
                found_exec(st.get_table_by_name(w).is_some(), SemanticTokenKind::Table)
            }
        },
        RefContext::General => resolve_general_exec(st, pos, w, wc),
        RefContext::Literal => None,
    }
}

fn resolve_index_exec(st: &SymbolTable, pos: Position, ctx: RefContext, i: usize) -> (r: Option<(SemanticTokenKind, bool)>)
    ensures
        r == resolve_index(*st, pos, ctx, i),
{
    match ctx {
        RefContext::Function => found_exec(i < st.functions.len(), SemanticTokenKind::Function),
        RefContext::Global => {
            if i < st.globals.len() {
                Some((SemanticTokenKind::Global, !st.globals[i].is_mutable))
            } else {
                None
            }
        },
        RefContext::Local => match find_containing_function(st, pos) {
            Some(f) => {
                if i < f.parameters.len() {
                    Some((SemanticTokenKind::Parameter, false))
                } else if i - f.parameters.len() < f.locals.len() {
                    Some((SemanticTokenKind::Local, false))
                } else {
                    None
                }
            },
            None => None,
        },
        RefContext::Label => found_exec(find_containing_function(st, pos).is_some(), SemanticTokenKind::Label),
        RefContext::Table => found_exec(i < st.tables.len(), SemanticTokenKind::Table),
        RefContext::Memory => found_exec(i < st.memories.len(), SemanticTokenKind::Memory),
        RefContext::Type => found_exec(i < st.types.len(), SemanticTokenKind::Type),
        RefContext::Tag => found_exec(i < st.tags.len(), SemanticTokenKind::Tag),
        RefContext::Data => found_exec(i < st.data_segments.len(), SemanticTokenKind::Data),
        RefContext::Elem => found_exec(i < st.elem_segments.len(), SemanticTokenKind::Elem),
        RefContext::General | RefContext::Literal => None,
    }
}


/// The position at which a node starts.
pub open spec fn token_pos(s: Seq<char>, n: SyntaxNode) -> Position {
    Position { line: syntax::row_at(s, n.start as int) as u32, character: syntax::col_at(s, n.start as int) as u32 }
}

pub open spec fn make_token(s: Seq<char>, n: SyntaxNode, kind: SemanticTokenKind, decl: bool, ro: bool) -> SemanticTokenInfo {
    SemanticTokenInfo {
        line: syntax::row_at(s, n.start as int) as u32,
        start_char: syntax::col_at(s, n.start as int) as u32,
        length: (syntax::byte_at(s, n.end as int) - syntax::byte_at(s, n.start as int)) as u32,
        kind,
        is_declaration: decl,
        is_readonly: ro,
    }
}

/// The global named `w` in the module at `line` is immutable.
pub open spec fn global_readonly(mods: Seq<ModuleInfo>, line: u32, w: Seq<char>) -> bool {
    match symbols_for_line(mods, line) {
        Some(st) => match symbols::lookup_named(st.globals@, w) {
            Some(g) => !g.is_mutable,
            None => false,
        },
        None => false,
    }
}

/// The token of node `j`: an identifier at a declaration site, or an
/// identifier or number that resolves in the symbols of its module.
pub open spec fn token_of(s: Seq<char>, t: Seq<SyntaxNode>, mods: Seq<ModuleInfo>, j: int) -> Option<SemanticTokenInfo> {
    let n = t[j];
    let w = syntax::text_of(s, n);
    let pos = token_pos(s, n);
    if j > 0 && n.kind == NodeKind::Identifier {
        match decl_kind(s, t, j) {
            Some(k) => Some(make_token(s, n, k, true, k == SemanticTokenKind::Global && global_readonly(mods, pos.line, w))),
            None => match symbols_for_line(mods, pos.line) {
                Some(st) => match resolve_name(st, pos, ref_context(s, t, j), w) {
                    Some(r) => Some(make_token(s, n, r.0, false, r.1)),
                    None => None,
                },
                None => None,
            },
        }
    } else if j > 0 && n.kind == NodeKind::Number {
        match parser::wat_nat_value(w) {
            Some(v) => match symbols_for_line(mods, pos.line) {
                Some(st) => match resolve_index(st, pos, ref_context(s, t, j), v as usize) {
                    Some(r) => Some(make_token(s, n, r.0, false, r.1)),
                    None => None,
                },
                None => None,
            },
            None => None,
        }
    } else {
        None
    }
}

/// The tokens of nodes `0..j`, in document order.
pub open spec fn tokens_upto(s: Seq<char>, t: Seq<SyntaxNode>, mods: Seq<ModuleInfo>, j: int) -> Seq<SemanticTokenInfo>
    decreases j,
{
    if j <= 0 {
        Seq::empty()
    } else {
        let r = tokens_upto(s, t, mods, j - 1);
        match token_of(s, t, mods, j - 1) {
            Some(tk) => r.push(tk),
            None => r,
        }
    }
}

/// The semantic tokens of a document against the symbols of its modules.
pub open spec fn semantic_tokens(s: Seq<char>, mods: Seq<ModuleInfo>) -> Seq<SemanticTokenInfo> {
    let t = syntax::tree_of(s);
    tokens_upto(s, t, mods, t.len() as int)
}

fn make_token_exec(d: &Doc, j: usize, kind: SemanticTokenKind, decl: bool, ro: bool) -> (tk: SemanticTokenInfo)
    requires
        doc_wf(d),
        j < d.tree@.len(),
    ensures
        tk == make_token(d.chars@, d.tree@[j as int], kind, decl, ro),
{
    let n = d.tree[j];
    proof {
        assert(d.tree@[j as int].start <= d.tree@[j as int].end);
        syntax::lemma_byte_at_mono(d.chars@, n.start as int, n.end as int);
    }
    let a = d.pos[n.start];
    let b = d.pos[n.end];
    SemanticTokenInfo {
        line: a.row as u32,
        start_char: a.col as u32,
        length: (b.byte - a.byte) as u32,
        kind,
        is_declaration: decl,
        is_readonly: ro,
    }
}

fn token_of_exec(d: &Doc, mods: &Vec<ModuleInfo>, j: usize) -> (r: Option<SemanticTokenInfo>)
    requires
        doc_wf(d),
        j < d.tree@.len(),
    ensures
        r == token_of(d.chars@, d.tree@, mods@, j as int),
{
    let n = d.tree[j];
    if j == 0 || !(n.kind == NodeKind::Identifier || n.kind == NodeKind::Number) {
        return None;
    }
    proof {
        assert(d.tree@[j as int].start <= d.tree@[j as int].end);
    }
    let pos = pos_exec(d, n.start);
    let wc = node_chars(d, j);
    if n.kind == NodeKind::Identifier {
        let ws = text::string_from_chars(wc.as_slice());
        let w = ws.as_str();
        match decl_kind_exec(d, j) {
            Some(k) => {
                let ro = if k == SemanticTokenKind::Global {
                    match symbols_for_line_exec(mods, pos.line) {
                        Some(st) => match st.get_global_by_name(w) {
                            Some(g) => !g.is_mutable,
                            None => false,
                        },
                        None => false,
                    }
                } else {
                    false
                };
                Some(make_token_exec(d, j, k, true, ro))
            },
            None => match symbols_for_line_exec(mods, pos.line) {
                Some(st) => {
                    let ctx = ref_context_exec(d, j);
                    match resolve_name_exec(st, pos, ctx, w, &wc) {
                        Some(r) => Some(make_token_exec(d, j, r.0, false, r.1)),
                        None => None,
                    }
                },
                None => None,
            },
        }
    } else {
        match parser::parse_wat_nat(wc.as_slice()) {
            Some(v) => match symbols_for_line_exec(mods, pos.line) {
                Some(st) => {
                    let ctx = ref_context_exec(d, j);
                    match resolve_index_exec(st, pos, ctx, v as usize) {
                        Some(r) => Some(make_token_exec(d, j, r.0, false, r.1)),
                        None => None,
                    }
                },
                None => None,
            },
            None => None,
        }
    }
}

/// Classifies every identifier and numeric index of a document against the
/// symbols of its modules (as `parse_document_modules` gives them). Tokens
/// come in document order, with absolute positions.
pub fn provide_semantic_tokens(document: &str, modules: &Vec<ModuleInfo>) -> (r: Vec<SemanticTokenInfo>)
    requires
        document@.len() < usize::MAX,
    ensures
        r@ == semantic_tokens(document@, modules@),
{
    let d = parser::read_doc(document);
    let mut r: Vec<SemanticTokenInfo> = Vec::new();
    let mut j: usize = 0;
    while j < d.tree.len()
        invariant
            doc_wf(&d),
            d.chars@ == document@,
            j <= d.tree@.len(),
            r@ == tokens_upto(d.chars@, d.tree@, modules@, j as int),
        decreases d.tree@.len() - j,
    {
        match token_of_exec(&d, modules, j) {
            Some(tk) => {
                r.push(tk);
            },
            None => {},
        }
        j = j + 1;
    }
    r
}

} // verus!

verus! {

/// Token `a` starts before token `b`: on an earlier line, or further left
/// on the same line.
pub open spec fn token_before(a: SemanticTokenInfo, b: SemanticTokenInfo) -> bool {
    a.line < b.line || (a.line == b.line && a.start_char < b.start_char)
}

/// The line and column of every word of the document fit in a `u32`.
pub open spec fn word_positions_fit(s: Seq<char>) -> bool {
    forall|k: int|
        0 <= k < syntax::tree_of(s).len() && syntax::is_atom(#[trigger] syntax::tree_of(s)[k]) ==> syntax::row_at(
            s,
            syntax::tree_of(s)[k].start as int,
        ) < 0x1_0000_0000 && syntax::col_at(s, syntax::tree_of(s)[k].start as int) < 0x1_0000_0000
}

/// Token `tk` sits at the start of an atom that comes before node `j`.
pub open spec fn from_atom_before(s: Seq<char>, tk: SemanticTokenInfo, j: int) -> bool {
    exists|k: int|
        0 < k < j && syntax::is_atom(#[trigger] syntax::tree_of(s)[k]) && tk.line == syntax::row_at(
            s,
            syntax::tree_of(s)[k].start as int,
        ) && tk.start_char == syntax::col_at(s, syntax::tree_of(s)[k].start as int)
}

/// The tokens of the nodes before `j` come from atoms before `j`, at their
/// start positions, in increasing order.
proof fn lemma_tokens_upto_ordered(s: Seq<char>, mods: Seq<ModuleInfo>, j: int)
    requires
        s.len() < usize::MAX,
        word_positions_fit(s),
        0 <= j <= syntax::tree_of(s).len(),
    ensures
        forall|x: int|
            0 <= x < tokens_upto(s, syntax::tree_of(s), mods, j).len() ==> from_atom_before(
                s,
                #[trigger] tokens_upto(s, syntax::tree_of(s), mods, j)[x],
                j,
            ),
        forall|x: int, y: int|
            0 <= x < y < tokens_upto(s, syntax::tree_of(s), mods, j).len() ==> token_before(
                #[trigger] tokens_upto(s, syntax::tree_of(s), mods, j)[x],
                #[trigger] tokens_upto(s, syntax::tree_of(s), mods, j)[y],
            ),
    decreases j,
{
    let t = syntax::tree_of(s);
    if j > 0 {
        lemma_tokens_upto_ordered(s, mods, j - 1);
        syntax::lemma_tree_atoms_ordered(s);
        let r = tokens_upto(s, t, mods, j - 1);
        let all = tokens_upto(s, t, mods, j);
        assert forall|x: int| 0 <= x < r.len() implies from_atom_before(s, r[x], j) by {
            assert(from_atom_before(s, r[x], j - 1));
            let k = choose|k: int|
                0 < k < j - 1 && syntax::is_atom(#[trigger] t[k]) && r[x].line == syntax::row_at(
                    s,
                    t[k].start as int,
                ) && r[x].start_char == syntax::col_at(s, t[k].start as int);
            assert(syntax::is_atom(t[k]));
        }
        match token_of(s, t, mods, j - 1) {
            Some(tk) => {
                let n = t[j - 1];
                assert(j - 1 > 0 && (n.kind == NodeKind::Identifier || n.kind == NodeKind::Number));
                assert(syntax::is_atom(t[j - 1]));
                assert(n.start < n.end <= s.len());
                assert(syntax::row_at(s, n.start as int) < 0x1_0000_0000);
                assert(syntax::col_at(s, n.start as int) < 0x1_0000_0000);
                assert(tk.line == syntax::row_at(s, n.start as int));
                assert(tk.start_char == syntax::col_at(s, n.start as int));
                assert(all == r.push(tk));
                assert(from_atom_before(s, tk, j)) by {
                    assert(syntax::is_atom(t[j - 1]));
                }
                assert forall|x: int| 0 <= x < all.len() implies from_atom_before(s, #[trigger] all[x], j) by {
                    if x < r.len() {
                        assert(all[x] == r[x]);
                    } else {
                        assert(all[x] == tk);
                    }
                }
                assert forall|x: int, y: int| 0 <= x < y < all.len() implies token_before(
                    #[trigger] all[x],
                    #[trigger] all[y],
                ) by {
                    if y < r.len() {
                        assert(all[x] == r[x] && all[y] == r[y]);
                    } else {
                        assert(all[x] == r[x]);
                        assert(all[y] == tk);
                        assert(from_atom_before(s, r[x], j - 1));
                        let k = choose|k: int|
                            0 < k < j - 1 && syntax::is_atom(#[trigger] t[k]) && r[x].line == syntax::row_at(
                                s,
                                t[k].start as int,
                            ) && r[x].start_char == syntax::col_at(s, t[k].start as int);
                        assert(syntax::is_atom(t[k]) && syntax::is_atom(t[j - 1]));
                        assert(t[k].end <= t[j - 1].start);
                        assert(t[k].start < t[k].end);
                        syntax::lemma_positions_ordered(s, t[k].start as int, t[j - 1].start as int);
                    }
                }
            },
            None => {
                assert(all == r);
            },
        }
    }
}

/// The semantic tokens come in document order: each starts on a later line
/// than the one before it, or further right on the same line.
pub proof fn law_semantic_tokens_in_document_order(s: Seq<char>, mods: Seq<ModuleInfo>, x: int, y: int)
    requires
        s.len() < usize::MAX,
        word_positions_fit(s),
        0 <= x < y < semantic_tokens(s, mods).len(),
    ensures
        token_before(semantic_tokens(s, mods)[x], semantic_tokens(s, mods)[y]),
{
    lemma_tokens_upto_ordered(s, mods, syntax::tree_of(s).len() as int);
}


/// The words of the instructions that push a constant.
pub open spec fn const_keyword(w: Seq<char>) -> bool {
    w == "i32.const"@ || w == "i64.const"@ || w == "f32.const"@ || w == "f64.const"@
}

proof fn lemma_const_keyword_context(w: Seq<char>)
    requires
        const_keyword(w),
    ensures
        w != "catch"@ && w != "catch_ref"@ && w != "catch_all"@ && w != "catch_all_ref"@ && w != "delegate"@,
        w != "start"@ && w != "elem"@,
        use_context(w) is None,
        instr_context(w) is None,
{
    reveal_strlit("i32.const");
    reveal_strlit("i64.const");
    reveal_strlit("f32.const");
    reveal_strlit("f64.const");
    reveal_strlit("catch");
    reveal_strlit("catch_ref");
    reveal_strlit("catch_all");
    reveal_strlit("catch_all_ref");
    reveal_strlit("delegate");
    reveal_strlit("start");
    reveal_strlit("elem");
    reveal_strlit("func");
    reveal_strlit("global");
    reveal_strlit("table");
    reveal_strlit("memory");
    reveal_strlit("tag");
    reveal_strlit("type");
    reveal_strlit("ref");
    reveal_strlit("sub");
    reveal_strlit("rec");
    reveal_strlit("null");
    reveal_strlit("final");
    reveal_strlit("struct.");
    reveal_strlit("array.");
    reveal_strlit("ref.cast");
    reveal_strlit("ref.test");
    reveal_strlit("call_ref");
    reveal_strlit("return_call_ref");
    reveal_strlit("br");
    reveal_strlit("call_indirect");
    reveal_strlit("return_call_indirect");
    reveal_strlit("call");
    reveal_strlit("return_call");
    reveal_strlit("ref.func");
    reveal_strlit("local.");
    reveal_strlit("global.");
    reveal_strlit("table.init");
    reveal_strlit("elem.drop");
    reveal_strlit("table.");
    reveal_strlit("memory.init");
    reveal_strlit("data.drop");
    reveal_strlit("memory.");
    reveal_strlit("throw");
    reveal_strlit("rethrow");
    assert(w[0] == 'i' || w[0] == 'f');
    assert(w.take(7)[0] != "struct."@[0]);
    assert(w.take(6)[0] != "array."@[0]);
    assert(!text::starts_with(w, "struct."@));
    assert(!text::starts_with(w, "array."@));
    assert(!text::starts_with(w, "br"@));
    assert(!text::starts_with(w, "call"@));
    assert(!text::starts_with(w, "return_call"@));
    assert(!text::starts_with(w, "local."@));
    assert(!text::starts_with(w, "global."@));
    assert(!text::starts_with(w, "table."@));
    assert(!text::starts_with(w, "memory."@));
}

/// Nodes that resolve to nothing get no token: an identifier that declares
/// nothing and names no symbol of its module in its context; a number in a
/// literal or general context; and so a numeric operand of `i32.const`,
/// `i64.const`, `f32.const` or `f64.const`.
pub proof fn law_no_token_without_target(s: Seq<char>, mods: Seq<ModuleInfo>, j: int)
    requires
        0 < j < syntax::tree_of(s).len(),
    ensures
        ({
            let t = syntax::tree_of(s);
            let n = t[j];
            let pos = token_pos(s, n);
            n.kind == NodeKind::Identifier && decl_kind(s, t, j) is None && (match symbols_for_line(mods, pos.line) {
                Some(st) => resolve_name(st, pos, ref_context(s, t, j), syntax::text_of(s, n)) is None,
                None => true,
            }) ==> token_of(s, t, mods, j) is None
        }),
        ({
            let t = syntax::tree_of(s);
            t[j].kind == NodeKind::Number && (ref_context(s, t, j) == RefContext::Literal || ref_context(s, t, j)
                == RefContext::General) ==> token_of(s, t, mods, j) is None
        }),
        ({
            let t = syntax::tree_of(s);
            t[j].kind == NodeKind::Number && prev_keyword(t, j) is Some && const_keyword(
                syntax::text_of(s, t[prev_keyword(t, j).unwrap() as int]),
            ) ==> token_of(s, t, mods, j) is None
        }),
{
    let t = syntax::tree_of(s);
    if t[j].kind == NodeKind::Number && prev_keyword(t, j) is Some {
        let h = prev_keyword(t, j).unwrap() as int;
        let w = syntax::text_of(s, t[h]);
        if const_keyword(w) {
            lemma_const_keyword_context(w);
            assert(ref_context(s, t, j) == RefContext::Literal || ref_context(s, t, j) == RefContext::General);
        }
    }
}

} // verus!

verus! {

/// A token in the protocol's relative form: its line counted from the line
/// of the token before, its start counted from that token's start when on
/// the same line, its legend type and its modifier bits.
#[derive(Debug, Clone, Copy, PartialEq, Eq, Structural)]
pub struct EncodedToken {
    pub delta_line: u32,
    pub delta_start: u32,
    pub length: u32,
    pub token_type: u32,
    pub token_modifiers_bitset: u32,
}

/// The legend index of a token kind: functions, parameters, variables
/// (locals, globals, tables, memories, data and elem segments), types,
/// properties, events (tags), namespaces (modules) and labels.
pub open spec fn token_type_index(k: SemanticTokenKind) -> u32 {
    match k {
        SemanticTokenKind::Function => 0,
        SemanticTokenKind::Parameter => 1,
        SemanticTokenKind::Local | SemanticTokenKind::Global | SemanticTokenKind::Table | SemanticTokenKind::Memory
        | SemanticTokenKind::Data | SemanticTokenKind::Elem => 2,
        SemanticTokenKind::Type => 3,
        SemanticTokenKind::Property => 4,
        SemanticTokenKind::Tag => 5,
        SemanticTokenKind::Module => 6,
        SemanticTokenKind::Label => 7,
    }
}

/// Module-level entities other than functions and types: their tokens are
/// marked static.
pub open spec fn static_kind(k: SemanticTokenKind) -> bool {
    k == SemanticTokenKind::Global || k == SemanticTokenKind::Table || k == SemanticTokenKind::Memory || k
        == SemanticTokenKind::Data || k == SemanticTokenKind::Elem
}

/// The modifier bits of a token: declaration (1), read-only (2), static (4).
pub open spec fn token_modifiers(t: SemanticTokenInfo) -> u32 {
    ((if t.is_declaration {
        1u32
    } else {
        0u32
    }) + (if t.is_readonly {
        2u32
    } else {
        0u32
    }) + (if static_kind(t.kind) {
        4u32
    } else {
        0u32
    })) as u32
}

/// The tokens in relative form, after a token at `prev_line`, `prev_start`.
pub open spec fn encode_from(ts: Seq<SemanticTokenInfo>, prev_line: u32, prev_start: u32) -> Seq<EncodedToken>
    decreases ts.len(),
{
    if ts.len() == 0 {
        Seq::empty()
    } else {
        let t = ts[0];
        let dl = vstd::wrapping::u32_specs::wrapping_sub(t.line, prev_line);
        let ds = if dl == 0 {
            vstd::wrapping::u32_specs::wrapping_sub(t.start_char, prev_start)
        } else {
            t.start_char
        };
        seq![
            EncodedToken {
                delta_line: dl,
                delta_start: ds,
                length: t.length,
                token_type: token_type_index(t.kind),
                token_modifiers_bitset: token_modifiers(t),
            },
        ] + encode_from(ts.drop_first(), t.line, t.start_char)
    }
}

/// The tokens in relative form, from the document's start.
pub open spec fn encode(ts: Seq<SemanticTokenInfo>) -> Seq<EncodedToken> {
    encode_from(ts, 0, 0)
}

/// The positions (line, start, length) that relative tokens stand for,
/// after a token at `line`, `start`.
pub open spec fn decode_from(es: Seq<EncodedToken>, line: u32, start: u32) -> Seq<(u32, u32, u32)>
    decreases es.len(),
{
    if es.len() == 0 {
        Seq::empty()
    } else {
        let e = es[0];
        let l = vstd::wrapping::u32_specs::wrapping_add(line, e.delta_line);
        let c = if e.delta_line > 0 {
            e.delta_start
        } else {
            vstd::wrapping::u32_specs::wrapping_add(start, e.delta_start)
        };
        seq![(l, c, e.length)] + decode_from(es.drop_first(), l, c)
    }
}

/// The positions of absolute tokens.
pub open spec fn token_positions(ts: Seq<SemanticTokenInfo>) -> Seq<(u32, u32, u32)> {
    ts.map_values(|t: SemanticTokenInfo| (t.line, t.start_char, t.length))
}

fn token_type_index_exec(k: SemanticTokenKind) -> (r: u32)
    ensures
        r == token_type_index(k),
{
    match k {
        SemanticTokenKind::Function => 0,
        SemanticTokenKind::Parameter => 1,
        SemanticTokenKind::Local | SemanticTokenKind::Global | SemanticTokenKind::Table | SemanticTokenKind::Memory
        | SemanticTokenKind::Data | SemanticTokenKind::Elem => 2,
        SemanticTokenKind::Type => 3,
        SemanticTokenKind::Property => 4,
        SemanticTokenKind::Tag => 5,
        SemanticTokenKind::Module => 6,
        SemanticTokenKind::Label => 7,
    }
}

fn token_modifiers_exec(t: &SemanticTokenInfo) -> (r: u32)
    ensures
        r == token_modifiers(*t),
{
    let mut bits: u32 = 0;
    if t.is_declaration {
        bits = bits + 1;
    }
    if t.is_readonly {
        bits = bits + 2;
    }
    if t.kind == SemanticTokenKind::Global || t.kind == SemanticTokenKind::Table || t.kind == SemanticTokenKind::Memory
        || t.kind == SemanticTokenKind::Data || t.kind == SemanticTokenKind::Elem {
        bits = bits + 4;
    }
    bits
}

/// Puts absolute tokens in relative form (see `encode`).
pub fn encode_tokens(tokens: &Vec<SemanticTokenInfo>) -> (r: Vec<EncodedToken>)
    ensures
        r@ == encode(tokens@),
{
    let mut r: Vec<EncodedToken> = Vec::new();
    let mut prev_line: u32 = 0;
    let mut prev_start: u32 = 0;
    let mut i: usize = 0;
    assert(tokens@.skip(0) =~= tokens@);
    while i < tokens.len()
        invariant
            i <= tokens@.len(),
            encode(tokens@) == r@ + encode_from(tokens@.skip(i as int), prev_line, prev_start),
        decreases tokens@.len() - i,
    {
        let t = tokens[i];
        let dl = t.line.wrapping_sub(prev_line);
        let ds = if dl == 0 {
            t.start_char.wrapping_sub(prev_start)
        } else {
            t.start_char
        };
        let e = EncodedToken {
            delta_line: dl,
            delta_start: ds,
            length: t.length,
            token_type: token_type_index_exec(t.kind),
            token_modifiers_bitset: token_modifiers_exec(&t),
        };
        proof {
            let rest = tokens@.skip(i as int);
            assert(rest[0] == t);
            assert(rest.drop_first() =~= tokens@.skip(i + 1));
            assert(encode_from(rest, prev_line, prev_start) == seq![e] + encode_from(
                tokens@.skip(i + 1),
                t.line,
                t.start_char,
            ));
        }
        let ghost before = r@;
        r.push(e);
        assert(before + (seq![e] + encode_from(tokens@.skip(i + 1), t.line, t.start_char)) =~= r@ + encode_from(
            tokens@.skip(i + 1),
            t.line,
            t.start_char,
        ));
        prev_line = t.line;
        prev_start = t.start_char;
        i = i + 1;
    }
    assert(encode_from(tokens@.skip(i as int), prev_line, prev_start) =~= Seq::empty());
    assert(r@ + Seq::empty() =~= r@);
    r
}

/// The semantic tokens of a document in relative form.
pub fn provide_semantic_tokens_encoded(document: &str, modules: &Vec<ModuleInfo>) -> (r: Vec<EncodedToken>)
    requires
        document@.len() < usize::MAX,
    ensures
        r@ == encode(semantic_tokens(document@, modules@)),
{
    let tokens = provide_semantic_tokens(document, modules);
    encode_tokens(&tokens)
}

/// The tokens on lines `first..=last`, in order.
pub open spec fn tokens_on_lines(ts: Seq<SemanticTokenInfo>, first: u32, last: u32) -> Seq<SemanticTokenInfo>
    decreases ts.len(),
{
    if ts.len() == 0 {
        ts
    } else {
        let r = tokens_on_lines(ts.drop_last(), first, last);
        if first <= ts.last().line <= last {
            r.push(ts.last())
        } else {
            r
        }
    }
}

/// The semantic tokens of the lines of `range` in relative form (counted
/// from the document's start).
pub fn provide_semantic_tokens_range_encoded(document: &str, modules: &Vec<ModuleInfo>, range: Range) -> (r: Vec<
    EncodedToken,
>)
    requires
        document@.len() < usize::MAX,
    ensures
        r@ == encode(tokens_on_lines(semantic_tokens(document@, modules@), range.start.line, range.end.line)),
{
    let tokens = provide_semantic_tokens(document, modules);
    let mut kept: Vec<SemanticTokenInfo> = Vec::new();
    let mut i: usize = 0;
    while i < tokens.len()
        invariant
            i <= tokens@.len(),
            kept@ == tokens_on_lines(tokens@.take(i as int), range.start.line, range.end.line),
        decreases tokens@.len() - i,
    {
        assert(tokens@.take(i + 1).drop_last() =~= tokens@.take(i as int));
        let t = tokens[i];
        if range.start.line <= t.line && t.line <= range.end.line {
            kept.push(t);
        }
        i = i + 1;
    }
    assert(tokens@.take(i as int) =~= tokens@);
    encode_tokens(&kept)
}

/// Decoding relative tokens gives back the positions of the absolute
/// tokens they were made from, whatever those are.
pub proof fn law_decode_inverts_encode(ts: Seq<SemanticTokenInfo>)
    ensures
        decode_from(encode(ts), 0, 0) == token_positions(ts),
{
    lemma_decode_encode_from(ts, 0, 0);
}

proof fn lemma_decode_encode_from(ts: Seq<SemanticTokenInfo>, pl: u32, ps: u32)
    ensures
        decode_from(encode_from(ts, pl, ps), pl, ps) == token_positions(ts),
    decreases ts.len(),
{
    if ts.len() == 0 {
        assert(token_positions(ts) =~= Seq::empty());
    } else {
        let t = ts[0];
        lemma_decode_encode_from(ts.drop_first(), t.line, t.start_char);
        let es = encode_from(ts, pl, ps);
        assert(es.drop_first() =~= encode_from(ts.drop_first(), t.line, t.start_char));
        assert(token_positions(ts) =~= seq![(t.line, t.start_char, t.length)] + token_positions(ts.drop_first()));
    }
}


/// The entity kind that an instruction's operands name follows its
/// namespace: `local.*` names locals, `global.*` globals, `memory.*`
/// memories (but `memory.init` a data segment), `table.*` tables (but
/// `table.init` an element segment), `struct.*` and `array.*` types, and an
/// operand in that context refers to an entity of that kind.
pub proof fn law_instruction_operand_kinds(w: Seq<char>)
    ensures
        text::starts_with(w, "local."@) ==> instr_context(w) == Some(InstructionContext::Local)
            && instruction_ref_context(InstructionContext::Local) == RefContext::Local,
        text::starts_with(w, "global."@) ==> instr_context(w) == Some(InstructionContext::Global)
            && instruction_ref_context(InstructionContext::Global) == RefContext::Global,
        text::starts_with(w, "table."@) && w != "table.init"@ ==> instr_context(w) == Some(InstructionContext::Table)
            && instruction_ref_context(InstructionContext::Table) == RefContext::Table,
        text::starts_with(w, "memory."@) && w != "memory.init"@ ==> instr_context(w) == Some(
            InstructionContext::Memory,
        ) && instruction_ref_context(InstructionContext::Memory) == RefContext::Memory,
        text::starts_with(w, "struct."@) || text::starts_with(w, "array."@) ==> instr_context(w) == Some(
            InstructionContext::Type,
        ) && instruction_ref_context(InstructionContext::Type) == RefContext::Type,
        w == "throw"@ ==> instr_context(w) == Some(InstructionContext::Tag) && instruction_ref_context(
            InstructionContext::Tag,
        ) == RefContext::Tag,
{
    reveal_strlit("local.");
    reveal_strlit("global.");
    reveal_strlit("table.");
    reveal_strlit("memory.");
    reveal_strlit("struct.");
    reveal_strlit("array.");
    reveal_strlit("br");
    reveal_strlit("call");
    reveal_strlit("return_call");
    reveal_strlit("call_indirect");
    reveal_strlit("return_call_indirect");
    reveal_strlit("ref.cast");
    reveal_strlit("ref.test");
    reveal_strlit("call_ref");
    reveal_strlit("return_call_ref");
    reveal_strlit("ref.func");
    reveal_strlit("table.init");
    reveal_strlit("elem.drop");
    reveal_strlit("memory.init");
    reveal_strlit("data.drop");
    reveal_strlit("throw");
    reveal_strlit("rethrow");
    if text::starts_with(w, "local."@) {
        assert(w.take(6) =~= "local."@);
        assert(w.take(6)[0] == w[0]);
        assert(w[0] == 'l');
    }
    if text::starts_with(w, "global."@) {
        assert(w.take(7) =~= "global."@);
        assert(w.take(7)[0] == w[0]);
        assert(w[0] == 'g');
    }
    if text::starts_with(w, "table."@) {
        assert(w.take(6) =~= "table."@);
        assert(w.take(6)[0] == w[0]);
        assert(w[0] == 't');
    }
    if text::starts_with(w, "memory."@) {
        assert(w.take(7) =~= "memory."@);
        assert(w.take(7)[0] == w[0]);
        assert(w[0] == 'm');
    }
    if text::starts_with(w, "struct."@) {
        assert(w.take(7) =~= "struct."@);
    }
    if text::starts_with(w, "array."@) {
        assert(w.take(6) =~= "array."@);
    }
    if w == "throw"@ {
        reveal_strlit("throw");
        assert(w[0] == 't' && w[1] == 'h');
        assert(w.len() == 5);
        assert(!text::starts_with(w, "struct."@));
        assert(!text::starts_with(w, "array."@));
        assert(!text::starts_with(w, "br"@)) by {
            assert(w.take(2)[0] != "br"@[0]);
        }
        assert(!text::starts_with(w, "call"@)) by {
            assert(w.take(4)[0] != "call"@[0]);
        }
        assert(!text::starts_with(w, "return_call"@));
        assert(!text::starts_with(w, "local."@));
        assert(!text::starts_with(w, "global."@));
        assert(!text::starts_with(w, "table."@));
        assert(!text::starts_with(w, "memory."@));
    }
}


proof fn lemma_named_resolves<T: Named>(items: Seq<T>, n: Seq<char>, i: int)
    requires
        0 <= i < items.len(),
        items[i].spec_name() == Some(n),
    ensures
        symbols::lookup_named(items, n) is Some,
    decreases items.len(),
{
    if items.last().spec_name() != Some(n) {
        assert(i < items.len() - 1);
        assert(items.drop_last()[i] == items[i]);
        lemma_named_resolves(items.drop_last(), n, i);
    }
}

/// A `$name` used where a function, table, memory, tag or type is expected
/// gets a token of that kind whenever an entity of that kind has the name;
/// a global's token is read-only exactly when the global it names (the last
/// one with that name) is immutable.
pub proof fn law_uses_resolve_to_their_kind(st: SymbolTable, pos: Position, w: Seq<char>, i: int)
    ensures
        0 <= i < st.functions@.len() && st.functions@[i].spec_name() == Some(w) ==> resolve_name(st, pos, RefContext::Function, w)
            == Some((SemanticTokenKind::Function, false)),
        0 <= i < st.tables@.len() && st.tables@[i].spec_name() == Some(w) ==> resolve_name(st, pos, RefContext::Table, w)
            == Some((SemanticTokenKind::Table, false)),
        0 <= i < st.memories@.len() && st.memories@[i].spec_name() == Some(w) ==> resolve_name(st, pos, RefContext::Memory, w)
            == Some((SemanticTokenKind::Memory, false)),
        0 <= i < st.tags@.len() && st.tags@[i].spec_name() == Some(w) ==> resolve_name(st, pos, RefContext::Tag, w)
            == Some((SemanticTokenKind::Tag, false)),
        0 <= i < st.types@.len() && st.types@[i].spec_name() == Some(w) ==> resolve_name(st, pos, RefContext::Type, w)
            == Some((SemanticTokenKind::Type, false)),
        0 <= i < st.globals@.len() && st.globals@[i].spec_name() == Some(w) ==> resolve_name(st, pos, RefContext::Global, w)
            == Some((SemanticTokenKind::Global, !symbols::lookup_named(st.globals@, w).unwrap().is_mutable)),
{
    if 0 <= i < st.functions@.len() && st.functions@[i].spec_name() == Some(w) {
        lemma_named_resolves(st.functions@, w, i);
    }
    if 0 <= i < st.tables@.len() && st.tables@[i].spec_name() == Some(w) {
        lemma_named_resolves(st.tables@, w, i);
    }
    if 0 <= i < st.memories@.len() && st.memories@[i].spec_name() == Some(w) {
        lemma_named_resolves(st.memories@, w, i);
    }
    if 0 <= i < st.tags@.len() && st.tags@[i].spec_name() == Some(w) {
        lemma_named_resolves(st.tags@, w, i);
    }
    if 0 <= i < st.types@.len() && st.types@[i].spec_name() == Some(w) {
        lemma_named_resolves(st.types@, w, i);
    }
    if 0 <= i < st.globals@.len() && st.globals@[i].spec_name() == Some(w) {
        lemma_named_resolves(st.globals@, w, i);
    }
}

/// A use that resolves gets its token: an identifier that declares nothing
/// and resolves in its module's symbols is given a token of the resolved
/// kind, at the identifier's position, not marked as a declaration.
pub proof fn law_resolved_use_gets_token(s: Seq<char>, mods: Seq<ModuleInfo>, j: int, st: SymbolTable)
    requires
        0 < j < syntax::tree_of(s).len(),
        syntax::tree_of(s)[j].kind == NodeKind::Identifier,
        decl_kind(s, syntax::tree_of(s), j) is None,
        symbols_for_line(mods, token_pos(s, syntax::tree_of(s)[j]).line) == Some(st),
        resolve_name(
            st,
            token_pos(s, syntax::tree_of(s)[j]),
            ref_context(s, syntax::tree_of(s), j),
            syntax::text_of(s, syntax::tree_of(s)[j]),
        ) is Some,
    ensures
        ({
            let t = syntax::tree_of(s);
            let n = t[j];
            let r = resolve_name(st, token_pos(s, n), ref_context(s, t, j), syntax::text_of(s, n)).unwrap();
            &&& token_of(s, t, mods, j) is Some
            &&& token_of(s, t, mods, j).unwrap().kind == r.0
            &&& token_of(s, t, mods, j).unwrap().is_readonly == r.1
            &&& !token_of(s, t, mods, j).unwrap().is_declaration
            &&& token_of(s, t, mods, j).unwrap().line == syntax::row_at(s, n.start as int) as u32
            &&& token_of(s, t, mods, j).unwrap().start_char == syntax::col_at(s, n.start as int) as u32
        }),
{
}


/// The kind that a module field's keyword declares.
pub open spec fn field_keyword_kind(w: Seq<char>) -> Option<SemanticTokenKind> {
    if w == "func"@ {
        Some(SemanticTokenKind::Function)
    } else if w == "global"@ {
        Some(SemanticTokenKind::Global)
    } else if w == "table"@ {
        Some(SemanticTokenKind::Table)
    } else if w == "memory"@ {
        Some(SemanticTokenKind::Memory)
    } else if w == "tag"@ {
        Some(SemanticTokenKind::Tag)
    } else if w == "type"@ {
        Some(SemanticTokenKind::Type)
    } else {
        None
    }
}

/// The name right after the keyword of a module field (`(func $f ...)`,
/// `(global $g ...)`, `(table ...)`, `(memory ...)`, `(tag ...)`,
/// `(type ...)`) is marked as a declaration of that kind.
pub proof fn law_field_names_are_declarations(s: Seq<char>, mods: Seq<ModuleInfo>, j: int, h: usize)
    requires
        0 < j < syntax::tree_of(s).len(),
        syntax::tree_of(s)[j].kind == NodeKind::Identifier,
        prev_sibling(syntax::tree_of(s), j) == Some(h),
        syntax::tree_of(s)[h as int].kind == NodeKind::Keyword,
        prev_sibling(syntax::tree_of(s), h as int) is None,
        is_field(s, syntax::tree_of(s), syntax::tree_of(s)[j].parent as int),
        field_keyword_kind(syntax::text_of(s, syntax::tree_of(s)[h as int])) is Some,
    ensures
        token_of(s, syntax::tree_of(s), mods, j) is Some,
        token_of(s, syntax::tree_of(s), mods, j).unwrap().kind == field_keyword_kind(
            syntax::text_of(s, syntax::tree_of(s)[h as int]),
        ).unwrap(),
        token_of(s, syntax::tree_of(s), mods, j).unwrap().is_declaration,
{
    let t = syntax::tree_of(s);
    let w = syntax::text_of(s, t[h as int]);
    reveal_strlit("func");
    reveal_strlit("global");
    reveal_strlit("table");
    reveal_strlit("memory");
    reveal_strlit("tag");
    reveal_strlit("type");
    reveal_strlit("module");
    reveal_strlit("param");
    reveal_strlit("local");
    reveal_strlit("field");
    reveal_strlit("block");
    reveal_strlit("loop");
    reveal_strlit("if");
    reveal_strlit("try");
    reveal_strlit("try_table");
    reveal_strlit("data");
    reveal_strlit("elem");
    if w == "func"@ {
        assert(w[0] == 'f' && w[1] == 'u');
    } else if w == "global"@ {
        assert(w[0] == 'g');
    } else if w == "table"@ {
        assert(w[0] == 't' && w[1] == 'a' && w.len() == 5);
    } else if w == "memory"@ {
        assert(w[0] == 'm' && w[1] == 'e');
    } else if w == "tag"@ {
        assert(w[0] == 't' && w[1] == 'a' && w.len() == 3);
    } else {
        assert(w == "type"@);
        assert(w[0] == 't' && w[1] == 'y' && w.len() == 4);
    }
    assert(w != "module"@ && w != "param"@ && w != "local"@ && w != "field"@);
    assert(!parser::block_word(w));
    assert(field_decl_kind(w) == field_keyword_kind(w));
    assert(declares(s, t, t[j].parent as int, field_keyword_kind(w).unwrap()));
    assert(decl_kind(s, t, j) == field_keyword_kind(w));
}

} // verus!
