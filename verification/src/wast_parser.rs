//! The symbols of a module as the `wast` crate reads it: `wast` decides
//! whether the text is a WebAssembly text module, and its fields give
//! functions (with the parameters, results and locals written inline),
//! globals, tables, memories, types and tags, each at the line of its
//! keyword.
use vstd::prelude::*;
use crate::parser;
use crate::parser::{
    doc_wf, global_type_of, has_import, id_name, id_range, import_desc, line_of, locals_of, params_of, results_of, Doc,
};
use crate::symbols::{
    push_dv, Function, FunctionModel, Global, GlobalModel, Limits, Memory, MemoryModel, SymbolTable, SymbolTableModel,
    Table, TableModel, Tag, TagModel, TypeDef, TypeDefModel, TypeKind, TypeKindModel, ValueType,
};
use crate::syntax;
use crate::syntax::{byte_at, SyntaxNode};
use crate::text;

verus! {

/// The stage at which `wast` refused a text.
#[derive(Clone, Copy, Debug, PartialEq, Eq, Structural)]
pub enum WastStage {
    /// Making the parse buffer.
    Buffer,
    /// Parsing the module.
    Parse,
}

/// Calls `wast::parser::parse::<wast::Wat>` on a `wast::parser::ParseBuffer`
/// of `source` (the buffer is how the parser takes its text): nothing when
/// the text reads as a module (or component), else the stage that failed and
/// the error's `Display` text. Nothing is stated of which texts pass: for
/// components the answer also depends on the process environment
/// (`WAST_STRICT_COMPONENT_INDICES`), so it is not a function of the text.
#[verifier::external_body]
fn wast_check(source: &str) -> (r: Option<(WastStage, String)>)
{
    let buf = match wast::parser::ParseBuffer::new(source) {
        Ok(b) => b,
        Err(e) => return Some((WastStage::Buffer, e.to_string())),
    };
    match wast::parser::parse::<wast::Wat>(&buf) {
        Ok(_) => None,
        Err(e) => Some((WastStage::Parse, e.to_string())),
    }
}

/// The keyword that heads field `k`.
pub open spec fn head_of(t: Seq<SyntaxNode>, k: int) -> int {
    syntax::kids(t, k)[0] as int
}

/// The line of field `k`: that of its keyword.
pub open spec fn field_line(s: Seq<char>, t: Seq<SyntaxNode>, k: int) -> u32 {
    line_of(s, t[head_of(t, k)])
}

/// The byte offset of field `k`: that of its keyword.
pub open spec fn field_offset(s: Seq<char>, t: Seq<SyntaxNode>, k: int) -> usize {
    byte_at(s, t[head_of(t, k)].start as int) as usize
}

/// From character `i`, with `depth` parentheses open, the first `)` that
/// brings the depth back to zero.
pub open spec fn paren_close(s: Seq<char>, i: int, depth: int) -> Option<int>
    decreases s.len() - i,
{
    if i < 0 || i >= s.len() {
        None
    } else if s[i] == '(' {
        paren_close(s, i + 1, depth + 1)
    } else if s[i] == ')' {
        if depth - 1 == 0 {
            Some(i)
        } else {
            paren_close(s, i + 1, depth - 1)
        }
    } else {
        paren_close(s, i + 1, depth)
    }
}

/// The end line given to a function whose keyword starts at character `i`:
/// the line of the first `)` after it that closes what opened after it (the
/// keyword's own line when there is none).
pub open spec fn func_end_line(s: Seq<char>, i: int) -> u32 {
    let e = match paren_close(s, i, 0) {
        Some(e) => e,
        None => i,
    };
    text::count_char(s.take(e + 1), '\n') as u32
}

/// A function field `k` as `wast` gives it: parameters, results and locals
/// only when written inline (not imported).
pub open spec fn wast_func(s: Seq<char>, t: Seq<SyntaxNode>, k: int, index: int) -> FunctionModel {
    let inline = !has_import(s, t, k);
    let id = syntax::name_node(t, k);
    FunctionModel {
        name: id_name(s, t, id),
        index: index as usize,
        parameters: if inline {
            params_of(s, t, k)
        } else {
            Seq::empty()
        },
        results: if inline {
            results_of(s, t, k)
        } else {
            Seq::empty()
        },
        locals: if inline {
            locals_of(s, t, k)
        } else {
            Seq::empty()
        },
        blocks: Seq::empty(),
        line: field_line(s, t, k),
        end_line: func_end_line(s, t[head_of(t, k)].start as int),
        start_byte: field_offset(s, t, k),
        end_byte: field_offset(s, t, k),
        range: id_range(s, t, id),
        doc_comment: None,
        has_type_use: false,
    }
}

/// A function imported by field `k` with descriptor `dn`.
pub open spec fn wast_import_func(s: Seq<char>, t: Seq<SyntaxNode>, k: int, dn: int, index: int) -> FunctionModel {
    let id = syntax::name_node(t, dn);
    FunctionModel {
        name: id_name(s, t, id),
        index: index as usize,
        parameters: Seq::empty(),
        results: Seq::empty(),
        locals: Seq::empty(),
        blocks: Seq::empty(),
        line: field_line(s, t, k),
        end_line: field_line(s, t, k),
        start_byte: field_offset(s, t, k),
        end_byte: field_offset(s, t, k),
        range: id_range(s, t, id),
        doc_comment: None,
        has_type_use: false,
    }
}

/// A global declared by list `g` (a field or an import's descriptor), at
/// the line of field `k`.
pub open spec fn wast_global(s: Seq<char>, t: Seq<SyntaxNode>, k: int, g: int, index: int) -> GlobalModel {
    let ty = global_type_of(s, t, g);
    let id = syntax::name_node(t, g);
    GlobalModel {
        name: id_name(s, t, id),
        index: index as usize,
        var_type: ty.0,
        is_mutable: ty.1,
        initial_value: None,
        line: field_line(s, t, k),
        range: id_range(s, t, id),
    }
}

/// A table named by list `g`, at the line of field `k`.
pub open spec fn wast_table(s: Seq<char>, t: Seq<SyntaxNode>, k: int, g: int, index: int) -> TableModel {
    let id = syntax::name_node(t, g);
    TableModel {
        name: id_name(s, t, id),
        index: index as usize,
        ref_type: ValueType::Funcref,
        limits: Limits(0, None),
        line: field_line(s, t, k),
        range: id_range(s, t, id),
    }
}

/// A memory named by list `g`, at the line of field `k`.
pub open spec fn wast_memory(s: Seq<char>, t: Seq<SyntaxNode>, k: int, g: int, index: int) -> MemoryModel {
    let id = syntax::name_node(t, g);
    MemoryModel {
        name: id_name(s, t, id),
        index: index as usize,
        limits: Limits(0, None),
        line: field_line(s, t, k),
        range: id_range(s, t, id),
    }
}

/// A tag named by list `g`, at the line of field `k`.
pub open spec fn wast_tag(s: Seq<char>, t: Seq<SyntaxNode>, k: int, g: int, index: int) -> TagModel {
    let id = syntax::name_node(t, g);
    TagModel {
        name: id_name(s, t, id),
        index: index as usize,
        params: Seq::empty(),
        line: field_line(s, t, k),
        range: id_range(s, t, id),
    }
}

/// A type field `k`.
pub open spec fn wast_type(s: Seq<char>, t: Seq<SyntaxNode>, k: int, index: int) -> TypeDefModel {
    let id = syntax::name_node(t, k);
    TypeDefModel {
        name: id_name(s, t, id),
        index: index as usize,
        kind: TypeKindModel::Func { params: Seq::empty(), results: Seq::empty() },
        line: field_line(s, t, k),
        range: id_range(s, t, id),
    }
}

/// The symbols after field `k`, given those of the fields before it.
pub open spec fn wast_field(s: Seq<char>, t: Seq<SyntaxNode>, k: int, st: SymbolTableModel) -> SymbolTableModel {
    if syntax::head_is(s, t, k, "import"@) {
        match import_desc(s, t, k) {
            Some(dn) => {
                let d = dn as int;
                if syntax::head_is(s, t, d, "func"@) {
                    SymbolTableModel {
                        functions: st.functions.push(wast_import_func(s, t, k, d, st.functions.len() as int)),
                        ..st
                    }
                } else if syntax::head_is(s, t, d, "global"@) {
                    SymbolTableModel { globals: st.globals.push(wast_global(s, t, k, d, st.globals.len() as int)), ..st }
                } else if syntax::head_is(s, t, d, "table"@) {
                    SymbolTableModel { tables: st.tables.push(wast_table(s, t, k, d, st.tables.len() as int)), ..st }
                } else if syntax::head_is(s, t, d, "memory"@) {
                    SymbolTableModel {
                        memories: st.memories.push(wast_memory(s, t, k, d, st.memories.len() as int)),
                        ..st
                    }
                } else {
                    SymbolTableModel { tags: st.tags.push(wast_tag(s, t, k, d, st.tags.len() as int)), ..st }
                }
            },
            None => st,
        }
    } else if syntax::head_is(s, t, k, "func"@) {
        SymbolTableModel { functions: st.functions.push(wast_func(s, t, k, st.functions.len() as int)), ..st }
    } else if syntax::head_is(s, t, k, "global"@) {
        SymbolTableModel { globals: st.globals.push(wast_global(s, t, k, k, st.globals.len() as int)), ..st }
    } else if syntax::head_is(s, t, k, "table"@) {
        SymbolTableModel { tables: st.tables.push(wast_table(s, t, k, k, st.tables.len() as int)), ..st }
    } else if syntax::head_is(s, t, k, "memory"@) {
        SymbolTableModel { memories: st.memories.push(wast_memory(s, t, k, k, st.memories.len() as int)), ..st }
    } else if syntax::head_is(s, t, k, "type"@) {
        SymbolTableModel { types: st.types.push(wast_type(s, t, k, st.types.len() as int)), ..st }
    } else if syntax::head_is(s, t, k, "tag"@) {
        SymbolTableModel { tags: st.tags.push(wast_tag(s, t, k, k, st.tags.len() as int)), ..st }
    } else {
        st
    }
}

/// The symbols of fields `fs`, in order.
pub open spec fn wast_fold(s: Seq<char>, t: Seq<SyntaxNode>, fs: Seq<usize>) -> SymbolTableModel
    decreases fs.len(),
{
    if fs.len() == 0 {
        SymbolTableModel {
            functions: Seq::empty(),
            globals: Seq::empty(),
            tables: Seq::empty(),
            memories: Seq::empty(),
            types: Seq::empty(),
            tags: Seq::empty(),
            data_segments: Seq::empty(),
            elem_segments: Seq::empty(),
        }
    } else {
        wast_field(s, t, fs.last() as int, wast_fold(s, t, fs.drop_last()))
    }
}

/// The symbols of a module as `wast` reads it.
pub open spec fn wast_symbols(s: Seq<char>) -> SymbolTableModel {
    let t = syntax::tree_of(s);
    wast_fold(s, t, parser::fields_in_root(s, t, syntax::kids(t, 0)))
}

/// The message of a refusal: which stage refused, and why.
pub open spec fn failure_message(stage: WastStage, m: Seq<char>) -> Seq<char> {
    match stage {
        WastStage::Buffer => "Parse buffer error: "@ + m,
        WastStage::Parse => "Parse error: "@ + m,
    }
}

/// The outcome of reading a module: its symbols when `wast` accepts it,
/// else the message of its refusal.
pub open spec fn wast_outcome(s: Seq<char>, verdict: Option<(WastStage, Seq<char>)>) -> Result<SymbolTableModel, Seq<char>> {
    match verdict {
        Some(f) => Err(failure_message(f.0, f.1)),
        None => Ok(wast_symbols(s)),
    }
}

} // verus!

verus! {

fn head_exec(d: &Doc, k: usize) -> (h: usize)
    requires
        doc_wf(d),
        k < d.tree@.len(),
        syntax::kids(d.tree@, k as int).len() > 0,
    ensures
        h == head_of(d.tree@, k as int),
        h < d.tree@.len(),
{
    let ks = syntax::kids_exec(&d.tree, k, Ghost(d.chars@.len() as int));
    ks[0]
}

fn paren_close_exec(s: &Vec<char>, i: usize) -> (r: Option<usize>)
    ensures
        match paren_close(s@, i as int, 0) {
            Some(e) => r == Some(e as usize) && i <= e < s@.len(),
            None => r is None,
        },
{
    let mut j = i;
    let mut depth: i128 = 0;
    while j < s.len()
        invariant
            i <= j,
            -(j - i) <= depth <= j - i,
            j <= usize::MAX,
            paren_close(s@, i as int, 0) == paren_close(s@, j as int, depth as int),
        decreases s@.len() - j,
    {
        if s[j] == '(' {
            depth = depth + 1;
        } else if s[j] == ')' {
            if depth - 1 == 0 {
                return Some(j);
            }
            depth = depth - 1;
        }
        j = j + 1;
    }
    None
}

fn func_end_line_exec(d: &Doc, i: usize) -> (l: u32)
    requires
        doc_wf(d),
        i < d.chars@.len(),
    ensures
        l == func_end_line(d.chars@, i as int),
{
    let _m = d.pos.len();
    let e = match paren_close_exec(&d.chars, i) {
        Some(e) => e,
        None => i,
    };
    assert(syntax::text_pos_ok(d.chars@, e + 1, d.pos@[e + 1]));
    d.pos[e + 1].row as u32
}

/// The keyword that heads a field starts inside the text.
proof fn lemma_head_start(d: &Doc, k: int, w: Seq<char>)
    requires
        doc_wf(d),
        0 <= k < d.tree@.len(),
        syntax::head_is(d.chars@, d.tree@, k, w),
        d.chars@.len() < usize::MAX,
    ensures
        head_of(d.tree@, k) < d.tree@.len(),
        d.tree@[head_of(d.tree@, k)].start < d.chars@.len(),
{
    syntax::lemma_kids_bounds(d.tree@, d.chars@.len() as int, k);
    syntax::lemma_tree_atoms_ordered(d.chars@);
    let h = head_of(d.tree@, k);
    assert(syntax::is_atom(d.tree@[h]));
}

} // verus!

verus! {

fn field_place(d: &Doc, k: usize, Ghost(w): Ghost<Seq<char>>) -> (r: (u32, usize, usize))
    requires
        doc_wf(d),
        k < d.tree@.len(),
        syntax::head_is(d.chars@, d.tree@, k as int, w),
    ensures
        r.0 == field_line(d.chars@, d.tree@, k as int),
        r.1 == field_offset(d.chars@, d.tree@, k as int),
        r.2 == d.tree@[head_of(d.tree@, k as int)].start,
        r.2 < d.chars@.len(),
{
    let _m = d.pos.len();
    proof {
        lemma_head_start(d, k as int, w);
    }
    let h = head_exec(d, k);
    let start = d.tree[h].start;
    assert(syntax::text_pos_ok(d.chars@, start as int, d.pos@[start as int]));
    (parser::line_exec(d, h), d.pos[start].byte, start)
}

fn wast_func_exec(d: &Doc, k: usize, index: usize) -> (r: Function)
    requires
        doc_wf(d),
        k < d.tree@.len(),
        syntax::head_is(d.chars@, d.tree@, k as int, "func"@),
    ensures
        r.deep_view() == wast_func(d.chars@, d.tree@, k as int, index as int),
{
    let (line, off, start) = field_place(d, k, Ghost("func"@));
    let inline = !parser::has_import_exec(d, k);
    let id = parser::name_node_exec(d, k);
    let (name, range) = parser::id_name_exec(d, id);
    let parameters = if inline {
        parser::params_exec(d, k)
    } else {
        Vec::new()
    };
    let results = if inline {
        parser::results_exec(d, k)
    } else {
        Vec::new()
    };
    let locals = if inline {
        parser::locals_exec(d, k)
    } else {
        Vec::new()
    };
    let blocks = Vec::new();
    let end_line = func_end_line_exec(d, start);
    let r = Function {
        name,
        index,
        parameters,
        results,
        locals,
        blocks,
        line,
        end_line,
        start_byte: off,
        end_byte: off,
        range,
        doc_comment: None,
        has_type_use: false,
    };
    assert(r.parameters.deep_view() =~= wast_func(d.chars@, d.tree@, k as int, index as int).parameters);
    assert(r.results@ =~= wast_func(d.chars@, d.tree@, k as int, index as int).results);
    assert(r.locals.deep_view() =~= wast_func(d.chars@, d.tree@, k as int, index as int).locals);
    assert(r.blocks.deep_view() =~= wast_func(d.chars@, d.tree@, k as int, index as int).blocks);
    r
}

fn wast_import_func_exec(d: &Doc, k: usize, dn: usize, index: usize) -> (r: Function)
    requires
        doc_wf(d),
        k < d.tree@.len(),
        dn < d.tree@.len(),
        syntax::head_is(d.chars@, d.tree@, k as int, "import"@),
    ensures
        r.deep_view() == wast_import_func(d.chars@, d.tree@, k as int, dn as int, index as int),
{
    let (line, off, _start) = field_place(d, k, Ghost("import"@));
    let id = parser::name_node_exec(d, dn);
    let (name, range) = parser::id_name_exec(d, id);
    let r = Function {
        name,
        index,
        parameters: Vec::new(),
        results: Vec::new(),
        locals: Vec::new(),
        blocks: Vec::new(),
        line,
        end_line: line,
        start_byte: off,
        end_byte: off,
        range,
        doc_comment: None,
        has_type_use: false,
    };
    assert(r.parameters.deep_view() =~= Seq::empty());
    assert(r.results@ =~= Seq::empty());
    assert(r.locals.deep_view() =~= Seq::empty());
    assert(r.blocks.deep_view() =~= Seq::empty());
    r
}

fn wast_global_exec(d: &Doc, k: usize, g: usize, index: usize, Ghost(w): Ghost<Seq<char>>) -> (r: Global)
    requires
        doc_wf(d),
        k < d.tree@.len(),
        g < d.tree@.len(),
        syntax::head_is(d.chars@, d.tree@, k as int, w),
    ensures
        r.deep_view() == wast_global(d.chars@, d.tree@, k as int, g as int, index as int),
{
    let (line, _off, _start) = field_place(d, k, Ghost(w));
    let full = parser::global_exec(d, g, index);
    let id = parser::name_node_exec(d, g);
    let (name, range) = parser::id_name_exec(d, id);
    Global { name, index, var_type: full.var_type, is_mutable: full.is_mutable, initial_value: None, line, range }
}

fn wast_table_exec(d: &Doc, k: usize, g: usize, index: usize, Ghost(w): Ghost<Seq<char>>) -> (r: Table)
    requires
        doc_wf(d),
        k < d.tree@.len(),
        g < d.tree@.len(),
        syntax::head_is(d.chars@, d.tree@, k as int, w),
    ensures
        r.deep_view() == wast_table(d.chars@, d.tree@, k as int, g as int, index as int),
{
    let (line, _off, _start) = field_place(d, k, Ghost(w));
    let id = parser::name_node_exec(d, g);
    let (name, range) = parser::id_name_exec(d, id);
    Table { name, index, ref_type: ValueType::Funcref, limits: Limits(0, None), line, range }
}

fn wast_memory_exec(d: &Doc, k: usize, g: usize, index: usize, Ghost(w): Ghost<Seq<char>>) -> (r: Memory)
    requires
        doc_wf(d),
        k < d.tree@.len(),
        g < d.tree@.len(),
        syntax::head_is(d.chars@, d.tree@, k as int, w),
    ensures
        r.deep_view() == wast_memory(d.chars@, d.tree@, k as int, g as int, index as int),
{
    let (line, _off, _start) = field_place(d, k, Ghost(w));
    let id = parser::name_node_exec(d, g);
    let (name, range) = parser::id_name_exec(d, id);
    Memory { name, index, limits: Limits(0, None), line, range }
}

fn wast_tag_exec(d: &Doc, k: usize, g: usize, index: usize, Ghost(w): Ghost<Seq<char>>) -> (r: Tag)
    requires
        doc_wf(d),
        k < d.tree@.len(),
        g < d.tree@.len(),
        syntax::head_is(d.chars@, d.tree@, k as int, w),
    ensures
        r.deep_view() == wast_tag(d.chars@, d.tree@, k as int, g as int, index as int),
{
    let (line, _off, _start) = field_place(d, k, Ghost(w));
    let id = parser::name_node_exec(d, g);
    let (name, range) = parser::id_name_exec(d, id);
    let r = Tag { name, index, params: Vec::new(), line, range };
    assert(r.params@ =~= Seq::empty());
    r
}

fn wast_type_exec(d: &Doc, k: usize, index: usize) -> (r: TypeDef)
    requires
        doc_wf(d),
        k < d.tree@.len(),
        syntax::head_is(d.chars@, d.tree@, k as int, "type"@),
    ensures
        r.deep_view() == wast_type(d.chars@, d.tree@, k as int, index as int),
{
    let (line, _off, _start) = field_place(d, k, Ghost("type"@));
    let id = parser::name_node_exec(d, k);
    let (name, range) = parser::id_name_exec(d, id);
    let r = TypeDef { name, index, kind: TypeKind::Func { params: Vec::new(), results: Vec::new() }, line, range };
    assert(r.deep_view().kind =~= wast_type(d.chars@, d.tree@, k as int, index as int).kind);
    r
}

} // verus!

verus! {

/// The symbols of the fields `fs` of a document (see `wast_fold`).
fn wast_fold_exec(d: &Doc, fs: &Vec<usize>) -> (r: SymbolTable)
    requires
        doc_wf(d),
        parser::nodes_in(d, fs@),
    ensures
        r.deep_view() == wast_fold(d.chars@, d.tree@, fs@),
{
    let mut functions: Vec<Function> = Vec::new();
    let mut globals: Vec<Global> = Vec::new();
    let mut tables: Vec<Table> = Vec::new();
    let mut memories: Vec<Memory> = Vec::new();
    let mut types: Vec<TypeDef> = Vec::new();
    let mut tags: Vec<Tag> = Vec::new();
    let data_segments: Vec<crate::symbols::DataSegment> = Vec::new();
    let elem_segments: Vec<crate::symbols::ElemSegment> = Vec::new();
    let ghost s = d.chars@;
    let ghost t = d.tree@;
    proof {
        assert(fs@.take(0) =~= Seq::<usize>::empty());
        assert(functions.deep_view() =~= Seq::<FunctionModel>::empty());
        assert(globals.deep_view() =~= Seq::<GlobalModel>::empty());
        assert(tables.deep_view() =~= Seq::<TableModel>::empty());
        assert(memories.deep_view() =~= Seq::<MemoryModel>::empty());
        assert(types.deep_view() =~= Seq::<TypeDefModel>::empty());
        assert(tags.deep_view() =~= Seq::<TagModel>::empty());
        assert(data_segments.deep_view() =~= Seq::empty());
        assert(elem_segments.deep_view() =~= Seq::empty());
    }
    let mut i: usize = 0;
    while i < fs.len()
        invariant
            doc_wf(d),
            s == d.chars@,
            t == d.tree@,
            parser::nodes_in(d, fs@),
            i <= fs@.len(),
            data_segments.deep_view() == Seq::<crate::symbols::DataModel>::empty(),
            elem_segments.deep_view() == Seq::<crate::symbols::ElemModel>::empty(),
            wast_fold(s, t, fs@.take(i as int)) == (SymbolTableModel {
                functions: functions.deep_view(),
                globals: globals.deep_view(),
                tables: tables.deep_view(),
                memories: memories.deep_view(),
                types: types.deep_view(),
                tags: tags.deep_view(),
                data_segments: data_segments.deep_view(),
                elem_segments: elem_segments.deep_view(),
            }),
        decreases fs@.len() - i,
    {
        assert(fs@.take(i + 1).drop_last() =~= fs@.take(i as int));
        assert(fs@.take(i + 1).last() == fs@[i as int]);
        assert(fs@[i as int] < d.tree@.len());
        let k = fs[i];
        if parser::head_is_exec(d, k, "import") {
            match parser::import_desc_exec(d, k) {
                Some(dn) => {
                    if parser::head_is_exec(d, dn, "func") {
                        let n = functions.len();
                        push_dv(&mut functions, wast_import_func_exec(d, k, dn, n));
                    } else if parser::head_is_exec(d, dn, "global") {
                        let n = globals.len();
                        push_dv(&mut globals, wast_global_exec(d, k, dn, n, Ghost("import"@)));
                    } else if parser::head_is_exec(d, dn, "table") {
                        let n = tables.len();
                        push_dv(&mut tables, wast_table_exec(d, k, dn, n, Ghost("import"@)));
                    } else if parser::head_is_exec(d, dn, "memory") {
                        let n = memories.len();
                        push_dv(&mut memories, wast_memory_exec(d, k, dn, n, Ghost("import"@)));
                    } else {
                        let n = tags.len();
                        push_dv(&mut tags, wast_tag_exec(d, k, dn, n, Ghost("import"@)));
                    }
                },
                None => {},
            }
        } else if parser::head_is_exec(d, k, "func") {
            let n = functions.len();
            push_dv(&mut functions, wast_func_exec(d, k, n));
        } else if parser::head_is_exec(d, k, "global") {
            let n = globals.len();
            push_dv(&mut globals, wast_global_exec(d, k, k, n, Ghost("global"@)));
        } else if parser::head_is_exec(d, k, "table") {
            let n = tables.len();
            push_dv(&mut tables, wast_table_exec(d, k, k, n, Ghost("table"@)));
        } else if parser::head_is_exec(d, k, "memory") {
            let n = memories.len();
            push_dv(&mut memories, wast_memory_exec(d, k, k, n, Ghost("memory"@)));
        } else if parser::head_is_exec(d, k, "type") {
            let n = types.len();
            push_dv(&mut types, wast_type_exec(d, k, n));
        } else if parser::head_is_exec(d, k, "tag") {
            let n = tags.len();
            push_dv(&mut tags, wast_tag_exec(d, k, k, n, Ghost("tag"@)));
        }
        i = i + 1;
    }
    assert(fs@.take(i as int) =~= fs@);
    SymbolTable { functions, globals, tables, memories, types, tags, data_segments, elem_segments }
}

/// The verdict of `wast` as plain values.
pub open spec fn verdict_view(v: Option<(WastStage, String)>) -> Option<(WastStage, Seq<char>)> {
    match v {
        Some(x) => Some((x.0, x.1@)),
        None => None,
    }
}

/// The outcome of reading `source` given `wast`'s verdict on it (see
/// `wast_outcome`).
pub fn symbols_after_wast(source: &str, verdict: Option<(WastStage, String)>) -> (r: Result<SymbolTable, String>)
    requires
        source@.len() < usize::MAX,
    ensures
        match wast_outcome(source@, verdict_view(verdict)) {
            Ok(m) => r matches Ok(st) && st.deep_view() == m,
            Err(msg) => r matches Err(e) && e@ == msg,
        },
{
    match verdict {
        Some((stage, m)) => {
            let mut e = String::new();
            match stage {
                WastStage::Buffer => text::push_str(&mut e, "Parse buffer error: "),
                WastStage::Parse => text::push_str(&mut e, "Parse error: "),
            }
            text::push_str(&mut e, m.as_str());
            Err(e)
        },
        None => {
            let d = parser::read_doc(source);
            let fs = parser::document_fields_exec(&d);
            Ok(wast_fold_exec(&d, &fs))
        },
    }
}

/// Parses a WAT document with `wast` and gives its symbols, or the message
/// of `wast`'s refusal. Whatever `wast` answered, the result is the outcome of that answer (see
/// `wast_outcome`): the symbols of the text when it was accepted, else the
/// message of the refusal.
pub fn parse_document(source: &str) -> (r: Result<SymbolTable, String>)
    requires
        source@.len() < usize::MAX,
    ensures
        match r {
            Ok(st) => st.deep_view() == wast_symbols(source@),
            Err(e) => exists|stage: WastStage, m: Seq<char>| e@ == failure_message(stage, m),
        },
{
    let verdict = wast_check(source);
    symbols_after_wast(source, verdict)
}

} // verus!
