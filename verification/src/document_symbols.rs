//! The document outline: one entry per declared entity, functions with
//! their parameters, locals and block labels as children.
use vstd::prelude::*;
use crate::hover::{joined_types, push_joined_types};
use crate::symbols::{value_type_name, BlockLabel, DataSegment, ElemSegment, Function, Global, Memory, Parameter, SymbolTable, Table, Tag, TypeDef, TypeKind, Variable};
use crate::text::{decimal, join, join_strings, push_decimal};
use crate::types::{leaf_view, DocumentSymbolInfo, OutlineEntry, OutlineLeaf, Position, Range, SymbolKindCore};

verus! {

/// `(kw i)`: how an entity without a name is shown.
pub open spec fn index_label(kw: Seq<char>, i: usize) -> Seq<char> {
    "("@ + kw + " "@ + decimal(i as nat) + ")"@
}

/// The name, or the index label when there is none.
pub open spec fn name_or_index(n: Option<String>, kw: Seq<char>, i: usize) -> Seq<char> {
    match n {
        Some(s) => s@,
        None => index_label(kw, i),
    }
}

/// The declared range, or the start of `line`.
pub open spec fn range_or_line(r: Option<Range>, line: u32) -> Range {
    match r {
        Some(x) => x,
        None => Range {
            start: Position { line, character: 0 },
            end: Position { line, character: 0 },
        },
    }
}

/// An entry without children.
pub open spec fn plain_entry(name: Seq<char>, detail: Seq<char>, kind: SymbolKindCore, range: Range) -> OutlineEntry {
    OutlineEntry { name, detail: Some(detail), kind, range, children: None }
}

/// A child entry without children.
pub open spec fn plain_leaf(name: Seq<char>, detail: Seq<char>, kind: SymbolKindCore, range: Range) -> OutlineLeaf {
    OutlineLeaf { name, detail: Some(detail), kind, range, has_children: false }
}

fn name_or_index_exec(n: &Option<String>, kw: &str, i: usize) -> (r: String)
    ensures
        r@ == name_or_index(*n, kw@, i),
{
    match n {
        Some(s) => s.clone(),
        None => {
            let mut r = "(".to_owned();
            r.append(kw);
            r.append(" ");
            push_decimal(&mut r, i as u64);
            r.append(")");
            r
        },
    }
}

fn range_or_line_exec(r: &Option<Range>, line: u32) -> (x: Range)
    ensures
        x == range_or_line(*r, line),
{
    match r {
        Some(x) => *x,
        None => Range::from_coords(line, 0, line, 0),
    }
}

fn plain_symbol(name: String, detail: String, kind: SymbolKindCore, range: Range) -> (d: DocumentSymbolInfo)
    ensures
        d.deep_view() == plain_entry(name@, detail@, kind, range),
        leaf_view(d) == plain_leaf(name@, detail@, kind, range),
{
    DocumentSymbolInfo { name, detail: Some(detail), kind, range, children: None }
}

/// What the outline shows of a type definition.
pub open spec fn type_detail(t: TypeDef) -> Seq<char> {
    match t.kind {
        TypeKind::Func { params, results } => {
            let ps = joined_types(params@);
            let rs = joined_types(results@);
            if rs.len() == 0 {
                "(func ("@ + ps + "))"@
            } else {
                "(func ("@ + ps + ") -> ("@ + rs + "))"@
            }
        },
        TypeKind::Struct { fields } => "(struct "@ + decimal(fields@.len()) + " fields)"@,
        TypeKind::Array { element_type, mutable } => "(array "@ + value_type_name(element_type) + ")"@,
    }
}

pub open spec fn type_entry(t: TypeDef) -> OutlineEntry {
    plain_entry(
        name_or_index(t.name, "type"@, t.index),
        type_detail(t),
        SymbolKindCore::Interface,
        range_or_line(t.range, t.line),
    )
}

fn type_to_symbol(t: &TypeDef) -> (d: DocumentSymbolInfo)
    ensures
        d.deep_view() == type_entry(*t),
{
    let name = name_or_index_exec(&t.name, "type", t.index);
    let detail = match &t.kind {
        TypeKind::Func { params, results } => {
            let mut ps = String::new();
            push_joined_types(&mut ps, params);
            let mut rs = String::new();
            push_joined_types(&mut rs, results);
            let mut d = "(func (".to_owned();
            d.append(ps.as_str());
            if rs.as_str().is_empty() {
                d.append("))");
            } else {
                d.append(") -> (");
                d.append(rs.as_str());
                d.append("))");
            }
            d
        },
        TypeKind::Struct { fields } => {
            let mut d = "(struct ".to_owned();
            push_decimal(&mut d, fields.len() as u64);
            d.append(" fields)");
            d
        },
        TypeKind::Array { element_type, mutable } => {
            let mut d = "(array ".to_owned();
            d.append(element_type.to_str().as_str());
            d.append(")");
            d
        },
    };
    plain_symbol(name, detail, SymbolKindCore::Interface, range_or_line_exec(&t.range, t.line))
}

/// `$name type` for a named parameter, else the type.
pub open spec fn param_summary(p: Parameter) -> Seq<char> {
    match p.name {
        Some(n) => n@ + " "@ + value_type_name(p.param_type),
        None => value_type_name(p.param_type),
    }
}

/// What the outline shows of a function: its parameters and results.
pub open spec fn function_detail(f: Function) -> Seq<char> {
    let ps = join(f.parameters@.map_values(|p: Parameter| param_summary(p)), ", "@);
    let rs = joined_types(f.results@);
    if rs.len() == 0 {
        "("@ + ps + ")"@
    } else {
        "("@ + ps + ") -> ("@ + rs + ")"@
    }
}

pub open spec fn param_leaf(p: Parameter) -> OutlineLeaf {
    plain_leaf(
        name_or_index(p.name, "param"@, p.index),
        value_type_name(p.param_type),
        SymbolKindCore::Variable,
        range_or_line(p.range, 0),
    )
}

pub open spec fn local_leaf(v: Variable) -> OutlineLeaf {
    plain_leaf(
        name_or_index(v.name, "local"@, v.index),
        value_type_name(v.var_type),
        SymbolKindCore::Variable,
        range_or_line(v.range, 0),
    )
}

pub open spec fn block_leaf(b: BlockLabel) -> OutlineLeaf {
    plain_leaf(b.label@, b.block_type@, SymbolKindCore::Key, range_or_line(b.range, b.line))
}

/// The children of a function: its parameters, locals and block labels.
pub open spec fn function_children(f: Function) -> Seq<OutlineLeaf> {
    f.parameters@.map_values(|p: Parameter| param_leaf(p)) + f.locals@.map_values(
        |v: Variable| local_leaf(v),
    ) + f.blocks@.map_values(|b: BlockLabel| block_leaf(b))
}

pub open spec fn function_entry(f: Function) -> OutlineEntry {
    OutlineEntry {
        name: name_or_index(f.name, "func"@, f.index),
        detail: Some(function_detail(f)),
        kind: SymbolKindCore::Function,
        range: match f.range {
            Some(r) => r,
            None => Range {
                start: Position { line: f.line, character: 0 },
                end: Position { line: f.end_line, character: 0 },
            },
        },
        children: if function_children(f).len() == 0 {
            None
        } else {
            Some(function_children(f))
        },
    }
}

fn param_summaries(ps: &Vec<Parameter>) -> (v: Vec<String>)
    ensures
        v@.map_values(|s: String| s@) == ps@.map_values(|p: Parameter| param_summary(p)),
{
    let mut v: Vec<String> = Vec::new();
    let mut i: usize = 0;
    while i < ps.len()
        invariant
            i <= ps@.len(),
            v@.map_values(|s: String| s@) =~= ps@.map_values(|p: Parameter| param_summary(p)).take(
                i as int,
            ),
        decreases ps@.len() - i,
    {
        let p = &ps[i];
        let ty = p.param_type.to_str();
        let s = match &p.name {
            Some(n) => {
                let mut s = n.clone();
                s.append(" ");
                s.append(ty.as_str());
                s
            },
            None => ty,
        };
        let ghost old_v = v@;
        v.push(s);
        assert(v@.map_values(|s: String| s@) =~= old_v.map_values(|s: String| s@).push(s@));
        i = i + 1;
    }
    v
}

fn leaf_symbols_params(ps: &Vec<Parameter>, out: &mut Vec<DocumentSymbolInfo>)
    ensures
        final(out)@.map_values(|x: DocumentSymbolInfo| leaf_view(x)) == old(out)@.map_values(
            |x: DocumentSymbolInfo| leaf_view(x),
        ) + ps@.map_values(|p: Parameter| param_leaf(p)),
{
    let ghost base = out@.map_values(|x: DocumentSymbolInfo| leaf_view(x));
    let mut i: usize = 0;
    while i < ps.len()
        invariant
            i <= ps@.len(),
            out@.map_values(|x: DocumentSymbolInfo| leaf_view(x)) =~= base + ps@.map_values(
                |p: Parameter| param_leaf(p),
            ).take(i as int),
        decreases ps@.len() - i,
    {
        let p = &ps[i];
        let d = plain_symbol(
            name_or_index_exec(&p.name, "param", p.index),
            p.param_type.to_str(),
            SymbolKindCore::Variable,
            range_or_line_exec(&p.range, 0),
        );
        let ghost old_v = out@;
        out.push(d);
        assert(out@.map_values(|x: DocumentSymbolInfo| leaf_view(x)) =~= old_v.map_values(
            |x: DocumentSymbolInfo| leaf_view(x),
        ).push(leaf_view(d)));
        i = i + 1;
    }
    assert(ps@.map_values(|p: Parameter| param_leaf(p)).take(i as int) =~= ps@.map_values(
        |p: Parameter| param_leaf(p),
    ));
}

fn leaf_symbols_locals(vs: &Vec<Variable>, out: &mut Vec<DocumentSymbolInfo>)
    ensures
        final(out)@.map_values(|x: DocumentSymbolInfo| leaf_view(x)) == old(out)@.map_values(
            |x: DocumentSymbolInfo| leaf_view(x),
        ) + vs@.map_values(|v: Variable| local_leaf(v)),
{
    let ghost base = out@.map_values(|x: DocumentSymbolInfo| leaf_view(x));
    let mut i: usize = 0;
    while i < vs.len()
        invariant
            i <= vs@.len(),
            out@.map_values(|x: DocumentSymbolInfo| leaf_view(x)) =~= base + vs@.map_values(
                |v: Variable| local_leaf(v),
            ).take(i as int),
        decreases vs@.len() - i,
    {
        let v = &vs[i];
        let d = plain_symbol(
            name_or_index_exec(&v.name, "local", v.index),
            v.var_type.to_str(),
            SymbolKindCore::Variable,
            range_or_line_exec(&v.range, 0),
        );
        let ghost old_v = out@;
        out.push(d);
        assert(out@.map_values(|x: DocumentSymbolInfo| leaf_view(x)) =~= old_v.map_values(
            |x: DocumentSymbolInfo| leaf_view(x),
        ).push(leaf_view(d)));
        i = i + 1;
    }
    assert(vs@.map_values(|v: Variable| local_leaf(v)).take(i as int) =~= vs@.map_values(
        |v: Variable| local_leaf(v),
    ));
}

fn leaf_symbols_blocks(bs: &Vec<BlockLabel>, out: &mut Vec<DocumentSymbolInfo>)
    ensures
        final(out)@.map_values(|x: DocumentSymbolInfo| leaf_view(x)) == old(out)@.map_values(
            |x: DocumentSymbolInfo| leaf_view(x),
        ) + bs@.map_values(|b: BlockLabel| block_leaf(b)),
{
    let ghost base = out@.map_values(|x: DocumentSymbolInfo| leaf_view(x));
    let mut i: usize = 0;
    while i < bs.len()
        invariant
            i <= bs@.len(),
            out@.map_values(|x: DocumentSymbolInfo| leaf_view(x)) =~= base + bs@.map_values(
                |b: BlockLabel| block_leaf(b),
            ).take(i as int),
        decreases bs@.len() - i,
    {
        let b = &bs[i];
        let d = plain_symbol(
            b.label.clone(),
            b.block_type.clone(),
            SymbolKindCore::Key,
            range_or_line_exec(&b.range, b.line),
        );
        let ghost old_v = out@;
        out.push(d);
        assert(out@.map_values(|x: DocumentSymbolInfo| leaf_view(x)) =~= old_v.map_values(
            |x: DocumentSymbolInfo| leaf_view(x),
        ).push(leaf_view(d)));
        i = i + 1;
    }
    assert(bs@.map_values(|b: BlockLabel| block_leaf(b)).take(i as int) =~= bs@.map_values(
        |b: BlockLabel| block_leaf(b),
    ));
}

fn function_to_symbol(f: &Function) -> (d: DocumentSymbolInfo)
    ensures
        d.deep_view() == function_entry(*f),
{
    let name = name_or_index_exec(&f.name, "func", f.index);
    let ps = join_strings(&param_summaries(&f.parameters), ", ");
    let mut rs = String::new();
    push_joined_types(&mut rs, &f.results);
    let mut detail = "(".to_owned();
    detail.append(ps.as_str());
    if rs.as_str().is_empty() {
        detail.append(")");
    } else {
        detail.append(") -> (");
        detail.append(rs.as_str());
        detail.append(")");
    }
    let range = match &f.range {
        Some(r) => *r,
        None => Range::from_coords(f.line, 0, f.end_line, 0),
    };
    let mut children: Vec<DocumentSymbolInfo> = Vec::new();
    leaf_symbols_params(&f.parameters, &mut children);
    leaf_symbols_locals(&f.locals, &mut children);
    leaf_symbols_blocks(&f.blocks, &mut children);
    proof {
        assert(children@.map_values(|x: DocumentSymbolInfo| leaf_view(x)) =~= function_children(*f));
    }
    let children = if children.len() == 0 {
        None
    } else {
        Some(children)
    };
    DocumentSymbolInfo { name, detail: Some(detail), kind: SymbolKindCore::Function, range, children }
}

pub open spec fn global_entry(g: Global) -> OutlineEntry {
    plain_entry(
        name_or_index(g.name, "global"@, g.index),
        (if g.is_mutable {
            "mut "@
        } else {
            Seq::empty()
        }) + value_type_name(g.var_type),
        SymbolKindCore::Constant,
        range_or_line(g.range, g.line),
    )
}

fn global_to_symbol(g: &Global) -> (d: DocumentSymbolInfo)
    ensures
        d.deep_view() == global_entry(*g),
{
    let mut detail = if g.is_mutable {
        "mut ".to_owned()
    } else {
        String::new()
    };
    detail.append(g.var_type.to_str().as_str());
    plain_symbol(
        name_or_index_exec(&g.name, "global", g.index),
        detail,
        SymbolKindCore::Constant,
        range_or_line_exec(&g.range, g.line),
    )
}

pub open spec fn table_entry(t: Table) -> OutlineEntry {
    plain_entry(
        name_or_index(t.name, "table"@, t.index),
        decimal(t.limits.0 as nat) + " "@ + match t.limits.1 {
            Some(m) => decimal(m as nat),
            None => Seq::empty(),
        } + " "@ + value_type_name(t.ref_type),
        SymbolKindCore::Array,
        range_or_line(t.range, t.line),
    )
}

fn table_to_symbol(t: &Table) -> (d: DocumentSymbolInfo)
    ensures
        d.deep_view() == table_entry(*t),
{
    let mut detail = String::new();
    push_decimal(&mut detail, t.limits.0);
    detail.append(" ");
    if let Some(m) = t.limits.1 {
        push_decimal(&mut detail, m);
    }
    detail.append(" ");
    detail.append(t.ref_type.to_str().as_str());
    plain_symbol(
        name_or_index_exec(&t.name, "table", t.index),
        detail,
        SymbolKindCore::Array,
        range_or_line_exec(&t.range, t.line),
    )
}

pub open spec fn memory_entry(m: Memory) -> OutlineEntry {
    plain_entry(
        name_or_index(m.name, "memory"@, m.index),
        decimal(m.limits.0 as nat) + match m.limits.1 {
            Some(x) => " "@ + decimal(x as nat),
            None => Seq::empty(),
        },
        SymbolKindCore::Object,
        range_or_line(m.range, m.line),
    )
}

fn memory_to_symbol(m: &Memory) -> (d: DocumentSymbolInfo)
    ensures
        d.deep_view() == memory_entry(*m),
{
    let mut detail = String::new();
    push_decimal(&mut detail, m.limits.0);
    if let Some(x) = m.limits.1 {
        detail.append(" ");
        push_decimal(&mut detail, x);
        assert(detail@ =~= decimal(m.limits.0 as nat) + (" "@ + decimal(x as nat)));
    } else {
        assert(detail@ =~= decimal(m.limits.0 as nat) + Seq::<char>::empty());
    }
    plain_symbol(
        name_or_index_exec(&m.name, "memory", m.index),
        detail,
        SymbolKindCore::Object,
        range_or_line_exec(&m.range, m.line),
    )
}

pub open spec fn tag_entry(t: Tag) -> OutlineEntry {
    plain_entry(
        name_or_index(t.name, "tag"@, t.index),
        if t.params@.len() == 0 {
            "()"@
        } else {
            "("@ + joined_types(t.params@) + ")"@
        },
        SymbolKindCore::Event,
        range_or_line(t.range, t.line),
    )
}

fn tag_to_symbol(t: &Tag) -> (d: DocumentSymbolInfo)
    ensures
        d.deep_view() == tag_entry(*t),
{
    let detail = if t.params.len() == 0 {
        "()".to_owned()
    } else {
        let mut d = "(".to_owned();
        push_joined_types(&mut d, &t.params);
        d.append(")");
        d
    };
    plain_symbol(
        name_or_index_exec(&t.name, "tag", t.index),
        detail,
        SymbolKindCore::Event,
        range_or_line_exec(&t.range, t.line),
    )
}

pub open spec fn data_entry(d: DataSegment) -> OutlineEntry {
    plain_entry(
        name_or_index(d.name, "data"@, d.index),
        decimal(d.byte_length as nat) + " bytes"@,
        SymbolKindCore::String,
        range_or_line(d.range, d.line),
    )
}

fn data_to_symbol(d: &DataSegment) -> (r: DocumentSymbolInfo)
    ensures
        r.deep_view() == data_entry(*d),
{
    let mut detail = String::new();
    push_decimal(&mut detail, d.byte_length as u64);
    detail.append(" bytes");
    plain_symbol(
        name_or_index_exec(&d.name, "data", d.index),
        detail,
        SymbolKindCore::String,
        range_or_line_exec(&d.range, d.line),
    )
}

pub open spec fn elem_entry(e: ElemSegment) -> OutlineEntry {
    plain_entry(
        name_or_index(e.name, "elem"@, e.index),
        decimal(e.func_names@.len()) + " functions"@,
        SymbolKindCore::Array,
        range_or_line(e.range, e.line),
    )
}

fn elem_to_symbol(e: &ElemSegment) -> (r: DocumentSymbolInfo)
    ensures
        r.deep_view() == elem_entry(*e),
{
    let mut detail = String::new();
    push_decimal(&mut detail, e.func_names.len() as u64);
    detail.append(" functions");
    plain_symbol(
        name_or_index_exec(&e.name, "elem", e.index),
        detail,
        SymbolKindCore::Array,
        range_or_line_exec(&e.range, e.line),
    )
}

} // verus!

verus! {

/// The outline of a symbol table: types, functions, globals, tables,
/// memories, tags, data segments and element segments, each in order.
pub open spec fn document_outline(sym: SymbolTable) -> Seq<OutlineEntry> {
    sym.types@.map_values(|x: TypeDef| type_entry(x))
        + sym.functions@.map_values(|x: Function| function_entry(x))
        + sym.globals@.map_values(|x: Global| global_entry(x))
        + sym.tables@.map_values(|x: Table| table_entry(x))
        + sym.memories@.map_values(|x: Memory| memory_entry(x))
        + sym.tags@.map_values(|x: Tag| tag_entry(x))
        + sym.data_segments@.map_values(|x: DataSegment| data_entry(x))
        + sym.elem_segments@.map_values(|x: ElemSegment| elem_entry(x))
}

fn push_types(xs: &Vec<TypeDef>, out: &mut Vec<DocumentSymbolInfo>)
    ensures
        final(out).deep_view() == old(out).deep_view() + xs@.map_values(|x: TypeDef| type_entry(x)),
{
    let ghost base = out.deep_view();
    let mut i: usize = 0;
    while i < xs.len()
        invariant
            i <= xs@.len(),
            out.deep_view() =~= base + xs@.map_values(|x: TypeDef| type_entry(x)).take(i as int),
        decreases xs@.len() - i,
    {
        let d = type_to_symbol(&xs[i]);
        crate::symbols::push_dv(out, d);
        i = i + 1;
    }
    assert(xs@.map_values(|x: TypeDef| type_entry(x)).take(i as int) =~= xs@.map_values(|x: TypeDef| type_entry(x)));
}

fn push_functions(xs: &Vec<Function>, out: &mut Vec<DocumentSymbolInfo>)
    ensures
        final(out).deep_view() == old(out).deep_view() + xs@.map_values(|x: Function| function_entry(x)),
{
    let ghost base = out.deep_view();
    let mut i: usize = 0;
    while i < xs.len()
        invariant
            i <= xs@.len(),
            out.deep_view() =~= base + xs@.map_values(|x: Function| function_entry(x)).take(i as int),
        decreases xs@.len() - i,
    {
        let d = function_to_symbol(&xs[i]);
        crate::symbols::push_dv(out, d);
        i = i + 1;
    }
    assert(xs@.map_values(|x: Function| function_entry(x)).take(i as int) =~= xs@.map_values(|x: Function| function_entry(x)));
}

fn push_globals(xs: &Vec<Global>, out: &mut Vec<DocumentSymbolInfo>)
    ensures
        final(out).deep_view() == old(out).deep_view() + xs@.map_values(|x: Global| global_entry(x)),
{
    let ghost base = out.deep_view();
    let mut i: usize = 0;
    while i < xs.len()
        invariant
            i <= xs@.len(),
            out.deep_view() =~= base + xs@.map_values(|x: Global| global_entry(x)).take(i as int),
        decreases xs@.len() - i,
    {
        let d = global_to_symbol(&xs[i]);
        crate::symbols::push_dv(out, d);
        i = i + 1;
    }
    assert(xs@.map_values(|x: Global| global_entry(x)).take(i as int) =~= xs@.map_values(|x: Global| global_entry(x)));
}

fn push_tables(xs: &Vec<Table>, out: &mut Vec<DocumentSymbolInfo>)
    ensures
        final(out).deep_view() == old(out).deep_view() + xs@.map_values(|x: Table| table_entry(x)),
{
    let ghost base = out.deep_view();
    let mut i: usize = 0;
    while i < xs.len()
        invariant
            i <= xs@.len(),
            out.deep_view() =~= base + xs@.map_values(|x: Table| table_entry(x)).take(i as int),
        decreases xs@.len() - i,
    {
        let d = table_to_symbol(&xs[i]);
        crate::symbols::push_dv(out, d);
        i = i + 1;
    }
    assert(xs@.map_values(|x: Table| table_entry(x)).take(i as int) =~= xs@.map_values(|x: Table| table_entry(x)));
}

fn push_memories(xs: &Vec<Memory>, out: &mut Vec<DocumentSymbolInfo>)
    ensures
        final(out).deep_view() == old(out).deep_view() + xs@.map_values(|x: Memory| memory_entry(x)),
{
    let ghost base = out.deep_view();
    let mut i: usize = 0;
    while i < xs.len()
        invariant
            i <= xs@.len(),
            out.deep_view() =~= base + xs@.map_values(|x: Memory| memory_entry(x)).take(i as int),
        decreases xs@.len() - i,
    {
        let d = memory_to_symbol(&xs[i]);
        crate::symbols::push_dv(out, d);
        i = i + 1;
    }
    assert(xs@.map_values(|x: Memory| memory_entry(x)).take(i as int) =~= xs@.map_values(|x: Memory| memory_entry(x)));
}

fn push_tags(xs: &Vec<Tag>, out: &mut Vec<DocumentSymbolInfo>)
    ensures
        final(out).deep_view() == old(out).deep_view() + xs@.map_values(|x: Tag| tag_entry(x)),
{
    let ghost base = out.deep_view();
    let mut i: usize = 0;
    while i < xs.len()
        invariant
            i <= xs@.len(),
            out.deep_view() =~= base + xs@.map_values(|x: Tag| tag_entry(x)).take(i as int),
        decreases xs@.len() - i,
    {
        let d = tag_to_symbol(&xs[i]);
        crate::symbols::push_dv(out, d);
        i = i + 1;
    }
    assert(xs@.map_values(|x: Tag| tag_entry(x)).take(i as int) =~= xs@.map_values(|x: Tag| tag_entry(x)));
}

fn push_data_segments(xs: &Vec<DataSegment>, out: &mut Vec<DocumentSymbolInfo>)
    ensures
        final(out).deep_view() == old(out).deep_view() + xs@.map_values(|x: DataSegment| data_entry(x)),
{
    let ghost base = out.deep_view();
    let mut i: usize = 0;
    while i < xs.len()
        invariant
            i <= xs@.len(),
            out.deep_view() =~= base + xs@.map_values(|x: DataSegment| data_entry(x)).take(i as int),
        decreases xs@.len() - i,
    {
        let d = data_to_symbol(&xs[i]);
        crate::symbols::push_dv(out, d);
        i = i + 1;
    }
    assert(xs@.map_values(|x: DataSegment| data_entry(x)).take(i as int) =~= xs@.map_values(|x: DataSegment| data_entry(x)));
}

fn push_elem_segments(xs: &Vec<ElemSegment>, out: &mut Vec<DocumentSymbolInfo>)
    ensures
        final(out).deep_view() == old(out).deep_view() + xs@.map_values(|x: ElemSegment| elem_entry(x)),
{
    let ghost base = out.deep_view();
    let mut i: usize = 0;
    while i < xs.len()
        invariant
            i <= xs@.len(),
            out.deep_view() =~= base + xs@.map_values(|x: ElemSegment| elem_entry(x)).take(i as int),
        decreases xs@.len() - i,
    {
        let d = elem_to_symbol(&xs[i]);
        crate::symbols::push_dv(out, d);
        i = i + 1;
    }
    assert(xs@.map_values(|x: ElemSegment| elem_entry(x)).take(i as int) =~= xs@.map_values(|x: ElemSegment| elem_entry(x)));
}

/// Produce a hierarchical outline of all symbols in the document.
pub fn provide_document_symbols_core(symbols: &SymbolTable) -> (v: Vec<DocumentSymbolInfo>)
    ensures
        v.deep_view() == document_outline(*symbols),
{
    let mut v: Vec<DocumentSymbolInfo> = Vec::new();
    push_types(&symbols.types, &mut v);
    push_functions(&symbols.functions, &mut v);
    push_globals(&symbols.globals, &mut v);
    push_tables(&symbols.tables, &mut v);
    push_memories(&symbols.memories, &mut v);
    push_tags(&symbols.tags, &mut v);
    push_data_segments(&symbols.data_segments, &mut v);
    push_elem_segments(&symbols.elem_segments, &mut v);
    assert(v.deep_view() =~= document_outline(*symbols));
    v
}

} // verus!

verus! {

/// The outline has one top-level entry per declared entity, types first and
/// then functions, and a function's entry has one child per parameter,
/// local and block label (and no child list when it has none of them).
pub proof fn law_outline_one_entry_per_entity(sym: SymbolTable)
    ensures
        document_outline(sym).len() == sym.types@.len() + sym.functions@.len() + sym.globals@.len()
            + sym.tables@.len() + sym.memories@.len() + sym.tags@.len() + sym.data_segments@.len()
            + sym.elem_segments@.len(),
        forall|i: int|
            0 <= i < sym.functions@.len() ==> #[trigger] document_outline(sym)[sym.types@.len() + i]
                == function_entry(sym.functions@[i]),
        forall|f: Function|
            #![trigger function_entry(f)]
            match function_entry(f).children {
                Some(c) => c.len() == f.parameters@.len() + f.locals@.len() + f.blocks@.len() && c.len()
                    > 0,
                None => f.parameters@.len() + f.locals@.len() + f.blocks@.len() == 0,
            },
{
    let o = document_outline(sym);
    assert forall|i: int| 0 <= i < sym.functions@.len() implies #[trigger] o[sym.types@.len() + i]
        == function_entry(sym.functions@[i]) by {
        let ts = sym.types@.map_values(|x: TypeDef| type_entry(x));
        let fs = sym.functions@.map_values(|x: Function| function_entry(x));
        assert((ts + fs)[sym.types@.len() + i] == fs[i]);
    }
}


/// The outline lists types, then functions, globals, tables, memories,
/// tags, data segments and element segments, each kind in the table's
/// order; a function's children are its parameters, then its locals, then
/// its block labels, in order.
pub proof fn law_outline_order(sym: SymbolTable)
    ensures
        ({
            let o = document_outline(sym);
            let nt = sym.types@.len() as int;
            let nf = nt + sym.functions@.len();
            let ng = nf + sym.globals@.len();
            let nb = ng + sym.tables@.len();
            let nm = nb + sym.memories@.len();
            let ntag = nm + sym.tags@.len();
            let nd = ntag + sym.data_segments@.len();
            &&& o.len() == nd + sym.elem_segments@.len()
            &&& forall|i: int| 0 <= i < nt ==> #[trigger] o[i] == type_entry(sym.types@[i])
            &&& forall|i: int| nt <= i < nf ==> #[trigger] o[i] == function_entry(sym.functions@[i - nt])
            &&& forall|i: int| nf <= i < ng ==> #[trigger] o[i] == global_entry(sym.globals@[i - nf])
            &&& forall|i: int| ng <= i < nb ==> #[trigger] o[i] == table_entry(sym.tables@[i - ng])
            &&& forall|i: int| nb <= i < nm ==> #[trigger] o[i] == memory_entry(sym.memories@[i - nb])
            &&& forall|i: int| nm <= i < ntag ==> #[trigger] o[i] == tag_entry(sym.tags@[i - nm])
            &&& forall|i: int| ntag <= i < nd ==> #[trigger] o[i] == data_entry(sym.data_segments@[i - ntag])
            &&& forall|i: int| nd <= i < o.len() ==> #[trigger] o[i] == elem_entry(sym.elem_segments@[i - nd])
        }),
        forall|f: Function| #[trigger] function_children(f).len() == f.parameters@.len() + f.locals@.len()
            + f.blocks@.len(),
        forall|f: Function, k: int| {
            let np = f.parameters@.len() as int;
            let nl = np + f.locals@.len();
            &&& (0 <= k < np ==> #[trigger] function_children(f)[k] == param_leaf(f.parameters@[k]))
            &&& (np <= k < nl ==> function_children(f)[k] == local_leaf(f.locals@[k - np]))
            &&& (nl <= k < nl + f.blocks@.len() ==> function_children(f)[k] == block_leaf(f.blocks@[k - nl]))
        },
{
    let ts = sym.types@.map_values(|x: TypeDef| type_entry(x));
    let fs = sym.functions@.map_values(|x: Function| function_entry(x));
    let gs = sym.globals@.map_values(|x: Global| global_entry(x));
    let tb = sym.tables@.map_values(|x: Table| table_entry(x));
    let ms = sym.memories@.map_values(|x: Memory| memory_entry(x));
    let tg = sym.tags@.map_values(|x: Tag| tag_entry(x));
    let ds = sym.data_segments@.map_values(|x: DataSegment| data_entry(x));
    let es = sym.elem_segments@.map_values(|x: ElemSegment| elem_entry(x));
    let o = document_outline(sym);
    assert(o == ts + fs + gs + tb + ms + tg + ds + es);
}


/// Each outline entry names its entity (or, unnamed, shows `(<kind> <index>)`),
/// sits at its declared range (or the start of its line), and has no
/// children unless it is a function; a function is a Function entry, a
/// global a Constant whose detail is its type after `mut ` when mutable, a
/// table an Array, a memory an Object and a tag an Event whose detail is its
/// parameter types in parentheses.
pub proof fn law_outline_entries(f: Function, g: Global, t: Table, m: Memory, tg: Tag)
    ensures
        function_entry(f).name == match f.name { Some(n) => n@, None => "("@ + "func"@ + " "@ + decimal(f.index as nat) + ")"@ },
        function_entry(f).kind == SymbolKindCore::Function,
        function_entry(f).range == match f.range { Some(r) => r, None => Range { start: Position { line: f.line, character: 0 }, end: Position { line: f.end_line, character: 0 } } },
        global_entry(g).name == match g.name { Some(n) => n@, None => "("@ + "global"@ + " "@ + decimal(g.index as nat) + ")"@ },
        global_entry(g).kind == SymbolKindCore::Constant,
        global_entry(g).range == match g.range { Some(r) => r, None => Range { start: Position { line: g.line, character: 0 }, end: Position { line: g.line, character: 0 } } },
        global_entry(g).children is None,
        global_entry(g).detail == Some((if g.is_mutable { "mut "@ } else { Seq::empty() }) + value_type_name(g.var_type)),
        table_entry(t).name == match t.name { Some(n) => n@, None => "("@ + "table"@ + " "@ + decimal(t.index as nat) + ")"@ },
        table_entry(t).kind == SymbolKindCore::Array,
        table_entry(t).range == match t.range { Some(r) => r, None => Range { start: Position { line: t.line, character: 0 }, end: Position { line: t.line, character: 0 } } },
        table_entry(t).children is None,
        memory_entry(m).name == match m.name { Some(n) => n@, None => "("@ + "memory"@ + " "@ + decimal(m.index as nat) + ")"@ },
        memory_entry(m).kind == SymbolKindCore::Object,
        memory_entry(m).range == match m.range { Some(r) => r, None => Range { start: Position { line: m.line, character: 0 }, end: Position { line: m.line, character: 0 } } },
        memory_entry(m).children is None,
        tag_entry(tg).name == match tg.name { Some(n) => n@, None => "("@ + "tag"@ + " "@ + decimal(tg.index as nat) + ")"@ },
        tag_entry(tg).kind == SymbolKindCore::Event,
        tag_entry(tg).range == match tg.range { Some(r) => r, None => Range { start: Position { line: tg.line, character: 0 }, end: Position { line: tg.line, character: 0 } } },
        tag_entry(tg).children is None,
        tag_entry(tg).detail == Some("("@ + joined_types(tg.params@) + ")"@),
{
    reveal_strlit("()");
    reveal_strlit("(");
    reveal_strlit(")");
    if tg.params@.len() == 0 {
        assert(joined_types(tg.params@) =~= Seq::<char>::empty());
        assert("()"@ =~= "("@ + joined_types(tg.params@) + ")"@);
    }
}

} // verus!
