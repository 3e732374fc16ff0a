//! Hover text: the signatures and descriptions of the symbols under the
//! cursor, in WAT syntax.
use vstd::prelude::*;
use crate::symbols;
use crate::symbols::{value_type_name, BlockLabel, DataSegment, ElemSegment, Function, Global, Memory, Parameter, SymbolTable, Table, Tag, TypeDef, TypeKind, ValueType, Variable};
use crate::symbol_lookup;
use crate::types::{HoverResult, Position};
use crate::utils;
use crate::parser;
use crate::text;
use crate::text::{push_char, push_decimal, push_str};

verus! {

/// ` (param $name type)` or ` (param type)`.
pub open spec fn param_text(p: Parameter) -> Seq<char> {
    " (param"@ + match p.name {
        Some(n) => " "@ + n@,
        None => Seq::empty(),
    } + " "@ + value_type_name(p.param_type) + ")"@
}

pub open spec fn params_text(ps: Seq<Parameter>) -> Seq<char>
    decreases ps.len(),
{
    if ps.len() == 0 {
        Seq::empty()
    } else {
        params_text(ps.drop_last()) + param_text(ps.last())
    }
}

/// Each type preceded by a space.
pub open spec fn spaced_types(vs: Seq<ValueType>) -> Seq<char>
    decreases vs.len(),
{
    if vs.len() == 0 {
        Seq::empty()
    } else {
        spaced_types(vs.drop_last()) + " "@ + value_type_name(vs.last())
    }
}

/// `(func $name (param ...)... (result ...))`.
pub open spec fn function_signature(f: Function) -> Seq<char> {
    "(func"@ + match f.name {
        Some(n) => " "@ + n@,
        None => Seq::empty(),
    } + params_text(f.parameters@) + if f.results@.len() > 0 {
        " (result"@ + spaced_types(f.results@) + ")"@
    } else {
        Seq::empty()
    } + ")"@
}

fn push_spaced_types(s: &mut String, vs: &Vec<ValueType>)
    ensures
        final(s)@ == old(s)@ + spaced_types(vs@),
{
    let ghost s0 = s@;
    let mut i: usize = 0;
    assert(vs@.take(0) =~= Seq::<ValueType>::empty());
    assert(s@ =~= s0 + spaced_types(vs@.take(0)));
    while i < vs.len()
        invariant
            i <= vs@.len(),
            s@ == s0 + spaced_types(vs@.take(i as int)),
        decreases vs@.len() - i,
    {
        assert(vs@.take(i + 1).drop_last() =~= vs@.take(i as int));
        assert(vs@.take(i + 1).last() == vs@[i as int]);
        push_str(s, " ");
        let t = vs[i].to_str();
        push_str(s, t.as_str());
        assert(s@ =~= s0 + spaced_types(vs@.take(i + 1)));
        i = i + 1;
    }
    assert(vs@.take(i as int) =~= vs@);
}

/// The WAT signature of a function, as hover and signature help show it.
pub fn format_function_signature(func: &Function) -> (sig: String)
    ensures
        sig@ == function_signature(*func),
{
    let mut sig = String::new();
    push_str(&mut sig, "(func");
    match &func.name {
        Some(n) => {
            push_str(&mut sig, " ");
            push_str(&mut sig, n.as_str());
        },
        None => {},
    }
    let ghost head = sig@;
    let mut i: usize = 0;
    assert(func.parameters@.take(0) =~= Seq::<Parameter>::empty());
    assert(sig@ =~= head + params_text(func.parameters@.take(0)));
    while i < func.parameters.len()
        invariant
            i <= func.parameters@.len(),
            sig@ == head + params_text(func.parameters@.take(i as int)),
        decreases func.parameters@.len() - i,
    {
        let p = &func.parameters[i];
        assert(func.parameters@.take(i + 1).drop_last() =~= func.parameters@.take(i as int));
        assert(func.parameters@.take(i + 1).last() == *p);
        push_str(&mut sig, " (param");
        match &p.name {
            Some(n) => {
                push_str(&mut sig, " ");
                push_str(&mut sig, n.as_str());
            },
            None => {},
        }
        push_str(&mut sig, " ");
        let t = p.param_type.to_str();
        push_str(&mut sig, t.as_str());
        push_str(&mut sig, ")");
        assert(sig@ =~= head + params_text(func.parameters@.take(i + 1)));
        i = i + 1;
    }
    assert(func.parameters@.take(i as int) =~= func.parameters@);
    if func.results.len() > 0 {
        push_str(&mut sig, " (result");
        push_spaced_types(&mut sig, &func.results);
        push_str(&mut sig, ")");
    }
    push_str(&mut sig, ")");
    assert(sig@ =~= function_signature(*func));
    sig
}

/// The type names joined by single spaces.
pub open spec fn joined_types(vs: Seq<ValueType>) -> Seq<char> {
    if vs.len() == 0 {
        Seq::empty()
    } else {
        spaced_types(vs).skip(1)
    }
}

/// The hover text of a type definition named `word`.
pub open spec fn type_signature(word: Seq<char>, td: TypeDef) -> Seq<char> {
    match td.kind {
        TypeKind::Func { params, results } => "(type "@ + word + if params@.len() > 0 {
            " (param "@ + joined_types(params@) + ")"@
        } else {
            Seq::empty()
        } + if results@.len() > 0 {
            " (result "@ + joined_types(results@) + ")"@
        } else {
            Seq::empty()
        } + ")"@,
        TypeKind::Struct { fields } => "(type "@ + word + " (struct ... "@ + text::decimal(fields@.len())
            + " fields))"@,
        TypeKind::Array { element_type, mutable } => "(type "@ + word + " (array "@ + if mutable {
            "(mut ...)"@
        } else {
            "..."@
        } + " "@ + value_type_name(element_type) + "))"@,
    }
}

proof fn lemma_spaced_types_head(vs: Seq<ValueType>)
    requires
        vs.len() > 0,
    ensures
        spaced_types(vs).len() > 0,
        spaced_types(vs)[0] == ' ',
    decreases vs.len(),
{
    reveal_strlit(" ");
    let r = spaced_types(vs.drop_last());
    assert(spaced_types(vs) == r + " "@ + value_type_name(vs.last()));
    if vs.len() > 1 {
        lemma_spaced_types_head(vs.drop_last());
        assert((r + " "@ + value_type_name(vs.last()))[0] == r[0]);
    } else {
        assert(r == Seq::<char>::empty());
        assert((r + " "@ + value_type_name(vs.last()))[0] == " "@[0]);
    }
}

/// Appends the type names joined by single spaces.
pub(crate) fn push_joined_types(s: &mut String, vs: &Vec<ValueType>)
    ensures
        final(s)@ == old(s)@ + joined_types(vs@),
{
    if vs.len() == 0 {
        assert(old(s)@ + joined_types(vs@) =~= old(s)@);
        return;
    }
    let mut tmp = String::new();
    push_spaced_types(&mut tmp, vs);
    proof {
        lemma_spaced_types_head(vs@);
    }
    let tc = text::chars_of(tmp.as_str());
    let rest = text::sub_chars(tc.as_slice(), 1, tc.len());
    let rs = text::string_from_chars(rest.as_slice());
    push_str(s, rs.as_str());
    assert(rest@ =~= spaced_types(vs@).skip(1));
}

/// The hover text of a type definition named `word`.
pub fn format_type_signature(word: &str, type_def: &TypeDef) -> (s: String)
    ensures
        s@ == type_signature(word@, *type_def),
{
    let mut s = String::new();
    push_str(&mut s, "(type ");
    push_str(&mut s, word);
    match &type_def.kind {
        TypeKind::Func { params, results } => {
            if params.len() > 0 {
                push_str(&mut s, " (param ");
                push_joined_types(&mut s, params);
                push_str(&mut s, ")");
            }
            if results.len() > 0 {
                push_str(&mut s, " (result ");
                push_joined_types(&mut s, results);
                push_str(&mut s, ")");
            }
            push_str(&mut s, ")");
        },
        TypeKind::Struct { fields } => {
            push_str(&mut s, " (struct ... ");
            push_decimal(&mut s, fields.len() as u64);
            push_str(&mut s, " fields))");
        },
        TypeKind::Array { element_type, mutable } => {
            push_str(&mut s, " (array ");
            if *mutable {
                push_str(&mut s, "(mut ...)");
            } else {
                push_str(&mut s, "...");
            }
            push_str(&mut s, " ");
            let t = element_type.to_str();
            push_str(&mut s, t.as_str());
            push_str(&mut s, "))");
        },
    }
    assert(s@ =~= type_signature(word@, *type_def));
    s
}


/// A WAT code block.
pub open spec fn code(s: Seq<char>) -> Seq<char> {
    "```wat\n"@ + s + "\n```"@
}

pub open spec fn global_text(word: Seq<char>, g: Global) -> Seq<char> {
    code("(global "@ + word + " "@ + (if g.is_mutable { "mut "@ } else { Seq::empty() }) + value_type_name(g.var_type) + ")"@)
        + match g.initial_value {
        Some(v) => "\n\nInitial value: `"@ + v@ + "`"@,
        None => Seq::empty(),
    }
}

pub open spec fn limits_text(min: u64, max: Option<u64>) -> Seq<char> {
    text::decimal(min as nat) + match max {
        Some(m) => " "@ + text::decimal(m as nat),
        None => Seq::empty(),
    }
}

pub open spec fn table_text(word: Seq<char>, t: Table) -> Seq<char> {
    code("(table "@ + word + " "@ + limits_text(t.limits.0, t.limits.1) + " "@ + value_type_name(t.ref_type) + ")"@)
}

pub open spec fn memory_text(word: Seq<char>, m: Memory) -> Seq<char> {
    code("(memory "@ + word + " "@ + limits_text(m.limits.0, m.limits.1) + ")"@)
}

pub open spec fn var_text(kw: Seq<char>, word: Seq<char>, ty: ValueType) -> Seq<char> {
    code("("@ + kw + " "@ + word + " "@ + value_type_name(ty) + ")"@)
}

pub open spec fn block_text(b: BlockLabel) -> Seq<char> {
    code("("@ + b.block_type@ + " "@ + b.label@ + ")"@) + "\nDefined at line "@ + text::decimal((b.line + 1) as nat)
}

pub open spec fn tag_text(word: Seq<char>, t: Tag) -> Seq<char> {
    code("(tag "@ + word + (if t.params@.len() > 0 { " (param "@ + joined_types(t.params@) + ")"@ } else { Seq::empty() }) + ")"@)
}

/// The first 32 bytes of a data segment's content, then `...`, when it is
/// longer; else all of it.
pub open spec fn data_preview(c: Seq<char>) -> Seq<char> {
    if text::byte_len(c) > 32 {
        c.take(text::char_index_of_byte(c, 32)) + "..."@
    } else {
        c
    }
}

pub open spec fn data_text(word: Seq<char>, d: DataSegment) -> Seq<char> {
    code("(data "@ + word + " \""@ + data_preview(d.content@) + "\")"@) + "\nLength: "@ + text::decimal(
        d.byte_length as nat,
    ) + " bytes"@
}

/// The strings joined by single spaces.
pub open spec fn joined_names(ns: Seq<Seq<char>>) -> Seq<char>
    decreases ns.len(),
{
    if ns.len() == 0 {
        Seq::empty()
    } else if ns.len() == 1 {
        ns[0]
    } else {
        joined_names(ns.drop_last()) + " "@ + ns.last()
    }
}

pub open spec fn elem_text(word: Seq<char>, e: ElemSegment) -> Seq<char> {
    let ns = e.func_names.deep_view();
    code("(elem "@ + word + " func "@ + if ns.len() > 4 {
        joined_names(ns.take(4)) + " ... ("@ + text::decimal(ns.len()) + " total)"@
    } else {
        joined_names(ns)
    } + ")"@)
}

/// A data segment's preview can be cut after 32 bytes.
pub open spec fn data_cut_ok(d: DataSegment) -> bool {
    text::byte_len(d.content@) > 32 ==> text::is_char_boundary(d.content@, 32)
}

fn push_limits(s: &mut String, min: u64, max: Option<u64>)
    ensures
        final(s)@ == old(s)@ + limits_text(min, max),
{
    push_decimal(s, min);
    match max {
        Some(m) => {
            push_str(s, " ");
            push_decimal(s, m);
        },
        None => {},
    }
    assert(s@ =~= old(s)@ + limits_text(min, max));
}

pub(crate) fn global_hover(word: &str, g: &Global) -> (r: String)
    ensures
        r@ == global_text(word@, *g),
{
    let mut s = String::new();
    push_str(&mut s, "```wat\n(global ");
    push_str(&mut s, word);
    push_str(&mut s, " ");
    if g.is_mutable {
        push_str(&mut s, "mut ");
    }
    let t = g.var_type.to_str();
    push_str(&mut s, t.as_str());
    push_str(&mut s, ")\n```");
    match &g.initial_value {
        Some(v) => {
            push_str(&mut s, "\n\nInitial value: `");
            push_str(&mut s, v.as_str());
            push_str(&mut s, "`");
        },
        None => {},
    }
    proof {
        reveal_strlit("```wat\n(global ");
        reveal_strlit("```wat\n");
        reveal_strlit("(global ");
        reveal_strlit(")\n```");
        reveal_strlit(")");
        reveal_strlit("\n```");
    }
    assert(s@ =~= global_text(word@, *g));
    s
}

pub(crate) fn table_hover(word: &str, t: &Table) -> (r: String)
    ensures
        r@ == table_text(word@, *t),
{
    let mut s = String::new();
    push_str(&mut s, "```wat\n");
    push_str(&mut s, "(table ");
    push_str(&mut s, word);
    push_str(&mut s, " ");
    push_limits(&mut s, t.limits.0, t.limits.1);
    push_str(&mut s, " ");
    let rt = t.ref_type.to_str();
    push_str(&mut s, rt.as_str());
    push_str(&mut s, ")");
    push_str(&mut s, "\n```");
    assert(s@ =~= table_text(word@, *t));
    s
}

pub(crate) fn memory_hover(word: &str, m: &Memory) -> (r: String)
    ensures
        r@ == memory_text(word@, *m),
{
    let mut s = String::new();
    push_str(&mut s, "```wat\n");
    push_str(&mut s, "(memory ");
    push_str(&mut s, word);
    push_str(&mut s, " ");
    push_limits(&mut s, m.limits.0, m.limits.1);
    push_str(&mut s, ")");
    push_str(&mut s, "\n```");
    assert(s@ =~= memory_text(word@, *m));
    s
}

pub(crate) fn var_hover(kw: &str, word: &str, ty: ValueType) -> (r: String)
    ensures
        r@ == var_text(kw@, word@, ty),
{
    let mut s = String::new();
    push_str(&mut s, "```wat\n");
    push_str(&mut s, "(");
    push_str(&mut s, kw);
    push_str(&mut s, " ");
    push_str(&mut s, word);
    push_str(&mut s, " ");
    let t = ty.to_str();
    push_str(&mut s, t.as_str());
    push_str(&mut s, ")");
    push_str(&mut s, "\n```");
    assert(s@ =~= var_text(kw@, word@, ty));
    s
}

pub(crate) fn block_hover(b: &BlockLabel) -> (r: String)
    ensures
        r@ == block_text(*b),
{
    let mut s = String::new();
    push_str(&mut s, "```wat\n");
    push_str(&mut s, "(");
    push_str(&mut s, b.block_type.as_str());
    push_str(&mut s, " ");
    push_str(&mut s, b.label.as_str());
    push_str(&mut s, ")");
    push_str(&mut s, "\n```");
    push_str(&mut s, "\nDefined at line ");
    push_decimal(&mut s, b.line as u64 + 1);
    assert(s@ =~= block_text(*b));
    s
}

pub(crate) fn tag_hover(word: &str, t: &Tag) -> (r: String)
    ensures
        r@ == tag_text(word@, *t),
{
    let mut s = String::new();
    push_str(&mut s, "```wat\n");
    push_str(&mut s, "(tag ");
    push_str(&mut s, word);
    if t.params.len() > 0 {
        push_str(&mut s, " (param ");
        push_joined_types(&mut s, &t.params);
        push_str(&mut s, ")");
    }
    push_str(&mut s, ")");
    push_str(&mut s, "\n```");
    assert(s@ =~= tag_text(word@, *t));
    s
}

pub(crate) fn data_hover(word: &str, d: &DataSegment) -> (r: String)
    requires
        data_cut_ok(*d),
    ensures
        r@ == data_text(word@, *d),
{
    let mut s = String::new();
    push_str(&mut s, "```wat\n");
    push_str(&mut s, "(data ");
    push_str(&mut s, word);
    push_str(&mut s, " \"");
    let c = text::chars_of(d.content.as_str());
    if text::byte_len_exec(c.as_slice()) > 32 {
        let k = text::char_index_at_byte(c.as_slice(), 32);
        let pre = text::sub_chars(c.as_slice(), 0, k);
        let ps = text::string_from_chars(pre.as_slice());
        push_str(&mut s, ps.as_str());
        push_str(&mut s, "...");
        assert(pre@ =~= c@.take(k as int));
    } else {
        push_str(&mut s, d.content.as_str());
    }
    push_str(&mut s, "\")");
    push_str(&mut s, "\n```");
    push_str(&mut s, "\nLength: ");
    push_decimal(&mut s, d.byte_length as u64);
    push_str(&mut s, " bytes");
    assert(s@ =~= data_text(word@, *d));
    s
}

fn push_joined_names(s: &mut String, ns: &Vec<String>, k: usize)
    requires
        k <= ns@.len(),
    ensures
        final(s)@ == old(s)@ + joined_names(ns.deep_view().take(k as int)),
{
    let ghost s0 = s@;
    let ghost nv = ns.deep_view();
    let mut i: usize = 0;
    assert(nv.take(0) =~= Seq::<Seq<char>>::empty());
    assert(s@ =~= s0 + joined_names(nv.take(0)));
    while i < k
        invariant
            i <= k <= ns@.len(),
            nv == ns.deep_view(),
            s@ == s0 + joined_names(nv.take(i as int)),
        decreases k - i,
    {
        assert(nv.take(i + 1).drop_last() =~= nv.take(i as int));
        assert(nv.take(i + 1).last() == ns@[i as int]@);
        if i > 0 {
            push_str(s, " ");
        } else {
            assert(nv.take(i + 1) =~= seq![ns@[0]@]);
        }
        push_str(s, ns[i].as_str());
        assert(s@ =~= s0 + joined_names(nv.take(i + 1)));
        i = i + 1;
    }
}

pub(crate) fn elem_hover(word: &str, e: &ElemSegment) -> (r: String)
    ensures
        r@ == elem_text(word@, *e),
{
    let mut s = String::new();
    push_str(&mut s, "```wat\n");
    push_str(&mut s, "(elem ");
    push_str(&mut s, word);
    push_str(&mut s, " func ");
    let n = e.func_names.len();
    if n > 4 {
        push_joined_names(&mut s, &e.func_names, 4);
        push_str(&mut s, " ... (");
        push_decimal(&mut s, n as u64);
        push_str(&mut s, " total)");
    } else {
        push_joined_names(&mut s, &e.func_names, n);
        assert(e.func_names.deep_view().take(n as int) =~= e.func_names.deep_view());
    }
    push_str(&mut s, ")");
    push_str(&mut s, "\n```");
    assert(s@ =~= elem_text(word@, *e));
    s
}


/// Index of the first field named `w`.
pub open spec fn first_field(fields: Seq<(Option<String>, ValueType, bool)>, w: Seq<char>) -> Option<int>
    decreases fields.len(),
{
    if fields.len() == 0 {
        None
    } else {
        match first_field(fields.drop_last(), w) {
            Some(k) => Some(k),
            None => if text::opt_view(fields.last().0) == Some(w) {
                Some(fields.len() - 1)
            } else {
                None
            },
        }
    }
}

/// The hover of field `w` of struct type `tn`; `spaced` puts a space
/// between the `(mut ` marker and the type.
#[verifier::opaque]
pub open spec fn field_text(st: SymbolTable, tn: Seq<char>, w: Seq<char>, spaced: bool) -> Option<Seq<char>> {
    let td = symbols::lookup_named(st.types@, tn);
    if td is Some && td.unwrap().kind is Struct && first_field(td.unwrap().kind->fields@, w) is Some {
        let fields = td.unwrap().kind->fields;
        let k = first_field(fields@, w).unwrap();
        Some(field_line(w, fields@[k].2, spaced, fields@[k].1, k as nat, tn))
    } else {
        None
    }
}

/// The `$name` that starts at position `d` of `r`.
pub open spec fn dollar_name(r: Seq<char>, d: int) -> Seq<char> {
    r.subrange(d, parser::name_end(r, d + 1))
}

/// The hover of field `w` through the first `op` instruction of `line` and
/// the struct type named after it.
pub open spec fn struct_op_hover(st: SymbolTable, w: Seq<char>, line: Seq<char>, op: Seq<char>) -> Option<Seq<char>> {
    match text::find_first(line, op) {
        Some(p) => {
            let after = line.skip(p + op.len());
            match text::find_first(after, "$"@) {
                Some(ts) => field_text(st, dollar_name(after, ts), w, true),
                None => None,
            }
        },
        None => None,
    }
}

/// The hover of field `w` from the nearest line at or above line `i` that
/// holds a `(type $name` declaration.
pub open spec fn type_line_hover(st: SymbolTable, w: Seq<char>, lines: Seq<Seq<char>>, i: int) -> Option<Seq<char>>
    decreases i + 1,
{
    if i < 0 || i >= lines.len() {
        None
    } else {
        let pl = lines[i];
        if text::contains(pl, "(type"@) && text::contains(pl, "$"@) {
            field_text(st, dollar_name(pl, text::find_first(pl, "$"@).unwrap()), w, false)
        } else {
            type_line_hover(st, w, lines, i - 1)
        }
    }
}

/// The hover of a struct field named `w` at `pos`: through a `struct.get` or
/// `struct.set` on the cursor's line, or, on a `(field` line, through the
/// type declared above it.
pub open spec fn struct_field_hover(st: SymbolTable, w: Seq<char>, doc: Seq<char>, pos: Position) -> Option<Seq<char>> {
    match utils::line_at(doc, pos.line as int) {
        None => None,
        Some(line) => if struct_op_hover(st, w, line, "struct.get"@) is Some {
            struct_op_hover(st, w, line, "struct.get"@)
        } else if struct_op_hover(st, w, line, "struct.set"@) is Some {
            struct_op_hover(st, w, line, "struct.set"@)
        } else if struct_op_hover(st, w, line, "struct.get_s"@) is Some {
            struct_op_hover(st, w, line, "struct.get_s"@)
        } else if struct_op_hover(st, w, line, "struct.get_u"@) is Some {
            struct_op_hover(st, w, line, "struct.get_u"@)
        } else if text::contains(line, "(field"@) && text::contains(line, w) {
            type_line_hover(st, w, text::lines_of(doc), pos.line - 1)
        } else {
            None
        },
    }
}

fn first_field_exec(fields: &Vec<(Option<String>, ValueType, bool)>, w: &Vec<char>) -> (r: Option<usize>)
    ensures
        r matches Some(i) ==> first_field(fields@, w@) == Some(i as int) && i < fields@.len(),
        r is None ==> first_field(fields@, w@) is None,
{
    let mut i: usize = 0;
    assert(fields@.take(0) =~= Seq::<(Option<String>, ValueType, bool)>::empty());
    while i < fields.len()
        invariant
            i <= fields@.len(),
            first_field(fields@.take(i as int), w@) is None,
        decreases fields@.len() - i,
    {
        assert(fields@.take(i + 1).drop_last() =~= fields@.take(i as int));
        assert(fields@.take(i + 1).last() == fields@[i as int]);
        let hit = match &fields[i].0 {
            Some(n) => {
                let nc = text::chars_of(n.as_str());
                text::chars_eq(nc.as_slice(), w.as_slice())
            },
            None => false,
        };
        if hit {
            proof {
                assert(first_field(fields@.take(i + 1), w@) == Some(i as int));
                lemma_first_field_prefix(fields@, w@, i as int + 1);
            }
            return Some(i);
        }
        i = i + 1;
    }
    assert(fields@.take(i as int) =~= fields@);
    None
}

proof fn lemma_first_field_prefix(fields: Seq<(Option<String>, ValueType, bool)>, w: Seq<char>, k: int)
    requires
        0 < k <= fields.len(),
        first_field(fields.take(k), w) is Some,
    ensures
        first_field(fields, w) == first_field(fields.take(k), w),
    decreases fields.len() - k,
{
    if k < fields.len() {
        assert(fields.take(k + 1).drop_last() =~= fields.take(k));
        lemma_first_field_prefix(fields, w, k + 1);
    } else {
        assert(fields.take(k) =~= fields);
    }
}

pub open spec fn field_line(w: Seq<char>, mutable: bool, spaced: bool, ty: ValueType, k: nat, tn: Seq<char>) -> Seq<char> {
    code(
        "(field "@ + w + " "@ + (if mutable { "(mut "@ } else { Seq::empty() }) + (if spaced {
            " "@
        } else {
            Seq::empty()
        }) + value_type_name(ty) + ")"@,
    ) + "\nField "@ + text::decimal(k) + " of "@ + tn
}

fn field_line_exec(w: &str, mutable: bool, spaced: bool, ty: ValueType, k: u64, tn: &str) -> (s: String)
    ensures
        s@ == field_line(w@, mutable, spaced, ty, k as nat, tn@),
{
    let mut s = String::new();
    push_str(&mut s, "```wat\n");
    push_str(&mut s, "(field ");
    push_str(&mut s, w);
    push_str(&mut s, " ");
    if mutable {
        push_str(&mut s, "(mut ");
    }
    if spaced {
        push_str(&mut s, " ");
    }
    let t = ty.to_str();
    push_str(&mut s, t.as_str());
    push_str(&mut s, ")");
    push_str(&mut s, "\n```");
    push_str(&mut s, "\nField ");
    push_decimal(&mut s, k);
    push_str(&mut s, " of ");
    push_str(&mut s, tn);
    assert(s@ =~= field_line(w@, mutable, spaced, ty, k as nat, tn@));
    s
}

fn field_hover_exec(st: &SymbolTable, tn: &Vec<char>, w: &Vec<char>, spaced: bool) -> (r: Option<String>)
    ensures
        match field_text(*st, tn@, w@, spaced) {
            Some(x) => r is Some && r->0@ == x,
            None => r is None,
        },
{
    let tns = text::string_from_chars(tn.as_slice());
    proof {
        symbols::lemma_last_named_in_bounds(st.types@, tn@);
        reveal(field_text);
    }
    match st.get_type_by_name(tns.as_str()) {
        Some(td) => match &td.kind {
            TypeKind::Struct { fields } => match first_field_exec(fields, w) {
                Some(k) => {
                    let ws = text::string_from_chars(w.as_slice());
                    let s = field_line_exec(ws.as_str(), fields[k].2, spaced, fields[k].1, k as u64, tns.as_str());
                    assert(tns@ == tn@);
                    assert(symbols::last_named(st.types@, tn@) is Some);
                    assert(symbols::lookup_named(st.types@, tn@) == Some(*td));
                    assert(td.kind is Struct);
                    assert(td.kind->fields == *fields);
                    assert(first_field(fields@, w@) == Some(k as int));
                    let ghost tdo = symbols::lookup_named(st.types@, tn@);
                    assert(tdo is Some);
                    assert(tdo.unwrap().kind is Struct);
                    assert(tdo.unwrap().kind->fields@ == fields@);
                    assert(first_field(tdo.unwrap().kind->fields@, w@) is Some);
                    assert(field_text(*st, tn@, w@, spaced) is Some);
                    assert(field_text(*st, tn@, w@, spaced) == Some(field_line(w@, fields@[k as int].2, spaced, fields@[k as int].1, k as nat, tn@)));
                    Some(s)
                },
                None => None,
            },
            _ => None,
        },
        None => None,
    }
}

fn dollar_name_exec(r: &Vec<char>, d: usize) -> (v: Vec<char>)
    requires
        d < r@.len(),
    ensures
        v@ == dollar_name(r@, d as int),
{
    let n = r.len();
    let mut e = d + 1;
    while e < n && (text::is_alphanumeric(r[e]) || r[e] == '_' || r[e] == '-')
        invariant
            n == r@.len(),
            d < e <= n,
            parser::name_end(r@, d + 1) == parser::name_end(r@, e as int),
        decreases n - e,
    {
        e = e + 1;
    }
    text::sub_chars(r.as_slice(), d, e)
}

fn struct_op_hover_exec(st: &SymbolTable, w: &Vec<char>, line: &Vec<char>, op: &str) -> (r: Option<String>)
    ensures
        match struct_op_hover(*st, w@, line@, op@) {
            Some(x) => r is Some && r->0@ == x,
            None => r is None,
        },
{
    let opc = text::chars_of(op);
    match text::find_first_exec(line.as_slice(), opc.as_slice()) {
        Some(p) => {
            proof {
                text::lemma_find_first_bound(line@, opc@);
                assert(text::occurs_at(line@, opc@, p as int));
            }
            let ll = line.len();
            let after = text::sub_chars(line.as_slice(), p + opc.len(), ll);
            assert(after@ =~= line@.skip(p + op@.len()));
            let dollar = text::chars_of("$");
            match text::find_first_exec(after.as_slice(), dollar.as_slice()) {
                Some(ts) => {
                    proof {
                        text::lemma_find_first_bound(after@, dollar@);
                        reveal_strlit("$");
                    }
                    let tn = dollar_name_exec(&after, ts);
                    field_hover_exec(st, &tn, w, true)
                },
                None => None,
            }
        },
        None => None,
    }
}

/// One step of the upward search for a `(type $name` line: `Some` when line
/// `pl` ends the search, with its answer.
fn type_line_step(st: &SymbolTable, w: &Vec<char>, pl: &Vec<char>) -> (r: Option<Option<HoverResult>>)
    ensures
        (text::contains(pl@, "(type"@) && text::contains(pl@, "$"@)) == r is Some,
        r matches Some(h) ==> match field_text(*st, dollar_name(pl@, text::find_first(pl@, "$"@).unwrap()), w@, false) {
            Some(x) => h is Some && h->0.contents@ == x && h->0.range is None,
            None => h is None,
        },
{
    if !(text::contains_str(pl.as_slice(), "(type") && text::contains_str(pl.as_slice(), "$")) {
        return None;
    }
    let dollar = text::chars_of("$");
    proof {
        text::lemma_find_first_bound(pl@, dollar@);
        reveal_strlit("$");
    }
    let d = match text::find_first_exec(pl.as_slice(), dollar.as_slice()) {
        Some(d) => d,
        None => {
            return Some(None);
        },
    };
    let tn = dollar_name_exec(pl, d);
    Some(
        match field_hover_exec(st, &tn, w, false) {
            Some(h) => Some(HoverResult::new(h)),
            None => None,
        },
    )
}

/// The hover for a struct field name (see `struct_field_hover`).
pub fn provide_struct_field_hover(field_name: &str, symbols: &SymbolTable, document: &str, position: Position) -> (r: Option<HoverResult>)
    ensures
        match struct_field_hover(*symbols, field_name@, document@, position) {
            Some(x) => r is Some && r->0.contents@ == x && r->0.range is None,
            None => r is None,
        },
{
    let line = match utils::get_line_at_position(document, position.line as usize) {
        Some(l) => text::chars_of(l),
        None => {
            return None;
        },
    };
    let w = text::chars_of(field_name);
    if let Some(h) = struct_op_hover_exec(symbols, &w, &line, "struct.get") {
        return Some(HoverResult::new(h));
    }
    if let Some(h) = struct_op_hover_exec(symbols, &w, &line, "struct.set") {
        return Some(HoverResult::new(h));
    }
    if let Some(h) = struct_op_hover_exec(symbols, &w, &line, "struct.get_s") {
        return Some(HoverResult::new(h));
    }
    if let Some(h) = struct_op_hover_exec(symbols, &w, &line, "struct.get_u") {
        return Some(HoverResult::new(h));
    }
    if !(text::contains_str(line.as_slice(), "(field") && text::contains_str(line.as_slice(), field_name)) {
        return None;
    }
    let dc = text::chars_of(document);
    let lines = text::lines_exec(dc.as_slice());
    scan_type_lines(symbols, &w, &lines, position.line as usize)
}

/// The hover found by searching upwards from line `cur - 1` for a
/// `(type $name` line (see `type_line_hover`).
fn scan_type_lines(st: &SymbolTable, w: &Vec<char>, lines: &Vec<Vec<char>>, cur: usize) -> (r: Option<HoverResult>)
    ensures
        match type_line_hover(*st, w@, lines.deep_view(), cur - 1) {
            Some(x) => r is Some && r->0.contents@ == x && r->0.range is None,
            None => r is None,
        },
{
    let ghost lv = lines.deep_view();
    let mut i = cur;
    while i > 0
        invariant
            i <= cur,
            lv == lines.deep_view(),
            type_line_hover(*st, w@, lv, cur - 1) == type_line_hover(*st, w@, lv, i - 1),
        decreases i,
    {
        let k = i - 1;
        if k >= lines.len() {
            return None;
        }
        assert(lv[k as int] == lines@[k as int]@);
        if let Some(h) = type_line_step(st, w, &lines[k]) {
            return h;
        }
        i = i - 1;
    }
    None
}


/// The hover of a parameter, local or label named `w` of the function
/// containing `pos`.
pub open spec fn scoped_hover(st: SymbolTable, pos: Position, w: Seq<char>) -> Option<Seq<char>> {
    match symbol_lookup::containing_function(st, pos) {
        Some(f) => match symbols::first_named(f.parameters@, w) {
            Some(i) => Some(var_text("param"@, w, f.parameters@[i].param_type)),
            None => match symbols::first_named(f.locals@, w) {
                Some(j) => Some(var_text("local"@, w, f.locals@[j].var_type)),
                None => match symbols::first_named(f.blocks@, w) {
                    Some(k) => Some(block_text(f.blocks@[k])),
                    None => None,
                },
            },
        },
        None => None,
    }
}

/// The data segment that `w` names, if any, can be previewed.
pub open spec fn data_preview_ok(st: SymbolTable, w: Seq<char>) -> bool {
    match symbols::lookup_named(st.data_segments@, w) {
        Some(d) => data_cut_ok(d),
        None => true,
    }
}

/// The hover of a `$name` whose context is unknown: the first kind of symbol
/// that has the name, in the order functions, globals, tables, types,
/// parameters, locals and labels of the containing function, tags, data and
/// elem segments, struct fields.
pub open spec fn any_symbol_hover(st: SymbolTable, w: Seq<char>, doc: Seq<char>, pos: Position) -> Option<Seq<char>> {
    if let Some(f) = symbols::lookup_named(st.functions@, w) {
        Some(function_hover_text(f))
    } else if let Some(g) = symbols::lookup_named(st.globals@, w) {
        Some(global_text(w, g))
    } else if let Some(t) = symbols::lookup_named(st.tables@, w) {
        Some(table_text(w, t))
    } else if let Some(td) = symbols::lookup_named(st.types@, w) {
        Some(code(type_signature(w, td)))
    } else if let Some(h) = scoped_hover(st, pos, w) {
        Some(h)
    } else if let Some(t) = symbols::lookup_named(st.tags@, w) {
        Some(tag_text(w, t))
    } else if let Some(d) = symbols::lookup_named(st.data_segments@, w) {
        Some(data_text(w, d))
    } else if let Some(e) = symbols::lookup_named(st.elem_segments@, w) {
        Some(elem_text(w, e))
    } else {
        struct_field_hover(st, w, doc, pos)
    }
}

pub(crate) fn code_exec(x: String) -> (r: String)
    ensures
        r@ == code(x@),
{
    let mut s = String::new();
    push_str(&mut s, "```wat\n");
    push_str(&mut s, x.as_str());
    push_str(&mut s, "\n```");
    s
}

/// The hover of a function: its signature, then its doc comment after a
/// blank line when it has one.
pub open spec fn function_hover_text(f: Function) -> Seq<char> {
    code(function_signature(f)) + match f.doc_comment {
        Some(c) => "\n\n"@ + c@,
        None => Seq::empty(),
    }
}

pub(crate) fn function_hover(f: &Function) -> (r: String)
    ensures
        r@ == function_hover_text(*f),
{
    let mut s = code_exec(format_function_signature(f));
    match &f.doc_comment {
        Some(c) => {
            push_str(&mut s, "\n\n");
            push_str(&mut s, c.as_str());
        },
        None => {},
    }
    s
}

fn scoped_hover_exec(st: &SymbolTable, pos: Position, w: &str) -> (r: Option<String>)
    ensures
        match scoped_hover(*st, pos, w@) {
            Some(x) => r is Some && r->0@ == x,
            None => r is None,
        },
{
    match crate::utils::find_containing_function(st, pos) {
        Some(f) => {
            if let Some(p) = symbol_lookup::find_param_in_function(w, f) {
                return Some(var_hover("param", w, p.param_type));
            }
            if let Some(l) = symbol_lookup::find_local_in_function(w, f) {
                return Some(var_hover("local", w, l.var_type));
            }
            if let Some(b) = symbol_lookup::find_block_in_function(w, f) {
                return Some(block_hover(b));
            }
            None
        },
        None => None,
    }
}

/// The hover of a `$name` whose context is unknown (see `any_symbol_hover`).
pub fn try_all_symbol_types(word: &str, symbols: &SymbolTable, document: &str, position: Position) -> (r: Option<HoverResult>)
    requires
        data_preview_ok(*symbols, word@),
    ensures
        match any_symbol_hover(*symbols, word@, document@, position) {
            Some(x) => r is Some && r->0.contents@ == x && r->0.range is None,
            None => r is None,
        },
{
    if let Some(f) = symbols.get_function_by_name(word) {
        return Some(HoverResult::new(function_hover(f)));
    }
    if let Some(g) = symbols.get_global_by_name(word) {
        return Some(HoverResult::new(global_hover(word, g)));
    }
    if let Some(t) = symbols.get_table_by_name(word) {
        return Some(HoverResult::new(table_hover(word, t)));
    }
    if let Some(td) = symbols.get_type_by_name(word) {
        return Some(HoverResult::new(code_exec(format_type_signature(word, td))));
    }
    if let Some(h) = scoped_hover_exec(symbols, position, word) {
        return Some(HoverResult::new(h));
    }
    if let Some(t) = symbols.get_tag_by_name(word) {
        return Some(HoverResult::new(tag_hover(word, t)));
    }
    if let Some(d) = symbols.get_data_by_name(word) {
        return Some(HoverResult::new(data_hover(word, d)));
    }
    if let Some(e) = symbols.get_elem_by_name(word) {
        return Some(HoverResult::new(elem_hover(word, e)));
    }
    provide_struct_field_hover(word, symbols, document, position)
}


/// Type names joined by spaces: nothing for no types, one name for one, and
/// a further name after a space for each type added.
pub proof fn law_joined_types(vs: Seq<ValueType>, v: ValueType)
    ensures
        joined_types(Seq::empty()) == Seq::<char>::empty(),
        joined_types(vs.push(v)) == if vs.len() == 0 {
            value_type_name(v)
        } else {
            joined_types(vs) + " "@ + value_type_name(v)
        },
{
    reveal_strlit(" ");
    let w = vs.push(v);
    assert(w.drop_last() =~= vs);
    if vs.len() == 0 {
        assert(spaced_types(vs) =~= Seq::<char>::empty());
        assert(spaced_types(w).skip(1) =~= value_type_name(v));
    } else {
        lemma_spaced_types_lead(vs);
        assert(spaced_types(w).skip(1) =~= spaced_types(vs).skip(1) + " "@ + value_type_name(v));
    }
}

proof fn lemma_spaced_types_lead(vs: Seq<ValueType>)
    requires
        vs.len() > 0,
    ensures
        spaced_types(vs).len() > 0,
        spaced_types(vs)[0] == ' ',
    decreases vs.len(),
{
    reveal_strlit(" ");
    let p = spaced_types(vs.drop_last());
    assert(spaced_types(vs) == p + " "@ + value_type_name(vs.last()));
    if vs.len() > 1 {
        lemma_spaced_types_lead(vs.drop_last());
        assert((p + " "@ + value_type_name(vs.last()))[0] == p[0]);
    } else {
        assert(p =~= Seq::<char>::empty());
        assert((p + " "@ + value_type_name(vs.last()))[0] == " "@[0]);
    }
}

/// A tag's hover is a WAT code block that declares it: `(tag <name>)` when
/// it has no parameters, else `(tag <name> (param <types>))` with its
/// parameter types in order, joined by spaces.
pub proof fn law_tag_hover(word: Seq<char>, t: Tag)
    ensures
        t.params@.len() == 0 ==> tag_text(word, t) == "```wat\n(tag "@ + word + ")\n```"@,
        t.params@.len() > 0 ==> tag_text(word, t) == "```wat\n(tag "@ + word + " (param "@ + joined_types(t.params@)
            + "))\n```"@,
{
    reveal_strlit("```wat\n");
    reveal_strlit("\n```");
    reveal_strlit("(tag ");
    reveal_strlit(")");
    reveal_strlit(")\n```");
    reveal_strlit("))\n```");
    reveal_strlit(" (param ");
    reveal_strlit("```wat\n(tag ");
    assert("```wat\n(tag "@ =~= "```wat\n"@ + "(tag "@);
    assert(")\n```"@ =~= ")"@ + "\n```"@);
    assert("))\n```"@ =~= ")"@ + ")"@ + "\n```"@);
    if t.params@.len() == 0 {
        assert(tag_text(word, t) =~= "```wat\n(tag "@ + word + ")\n```"@);
    } else {
        assert(tag_text(word, t) =~= "```wat\n(tag "@ + word + " (param "@ + joined_types(t.params@) + "))\n```"@);
    }
}


/// A global's hover declares it as WAT: `(global <name> [mut ]<type>)`, then its
/// initial value when known.
pub proof fn law_global_hover(word: Seq<char>, g: Global)
    ensures
        global_text(word, g) == "```wat\n(global "@ + word + " "@ + (if g.is_mutable { "mut "@ } else { Seq::empty() }) + value_type_name(g.var_type) + ")\n```"@ + match g.initial_value { Some(v) => "\n\nInitial value: `"@ + v@ + "`"@, None => Seq::empty() },
{
    reveal_strlit("```wat\n");
    reveal_strlit("\n```");
    reveal_strlit(")");
    reveal_strlit(")\n```");
    reveal_strlit("(global ");
    reveal_strlit("```wat\n(global ");
    assert("```wat\n(global "@ =~= "```wat\n"@ + "(global "@);
    assert(")\n```"@ =~= ")"@ + "\n```"@);
    assert(global_text(word, g) =~= "```wat\n(global "@ + word + " "@ + (if g.is_mutable { "mut "@ } else { Seq::empty() }) + value_type_name(g.var_type) + ")\n```"@ + match g.initial_value { Some(v) => "\n\nInitial value: `"@ + v@ + "`"@, None => Seq::empty() });
}

/// A table's hover declares it as WAT: `(table <name> <min>[ <max>] <reftype>)`.
pub proof fn law_table_hover(word: Seq<char>, tb: Table)
    ensures
        table_text(word, tb) == "```wat\n(table "@ + word + " "@ + text::decimal(tb.limits.0 as nat) + (match tb.limits.1 { Some(x) => " "@ + text::decimal(x as nat), None => Seq::empty() }) + " "@ + value_type_name(tb.ref_type) + ")\n```"@,
{
    reveal_strlit("```wat\n");
    reveal_strlit("\n```");
    reveal_strlit(")");
    reveal_strlit(")\n```");
    reveal_strlit("(table ");
    reveal_strlit("```wat\n(table ");
    assert("```wat\n(table "@ =~= "```wat\n"@ + "(table "@);
    assert(")\n```"@ =~= ")"@ + "\n```"@);
    assert(table_text(word, tb) =~= "```wat\n(table "@ + word + " "@ + text::decimal(tb.limits.0 as nat) + (match tb.limits.1 { Some(x) => " "@ + text::decimal(x as nat), None => Seq::empty() }) + " "@ + value_type_name(tb.ref_type) + ")\n```"@);
}

/// A memory's hover declares it as WAT: `(memory <name> <min>[ <max>])`.
pub proof fn law_memory_hover(word: Seq<char>, m: Memory)
    ensures
        memory_text(word, m) == "```wat\n(memory "@ + word + " "@ + text::decimal(m.limits.0 as nat) + (match m.limits.1 { Some(x) => " "@ + text::decimal(x as nat), None => Seq::empty() }) + ")\n```"@,
{
    reveal_strlit("```wat\n");
    reveal_strlit("\n```");
    reveal_strlit(")");
    reveal_strlit(")\n```");
    reveal_strlit("(memory ");
    reveal_strlit("```wat\n(memory ");
    assert("```wat\n(memory "@ =~= "```wat\n"@ + "(memory "@);
    assert(")\n```"@ =~= ")"@ + "\n```"@);
    assert(memory_text(word, m) =~= "```wat\n(memory "@ + word + " "@ + text::decimal(m.limits.0 as nat) + (match m.limits.1 { Some(x) => " "@ + text::decimal(x as nat), None => Seq::empty() }) + ")\n```"@);
}

/// A parameter's or local's hover declares it as WAT: `(<param|local> <name> <type>)`.
pub proof fn law_var_hover(kw: Seq<char>, word: Seq<char>, ty: ValueType)
    ensures
        var_text(kw, word, ty) == "```wat\n("@ + kw + " "@ + word + " "@ + value_type_name(ty) + ")\n```"@,
{
    reveal_strlit("```wat\n");
    reveal_strlit("\n```");
    reveal_strlit(")");
    reveal_strlit(")\n```");
    reveal_strlit("(");
    reveal_strlit("```wat\n(");
    assert("```wat\n("@ =~= "```wat\n"@ + "("@);
    assert(")\n```"@ =~= ")"@ + "\n```"@);
    assert(var_text(kw, word, ty) =~= "```wat\n("@ + kw + " "@ + word + " "@ + value_type_name(ty) + ")\n```"@);
}

/// A block label's hover declares the block as WAT: `(<block kind> <label>)`,
/// then the line it is defined on, counted from 1.
pub proof fn law_block_hover(b: BlockLabel)
    ensures
        block_text(b) == "```wat\n("@ + b.block_type@ + " "@ + b.label@ + ")\n```\nDefined at line "@ + text::decimal((b.line + 1) as nat),
{
    reveal_strlit("```wat\n");
    reveal_strlit("\n```");
    reveal_strlit(")");
    reveal_strlit(")\n```");
    reveal_strlit("(");
    reveal_strlit("```wat\n(");
    reveal_strlit("\nDefined at line ");
    reveal_strlit(")\n```\nDefined at line ");
    assert("```wat\n("@ =~= "```wat\n"@ + "("@);
    assert(")\n```\nDefined at line "@ =~= ")"@ + "\n```"@ + "\nDefined at line "@);
    assert(block_text(b) =~= "```wat\n("@ + b.block_type@ + " "@ + b.label@ + ")\n```\nDefined at line "@ + text::decimal((b.line + 1) as nat));
}

/// A data segment's hover declares it as WAT: `(data <name> "<preview>")`, then
/// its length in bytes.
pub proof fn law_data_hover(word: Seq<char>, d: DataSegment)
    ensures
        data_text(word, d) == "```wat\n(data "@ + word + " \""@ + data_preview(d.content@) + "\")\n```\nLength: "@ + text::decimal(d.byte_length as nat) + " bytes"@,
{
    reveal_strlit("```wat\n");
    reveal_strlit("\n```");
    reveal_strlit("(data ");
    reveal_strlit("```wat\n(data ");
    reveal_strlit("\")");
    reveal_strlit("\nLength: ");
    reveal_strlit("\")\n```\nLength: ");
    assert("```wat\n(data "@ =~= "```wat\n"@ + "(data "@);
    assert("\")\n```\nLength: "@ =~= "\")"@ + "\n```"@ + "\nLength: "@);
    assert(data_text(word, d) =~= "```wat\n(data "@ + word + " \""@ + data_preview(d.content@) + "\")\n```\nLength: "@ + text::decimal(d.byte_length as nat) + " bytes"@);
}

/// A function's hover is its signature as a WAT code block, then its doc
/// comment when it has one.
pub proof fn law_function_hover(f: Function)
    ensures
        function_hover_text(f) == "```wat\n"@ + function_signature(f) + "\n```"@ + match f.doc_comment { Some(c) => "\n\n"@ + c@, None => Seq::empty() },
{
    assert(function_hover_text(f) =~= "```wat\n"@ + function_signature(f) + "\n```"@ + match f.doc_comment { Some(c) => "\n\n"@ + c@, None => Seq::empty() });
}

/// A data segment's preview is its content when that is at most 32 bytes
/// long, else its first 32 bytes followed by `...`.
pub proof fn law_data_preview(c: Seq<char>)
    ensures
        text::byte_len(c) <= 32 ==> data_preview(c) == c,
        text::byte_len(c) > 32 ==> data_preview(c) == c.take(text::char_index_of_byte(c, 32)) + "..."@,
{
}


/// A function type's hover declares it as WAT: `(type <name>`, then
/// ` (param <types>)` when it has parameters and ` (result <types>)` when it
/// has results, the types in order joined by spaces, then `)`.
pub proof fn law_function_type_hover(word: Seq<char>, td: TypeDef, params: Vec<ValueType>, results: Vec<ValueType>)
    requires
        td.kind == (TypeKind::Func { params, results }),
    ensures
        type_signature(word, td) == "(type "@ + word + (if params@.len() > 0 {
            " (param "@ + joined_types(params@) + ")"@
        } else {
            Seq::empty()
        }) + (if results@.len() > 0 {
            " (result "@ + joined_types(results@) + ")"@
        } else {
            Seq::empty()
        }) + ")"@,
{
}

/// An element segment's hover lists the functions it holds: all of them
/// when at most four, else the first four and their total count.
pub proof fn law_elem_hover(word: Seq<char>, e: ElemSegment)
    ensures
        e.func_names.deep_view().len() <= 4 ==> elem_text(word, e) == "```wat\n(elem "@ + word + " func "@ + joined_names(
            e.func_names.deep_view(),
        ) + ")\n```"@,
        e.func_names.deep_view().len() > 4 ==> elem_text(word, e) == "```wat\n(elem "@ + word + " func "@ + joined_names(
            e.func_names.deep_view().take(4),
        ) + " ... ("@ + text::decimal(e.func_names.deep_view().len()) + " total))\n```"@,
{
    reveal_strlit("```wat\n");
    reveal_strlit("\n```");
    reveal_strlit(")");
    reveal_strlit("(elem ");
    reveal_strlit("```wat\n(elem ");
    reveal_strlit(")\n```");
    reveal_strlit(" total)");
    reveal_strlit(" total))\n```");
    assert("```wat\n(elem "@ =~= "```wat\n"@ + "(elem "@);
    assert(")\n```"@ =~= ")"@ + "\n```"@);
    assert(" total))\n```"@ =~= " total)"@ + ")"@ + "\n```"@);
    let ns = e.func_names.deep_view();
    if ns.len() <= 4 {
        assert(elem_text(word, e) =~= "```wat\n(elem "@ + word + " func "@ + joined_names(ns) + ")\n```"@);
    } else {
        assert(elem_text(word, e) =~= "```wat\n(elem "@ + word + " func "@ + joined_names(ns.take(4)) + " ... ("@
            + text::decimal(ns.len()) + " total))\n```"@);
    }
}

/// Names joined by spaces: one name alone, and each further name after a
/// space.
pub proof fn law_joined_names(ns: Seq<Seq<char>>, n: Seq<char>)
    ensures
        joined_names(seq![n]) == n,
        ns.len() > 0 ==> joined_names(ns.push(n)) == joined_names(ns) + " "@ + n,
{
    if ns.len() > 0 {
        assert(ns.push(n).drop_last() =~= ns);
    }
}

} // verus!
