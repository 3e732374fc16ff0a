//! Go to definition: where the symbol under the cursor is declared.
use vstd::prelude::*;
use crate::parser;
use crate::references::{all_digits, cursor_context};
use crate::symbol_lookup;
use crate::symbol_lookup::{block_label_range, index_context_of, index_definition_range, local_or_param_range, symbol_definition_range};
use crate::symbols;
use crate::symbols::{first_named, last_named, lookup_named, BlockLabel, Function, Named, Parameter, SymbolTable, Variable};
use crate::syntax;
use crate::text;
use crate::types::{Position, Range};
use crate::utils;
use crate::utils::{containing_function_index, line_at, word_at, InstructionContext};

verus! {

/// The range, when there is one, starts on `line`.
pub open spec fn on_line(r: Option<Range>, line: u32) -> bool {
    r is Some && r.unwrap().start.line == line
}

/// The range of the first item, at or after position `i`, named `w` whose
/// range starts on `line`.
pub open spec fn first_on_line<T>(
    items: Seq<T>,
    name: spec_fn(T) -> Option<Seq<char>>,
    range: spec_fn(T) -> Option<Range>,
    w: Seq<char>,
    line: u32,
    i: int,
) -> Option<Range>
    decreases items.len() - i,
{
    if i < 0 || i >= items.len() {
        None
    } else if name(items[i]) == Some(w) && on_line(range(items[i]), line) {
        range(items[i])
    } else {
        first_on_line(items, name, range, w, line, i + 1)
    }
}

/// The named entity's range if it starts on `line`.
pub open spec fn named_on_line<T: symbols::Named>(items: Seq<T>, range: spec_fn(T) -> Option<Range>, w: Seq<char>, line: u32) -> Option<Range> {
    match lookup_named(items, w) {
        Some(x) => if on_line(range(x), line) {
            range(x)
        } else {
            None
        },
        None => None,
    }
}

/// The declaration of `w` on the cursor's own line: a function or global,
/// then a parameter, local or block label of the function around the
/// cursor, then a table, memory, type or tag.
pub open spec fn definition_at_cursor(w: Seq<char>, st: SymbolTable, pos: Position) -> Option<Range> {
    let l = pos.line;
    let scoped = match containing_function_index(st.functions@, l) {
        Some(i) => {
            let f = st.functions@[i];
            let p = first_on_line(f.parameters@, |x: Parameter| text::opt_view(x.name), |x: Parameter| x.range, w, l, 0);
            let v = first_on_line(f.locals@, |x: Variable| text::opt_view(x.name), |x: Variable| x.range, w, l, 0);
            let b = first_on_line(f.blocks@, |x: BlockLabel| Some(x.label@), |x: BlockLabel| x.range, w, l, 0);
            if p is Some {
                p
            } else if v is Some {
                v
            } else {
                b
            }
        },
        None => None,
    };
    let f = named_on_line(st.functions@, |x: Function| x.range, w, l);
    let g = named_on_line(st.globals@, |x: symbols::Global| x.range, w, l);
    let tb = named_on_line(st.tables@, |x: symbols::Table| x.range, w, l);
    let m = named_on_line(st.memories@, |x: symbols::Memory| x.range, w, l);
    let ty = named_on_line(st.types@, |x: symbols::TypeDef| x.range, w, l);
    let tg = named_on_line(st.tags@, |x: symbols::Tag| x.range, w, l);
    if f is Some {
        f
    } else if g is Some {
        g
    } else if scoped is Some {
        scoped
    } else if tb is Some {
        tb
    } else if m is Some {
        m
    } else if ty is Some {
        ty
    } else {
        tg
    }
}

/// The declaration that the name `w` refers to in context `ctx`.
pub open spec fn symbol_definition(w: Seq<char>, st: SymbolTable, ctx: InstructionContext, pos: Position) -> Option<Range> {
    let fi = containing_function_index(st.functions@, pos.line);
    match ctx {
        InstructionContext::Call | InstructionContext::Function => match lookup_named(st.functions@, w) {
            Some(x) => x.range,
            None => None,
        },
        InstructionContext::Global => match lookup_named(st.globals@, w) {
            Some(x) => x.range,
            None => None,
        },
        InstructionContext::Local => match fi {
            Some(i) => local_or_param_range(st.functions@[i], w),
            None => None,
        },
        InstructionContext::Branch | InstructionContext::Block => match fi {
            Some(i) => block_label_range(st.functions@[i], w),
            None => None,
        },
        InstructionContext::Table => match lookup_named(st.tables@, w) {
            Some(x) => x.range,
            None => None,
        },
        InstructionContext::Memory => match lookup_named(st.memories@, w) {
            Some(x) => x.range,
            None => None,
        },
        InstructionContext::Type => match lookup_named(st.types@, w) {
            Some(x) => x.range,
            None => None,
        },
        InstructionContext::Tag => match lookup_named(st.tags@, w) {
            Some(x) => x.range,
            None => None,
        },
        InstructionContext::Data => match lookup_named(st.data_segments@, w) {
            Some(x) => x.range,
            None => None,
        },
        InstructionContext::Elem => match lookup_named(st.elem_segments@, w) {
            Some(x) => x.range,
            None => None,
        },
        InstructionContext::General => symbol_definition_range(st, w, pos),
    }
}

/// Where the symbol under the cursor is declared: a `$name` by its context
/// (else a declaration on the cursor's line), a decimal index by the index
/// space of its context.
pub open spec fn definition(s: Seq<char>, st: SymbolTable, pos: Position) -> Option<Range> {
    match word_at(s, pos) {
        None => None,
        Some(w) => {
            let ctx = cursor_context(
                s,
                syntax::tree_of(s),
                utils::position_to_byte_spec(s, pos),
                line_at(s, pos.line as int),
            );
            if text::starts_with(w, "$"@) {
                let r = symbol_definition(w, st, ctx, pos);
                if r is None {
                    definition_at_cursor(w, st, pos)
                } else {
                    r
                }
            } else if all_digits(w) {
                match parser::bounded_value(w, 10, usize::MAX as nat) {
                    Some(i) => match index_context_of(ctx) {
                        Some(ic) => index_definition_range(st, i as int, ic, pos),
                        None => None,
                    },
                    None => None,
                }
            } else {
                None
            }
        },
    }
}

} // verus!

verus! {

fn params_on_line(ps: &Vec<Parameter>, w: &str, line: u32) -> (r: Option<Range>)
    ensures
        r == first_on_line(ps@, |x: Parameter| text::opt_view(x.name), |x: Parameter| x.range, w@, line, 0),
{
    let mut i: usize = 0;
    while i < ps.len()
        invariant
            i <= ps@.len(),
            first_on_line(ps@, |x: Parameter| text::opt_view(x.name), |x: Parameter| x.range, w@, line, 0)
                == first_on_line(ps@, |x: Parameter| text::opt_view(x.name), |x: Parameter| x.range, w@, line, i as int),
        decreases ps@.len() - i,
    {
        if text::opt_name_is(&ps[i].name, w) {
            if let Some(r) = ps[i].range {
                if r.start.line == line {
                    return Some(r);
                }
            }
        }
        i = i + 1;
    }
    None
}

fn locals_on_line(vs: &Vec<Variable>, w: &str, line: u32) -> (r: Option<Range>)
    ensures
        r == first_on_line(vs@, |x: Variable| text::opt_view(x.name), |x: Variable| x.range, w@, line, 0),
{
    let mut i: usize = 0;
    while i < vs.len()
        invariant
            i <= vs@.len(),
            first_on_line(vs@, |x: Variable| text::opt_view(x.name), |x: Variable| x.range, w@, line, 0)
                == first_on_line(vs@, |x: Variable| text::opt_view(x.name), |x: Variable| x.range, w@, line, i as int),
        decreases vs@.len() - i,
    {
        if text::opt_name_is(&vs[i].name, w) {
            if let Some(r) = vs[i].range {
                if r.start.line == line {
                    return Some(r);
                }
            }
        }
        i = i + 1;
    }
    None
}

fn blocks_on_line(bs: &Vec<BlockLabel>, w: &str, line: u32) -> (r: Option<Range>)
    ensures
        r == first_on_line(bs@, |x: BlockLabel| Some(x.label@), |x: BlockLabel| x.range, w@, line, 0),
{
    let mut i: usize = 0;
    while i < bs.len()
        invariant
            i <= bs@.len(),
            first_on_line(bs@, |x: BlockLabel| Some(x.label@), |x: BlockLabel| x.range, w@, line, 0)
                == first_on_line(bs@, |x: BlockLabel| Some(x.label@), |x: BlockLabel| x.range, w@, line, i as int),
        decreases bs@.len() - i,
    {
        if text::str_eq(bs[i].label.as_str(), w) {
            if let Some(r) = bs[i].range {
                if r.start.line == line {
                    return Some(r);
                }
            }
        }
        i = i + 1;
    }
    None
}

fn keep_on_line(r: Option<Range>, line: u32) -> (x: Option<Range>)
    ensures
        x == (if on_line(r, line) {
            r
        } else {
            None
        }),
{
    match r {
        Some(rr) => if rr.start.line == line {
            r
        } else {
            None
        },
        None => None,
    }
}

/// Check if cursor is on a definition and return that location.
fn provide_definition_at_cursor(word: &str, symbols: &SymbolTable, position: Position) -> (r: Option<Range>)
    ensures
        r == definition_at_cursor(word@, *symbols, position),
{
    let l = position.line;
    if let Some(f) = symbols.get_function_by_name(word) {
        let x = keep_on_line(f.range, l);
        if x.is_some() {
            return x;
        }
    }
    if let Some(g) = symbols.get_global_by_name(word) {
        let x = keep_on_line(g.range, l);
        if x.is_some() {
            return x;
        }
    }
    if let Some(f) = utils::find_containing_function(symbols, position) {
        let p = params_on_line(&f.parameters, word, l);
        if p.is_some() {
            return p;
        }
        let v = locals_on_line(&f.locals, word, l);
        if v.is_some() {
            return v;
        }
        let b = blocks_on_line(&f.blocks, word, l);
        if b.is_some() {
            return b;
        }
    }
    if let Some(x) = symbols.get_table_by_name(word) {
        let y = keep_on_line(x.range, l);
        if y.is_some() {
            return y;
        }
    }
    if let Some(x) = symbols.get_memory_by_name(word) {
        let y = keep_on_line(x.range, l);
        if y.is_some() {
            return y;
        }
    }
    if let Some(x) = symbols.get_type_by_name(word) {
        let y = keep_on_line(x.range, l);
        if y.is_some() {
            return y;
        }
    }
    if let Some(x) = symbols.get_tag_by_name(word) {
        return keep_on_line(x.range, l);
    }
    None
}

fn provide_symbol_definition(word: &str, symbols: &SymbolTable, ctx: InstructionContext, position: Position) -> (r: Option<Range>)
    ensures
        r == symbol_definition(word@, *symbols, ctx, position),
{
    match ctx {
        InstructionContext::Call | InstructionContext::Function => match symbols.get_function_by_name(word) {
            Some(x) => x.range,
            None => None,
        },
        InstructionContext::Global => match symbols.get_global_by_name(word) {
            Some(x) => x.range,
            None => None,
        },
        InstructionContext::Local => match utils::find_containing_function(symbols, position) {
            Some(f) => symbol_lookup::find_local_or_param_in_function(word, f),
            None => None,
        },
        InstructionContext::Branch | InstructionContext::Block => match utils::find_containing_function(symbols, position) {
            Some(f) => symbol_lookup::find_block_label_in_function(word, f),
            None => None,
        },
        InstructionContext::Table => match symbols.get_table_by_name(word) {
            Some(x) => x.range,
            None => None,
        },
        InstructionContext::Memory => match symbols.get_memory_by_name(word) {
            Some(x) => x.range,
            None => None,
        },
        InstructionContext::Type => match symbols.get_type_by_name(word) {
            Some(x) => x.range,
            None => None,
        },
        InstructionContext::Tag => match symbols.get_tag_by_name(word) {
            Some(x) => x.range,
            None => None,
        },
        InstructionContext::Data => match symbols.get_data_by_name(word) {
            Some(x) => x.range,
            None => None,
        },
        InstructionContext::Elem => match symbols.get_elem_by_name(word) {
            Some(x) => x.range,
            None => None,
        },
        InstructionContext::General => symbol_lookup::find_symbol_definition_range(word, symbols, position),
    }
}

/// Core go-to-definition returning a protocol-independent Range.
pub fn provide_definition_core(document: &str, symbols: &SymbolTable, position: Position) -> (r: Option<Range>)
    requires
        text::byte_len(document@) < usize::MAX,
    ensures
        r == definition(document@, *symbols, position),
{
    proof {
        text::lemma_byte_len_bound(document@);
    }
    let word = match utils::get_word_at_position(document, position) {
        Some(w) => w,
        None => return None,
    };
    let d = parser::read_doc(document);
    let b = utils::position_to_byte(document, position);
    let line = utils::get_line_at_position(document, position.line as usize);
    let nc = crate::references::node_context_exec(&d, b);
    let ctx = if nc != InstructionContext::General {
        nc
    } else {
        match line {
            Some(l) => utils::determine_context_from_line(l),
            None => InstructionContext::General,
        }
    };
    let wc = text::chars_of(word.as_str());
    if text::starts_with_str(wc.as_slice(), "$") {
        let r = provide_symbol_definition(word.as_str(), symbols, ctx, position);
        if r.is_none() {
            return provide_definition_at_cursor(word.as_str(), symbols, position);
        }
        return r;
    }
    if !crate::references::all_digits_exec(&wc) {
        return None;
    }
    match parser::parse_number(wc.as_slice(), 10, usize::MAX as u64) {
        Some(v) => match symbol_lookup::IndexContext::from_instruction_context(ctx) {
            Some(ic) => symbol_lookup::find_index_definition_range(v as usize, symbols, ic, position),
            None => None,
        },
        None => None,
    }
}


/// The last entry named `n` is the one that the name resolves to.
pub(crate) proof fn lemma_last_named_at<T: Named>(items: Seq<T>, n: Seq<char>, i: int)
    requires
        0 <= i < items.len(),
        items[i].spec_name() == Some(n),
        forall|j: int| i < j < items.len() ==> (#[trigger] items[j]).spec_name() != Some(n),
    ensures
        last_named(items, n) == Some(i),
        lookup_named(items, n) == Some(items[i]),
    decreases items.len(),
{
    if i < items.len() - 1 {
        let p = items.drop_last();
        assert forall|j: int| i < j < p.len() implies (#[trigger] p[j]).spec_name() != Some(n) by {
            assert(p[j] == items[j]);
        }
        assert(items[items.len() - 1].spec_name() != Some(n));
        lemma_last_named_at(p, n, i);
    }
}

/// A `$name` in the context of a module-level kind (a function after `call`
/// or `ref.func`, a global, table, memory, type, tag, data or element
/// segment) goes to the declaration of the last entity of that kind with
/// that name; a later declaration of a name takes it over.
pub proof fn law_named_definition(w: Seq<char>, st: SymbolTable, pos: Position, i: int)
    ensures
        0 <= i < st.functions@.len() && st.functions@[i].spec_name() == Some(w) && (forall|j: int|
            i < j < st.functions@.len() ==> (#[trigger] st.functions@[j]).spec_name() != Some(w)) ==> symbol_definition(
            w,
            st,
            InstructionContext::Call,
            pos,
        ) == st.functions@[i].range,
        0 <= i < st.functions@.len() && st.functions@[i].spec_name() == Some(w) && (forall|j: int|
            i < j < st.functions@.len() ==> (#[trigger] st.functions@[j]).spec_name() != Some(w)) ==> symbol_definition(
            w,
            st,
            InstructionContext::Function,
            pos,
        ) == st.functions@[i].range,
        0 <= i < st.globals@.len() && st.globals@[i].spec_name() == Some(w) && (forall|j: int|
            i < j < st.globals@.len() ==> (#[trigger] st.globals@[j]).spec_name() != Some(w)) ==> symbol_definition(
            w,
            st,
            InstructionContext::Global,
            pos,
        ) == st.globals@[i].range,
        0 <= i < st.tables@.len() && st.tables@[i].spec_name() == Some(w) && (forall|j: int|
            i < j < st.tables@.len() ==> (#[trigger] st.tables@[j]).spec_name() != Some(w)) ==> symbol_definition(
            w,
            st,
            InstructionContext::Table,
            pos,
        ) == st.tables@[i].range,
        0 <= i < st.memories@.len() && st.memories@[i].spec_name() == Some(w) && (forall|j: int|
            i < j < st.memories@.len() ==> (#[trigger] st.memories@[j]).spec_name() != Some(w)) ==> symbol_definition(
            w,
            st,
            InstructionContext::Memory,
            pos,
        ) == st.memories@[i].range,
        0 <= i < st.types@.len() && st.types@[i].spec_name() == Some(w) && (forall|j: int|
            i < j < st.types@.len() ==> (#[trigger] st.types@[j]).spec_name() != Some(w)) ==> symbol_definition(
            w,
            st,
            InstructionContext::Type,
            pos,
        ) == st.types@[i].range,
        0 <= i < st.tags@.len() && st.tags@[i].spec_name() == Some(w) && (forall|j: int|
            i < j < st.tags@.len() ==> (#[trigger] st.tags@[j]).spec_name() != Some(w)) ==> symbol_definition(
            w,
            st,
            InstructionContext::Tag,
            pos,
        ) == st.tags@[i].range,
        0 <= i < st.data_segments@.len() && st.data_segments@[i].spec_name() == Some(w) && (forall|j: int|
            i < j < st.data_segments@.len() ==> (#[trigger] st.data_segments@[j]).spec_name() != Some(w)) ==> symbol_definition(
            w,
            st,
            InstructionContext::Data,
            pos,
        ) == st.data_segments@[i].range,
        0 <= i < st.elem_segments@.len() && st.elem_segments@[i].spec_name() == Some(w) && (forall|j: int|
            i < j < st.elem_segments@.len() ==> (#[trigger] st.elem_segments@[j]).spec_name() != Some(w)) ==> symbol_definition(
            w,
            st,
            InstructionContext::Elem,
            pos,
        ) == st.elem_segments@[i].range,
{
    if 0 <= i < st.data_segments@.len() && st.data_segments@[i].spec_name() == Some(w) && (forall|j: int|
        i < j < st.data_segments@.len() ==> (#[trigger] st.data_segments@[j]).spec_name() != Some(w)) {
        lemma_last_named_at(st.data_segments@, w, i);
    }
    if 0 <= i < st.elem_segments@.len() && st.elem_segments@[i].spec_name() == Some(w) && (forall|j: int|
        i < j < st.elem_segments@.len() ==> (#[trigger] st.elem_segments@[j]).spec_name() != Some(w)) {
        lemma_last_named_at(st.elem_segments@, w, i);
    }
    if 0 <= i < st.functions@.len() && st.functions@[i].spec_name() == Some(w) && (forall|j: int|
        i < j < st.functions@.len() ==> (#[trigger] st.functions@[j]).spec_name() != Some(w)) {
        lemma_last_named_at(st.functions@, w, i);
    }
    if 0 <= i < st.globals@.len() && st.globals@[i].spec_name() == Some(w) && (forall|j: int|
        i < j < st.globals@.len() ==> (#[trigger] st.globals@[j]).spec_name() != Some(w)) {
        lemma_last_named_at(st.globals@, w, i);
    }
    if 0 <= i < st.memories@.len() && st.memories@[i].spec_name() == Some(w) && (forall|j: int|
        i < j < st.memories@.len() ==> (#[trigger] st.memories@[j]).spec_name() != Some(w)) {
        lemma_last_named_at(st.memories@, w, i);
    }
    if 0 <= i < st.tables@.len() && st.tables@[i].spec_name() == Some(w) && (forall|j: int|
        i < j < st.tables@.len() ==> (#[trigger] st.tables@[j]).spec_name() != Some(w)) {
        lemma_last_named_at(st.tables@, w, i);
    }
    if 0 <= i < st.tags@.len() && st.tags@[i].spec_name() == Some(w) && (forall|j: int|
        i < j < st.tags@.len() ==> (#[trigger] st.tags@[j]).spec_name() != Some(w)) {
        lemma_last_named_at(st.tags@, w, i);
    }
    if 0 <= i < st.types@.len() && st.types@[i].spec_name() == Some(w) && (forall|j: int|
        i < j < st.types@.len() ==> (#[trigger] st.types@[j]).spec_name() != Some(w)) {
        lemma_last_named_at(st.types@, w, i);
    }
}


/// The first entry named `n` is the one that a function-scoped name resolves to.
proof fn lemma_first_named_at<T: Named>(items: Seq<T>, n: Seq<char>, i: int)
    requires
        0 <= i < items.len(),
        items[i].spec_name() == Some(n),
        forall|j: int| 0 <= j < i ==> (#[trigger] items[j]).spec_name() != Some(n),
    ensures
        first_named(items, n) == Some(i),
{
    symbols::lemma_first_named(items, n);
    match first_named(items, n) {
        Some(k) => {
            if k < i {
                assert(items[k].spec_name() == Some(n));
            }
            if i < k {
                assert(items[i].spec_name() != Some(n));
            }
        },
        None => {
            assert(items[i].spec_name() != Some(n));
        },
    }
}

/// Inside a function, a `$name` in a local context goes to the first
/// parameter with that name, else to the first local with it; in a branch
/// or block context, to the first block label with it.
pub proof fn law_scoped_definition(w: Seq<char>, st: SymbolTable, pos: Position, fi: int, i: int)
    requires
        containing_function_index(st.functions@, pos.line) == Some(fi),
    ensures
        ({
            let f = st.functions@[fi];
            0 <= i < f.parameters@.len() && f.parameters@[i].spec_name() == Some(w) && (forall|j: int|
                0 <= j < i ==> (#[trigger] f.parameters@[j]).spec_name() != Some(w)) ==> symbol_definition(
                w,
                st,
                InstructionContext::Local,
                pos,
            ) == f.parameters@[i].range
        }),
        ({
            let f = st.functions@[fi];
            (forall|j: int| 0 <= j < f.parameters@.len() ==> (#[trigger] f.parameters@[j]).spec_name() != Some(w))
                && 0 <= i < f.locals@.len() && f.locals@[i].spec_name() == Some(w) && (forall|j: int|
                0 <= j < i ==> (#[trigger] f.locals@[j]).spec_name() != Some(w)) ==> symbol_definition(
                w,
                st,
                InstructionContext::Local,
                pos,
            ) == f.locals@[i].range
        }),
        ({
            let f = st.functions@[fi];
            0 <= i < f.blocks@.len() && f.blocks@[i].spec_name() == Some(w) && (forall|j: int|
                0 <= j < i ==> (#[trigger] f.blocks@[j]).spec_name() != Some(w)) ==> symbol_definition(
                w,
                st,
                InstructionContext::Branch,
                pos,
            ) == f.blocks@[i].range && symbol_definition(w, st, InstructionContext::Block, pos) == f.blocks@[i].range
        }),
{
    let f = st.functions@[fi];
    if 0 <= i < f.parameters@.len() && f.parameters@[i].spec_name() == Some(w) && (forall|j: int|
        0 <= j < i ==> (#[trigger] f.parameters@[j]).spec_name() != Some(w)) {
        lemma_first_named_at(f.parameters@, w, i);
    }
    if (forall|j: int| 0 <= j < f.parameters@.len() ==> (#[trigger] f.parameters@[j]).spec_name() != Some(w))
        && 0 <= i < f.locals@.len() && f.locals@[i].spec_name() == Some(w) && (forall|j: int|
        0 <= j < i ==> (#[trigger] f.locals@[j]).spec_name() != Some(w)) {
        symbols::lemma_first_named(f.parameters@, w);
        if first_named(f.parameters@, w) is Some {
            let k = first_named(f.parameters@, w).unwrap();
            assert(f.parameters@[k].spec_name() == Some(w));
        }
        lemma_first_named_at(f.locals@, w, i);
    }
    if 0 <= i < f.blocks@.len() && f.blocks@[i].spec_name() == Some(w) && (forall|j: int|
        0 <= j < i ==> (#[trigger] f.blocks@[j]).spec_name() != Some(w)) {
        lemma_first_named_at(f.blocks@, w, i);
    }
}

/// A decimal index goes to the entry at that position of its context's index
/// space; in a local context, parameters come first and locals follow them.
pub proof fn law_index_definition(st: SymbolTable, i: int, pos: Position, fi: int)
    ensures
        0 <= i < st.functions@.len() ==> index_definition_range(st, i, symbol_lookup::IndexContext::Function, pos)
            == st.functions@[i].range,
        0 <= i < st.globals@.len() ==> index_definition_range(st, i, symbol_lookup::IndexContext::Global, pos)
            == st.globals@[i].range,
        0 <= i < st.types@.len() ==> index_definition_range(st, i, symbol_lookup::IndexContext::Type, pos)
            == st.types@[i].range,
        0 <= i < st.tags@.len() ==> index_definition_range(st, i, symbol_lookup::IndexContext::Tag, pos)
            == st.tags@[i].range,
        0 <= i < st.tables@.len() ==> index_definition_range(st, i, symbol_lookup::IndexContext::Table, pos)
            == st.tables@[i].range,
        0 <= i < st.memories@.len() ==> index_definition_range(st, i, symbol_lookup::IndexContext::Memory, pos)
            == st.memories@[i].range,
        0 <= i < st.data_segments@.len() ==> index_definition_range(st, i, symbol_lookup::IndexContext::Data, pos)
            == st.data_segments@[i].range,
        0 <= i < st.elem_segments@.len() ==> index_definition_range(st, i, symbol_lookup::IndexContext::Elem, pos)
            == st.elem_segments@[i].range,
        ({
            let f = st.functions@[fi];
            containing_function_index(st.functions@, pos.line) == Some(fi) && 0 <= i < f.parameters@.len()
                ==> index_definition_range(st, i, symbol_lookup::IndexContext::Local, pos) == f.parameters@[i].range
        }),
        ({
            let f = st.functions@[fi];
            containing_function_index(st.functions@, pos.line) == Some(fi) && f.parameters@.len() <= i
                < f.parameters@.len() + f.locals@.len() ==> index_definition_range(
                st,
                i,
                symbol_lookup::IndexContext::Local,
                pos,
            ) == f.locals@[i - f.parameters@.len()].range
        }),
{
}

} // verus!
