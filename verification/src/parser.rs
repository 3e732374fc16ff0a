//! Symbol extraction: walks the syntax tree of a WAT (or multi-module WAST)
//! document and builds the symbol table of every declared entity.
use vstd::prelude::*;
use crate::syntax;
use crate::syntax::{kids_exec, range_is, SyntaxNode, NodeKind, TextPos};
use crate::text;
use crate::symbols::{ValueType, Parameter, Variable, BlockLabel, ParameterModel, VariableModel, BlockLabelModel, TypeKind, TypeKindModel, TypeDef, TypeDefModel, Global, GlobalModel, Table, TableModel, Memory, MemoryModel, Tag, TagModel, Limits, Function, FunctionModel, DataSegment, DataModel, ElemSegment, ElemModel, SymbolTable, SymbolTableModel, field_view, push_dv};

verus! {

pub open spec fn strip_plus(w: Seq<char>) -> Seq<char> {
    if w.len() > 0 && w[0] == '+' {
        w.drop_first()
    } else {
        w
    }
}

/// Value of a digit in base `radix` (10 or 16), if `c` is one.
pub open spec fn digit_value(c: char, radix: nat) -> Option<nat> {
    if '0' <= c && c <= '9' {
        Some((c as nat - '0' as nat) as nat)
    } else if radix == 16 && 'a' <= c && c <= 'f' {
        Some((c as nat - 'a' as nat + 10) as nat)
    } else if radix == 16 && 'A' <= c && c <= 'F' {
        Some((c as nat - 'A' as nat + 10) as nat)
    } else {
        None
    }
}

pub open spec fn all_digits(d: Seq<char>, radix: nat) -> bool {
    forall|i: int| 0 <= i < d.len() ==> (#[trigger] digit_value(d[i], radix)) is Some
}

pub open spec fn digits_value(d: Seq<char>, radix: nat) -> nat
    decreases d.len(),
{
    if d.len() == 0 {
        0
    } else {
        digits_value(d.drop_last(), radix) * radix + digit_value(d.last(), radix).unwrap()
    }
}

/// The number that `w` spells in base `radix`, as Rust's unsigned integer
/// parsing reads it: an optional `+`, then at least one digit.
pub open spec fn number_value(w: Seq<char>, radix: nat) -> Option<nat> {
    let d = strip_plus(w);
    if d.len() > 0 && all_digits(d, radix) {
        Some(digits_value(d, radix))
    } else {
        None
    }
}

/// `number_value` when it is at most `max`.
pub open spec fn bounded_value(w: Seq<char>, radix: nat, max: nat) -> Option<nat> {
    match number_value(w, radix) {
        Some(v) => if v <= max {
            Some(v)
        } else {
            None
        },
        None => None,
    }
}

proof fn lemma_digits_value_take(d: Seq<char>, radix: nat, i: int)
    requires
        0 <= i <= d.len(),
        radix >= 1,
        all_digits(d, radix),
    ensures
        digits_value(d.take(i), radix) <= digits_value(d, radix),
    decreases d.len() - i,
{
    if i < d.len() {
        lemma_digits_value_take(d, radix, i + 1);
        assert(d.take(i + 1).drop_last() =~= d.take(i));
        assert(digit_value(d[i], radix) is Some);
        let v = digits_value(d.take(i), radix);
        assert(v * radix >= v) by (nonlinear_arith)
            requires
                radix >= 1,
        ;
    } else {
        assert(d.take(i) =~= d);
    }
}

/// Parses `w` as an unsigned number in base `radix` (10 or 16) no larger than
/// `max`.
pub fn parse_number(w: &[char], radix: u64, max: u64) -> (r: Option<u64>)
    requires
        radix == 10 || radix == 16,
    ensures
        r == (match bounded_value(w@, radix as nat, max as nat) {
            Some(v) => Some(v as u64),
            None => None::<u64>,
        }),
{
    let n = w.len();
    let mut i: usize = 0;
    if n > 0 && w[0] == '+' {
        i = 1;
    }
    let ghost d = strip_plus(w@);
    assert(d =~= w@.skip(i as int));
    if i >= n {
        return None;
    }
    let mut v: u64 = 0;
    let start = i;
    while i < n
        invariant
            start <= i <= n == w@.len(),
            start < n,
            d =~= w@.skip(start as int),
            d == strip_plus(w@),
            radix == 10 || radix == 16,
            all_digits(d.take(i - start), radix as nat),
            v == digits_value(d.take(i - start), radix as nat),
            v <= max,
        decreases n - i,
    {
        let c = w[i];
        let dv: u64 = if '0' <= c && c <= '9' {
            (c as u64) - ('0' as u64)
        } else if radix == 16 && 'a' <= c && c <= 'f' {
            (c as u64) - ('a' as u64) + 10
        } else if radix == 16 && 'A' <= c && c <= 'F' {
            (c as u64) - ('A' as u64) + 10
        } else {
            assert(d[i - start] == c);
            assert(digit_value(d[i - start], radix as nat) is None);
            assert(!all_digits(d, radix as nat));
            return None;
        };
        assert(d[i - start] == c);
        assert(digit_value(c, radix as nat) == Some(dv as nat));
        assert(d.take(i - start + 1).last() == c);
        assert(d.take(i - start + 1).drop_last() =~= d.take(i - start));
        assert(digits_value(d.take(i - start + 1), radix as nat) == v * radix + dv);
        assert(all_digits(d.take(i - start + 1), radix as nat)) by {
            assert forall|j: int| 0 <= j < d.take(i - start + 1).len() implies (#[trigger] digit_value(
                d.take(i - start + 1)[j],
                radix as nat,
            )) is Some by {
                if j < i - start {
                    assert(d.take(i - start + 1)[j] == d.take(i - start)[j]);
                }
            }
        }
        let m = v.checked_mul(radix);
        match m {
            None => {
                proof {
                    assert(v * radix > u64::MAX);
                    lemma_value_too_big(w@, radix as nat, max as nat, (i - start + 1) as int);
                }
                return None;
            },
            Some(m) => {
                let a = m.checked_add(dv);
                match a {
                    None => {
                        proof {
                            lemma_value_too_big(w@, radix as nat, max as nat, (i - start + 1) as int);
                        }
                        return None;
                    },
                    Some(a) => {
                        if a > max {
                            proof {
                                lemma_value_too_big(w@, radix as nat, max as nat, (i - start + 1) as int);
                            }
                            return None;
                        }
                        v = a;
                    },
                }
            },
        }
        i = i + 1;
    }
    assert(d.take(i - start) =~= d);
    Some(v)
}

/// When a prefix of the digits is already too large, so is the number.
proof fn lemma_value_too_big(w: Seq<char>, radix: nat, max: nat, k: int)
    requires
        radix >= 1,
        0 < k <= strip_plus(w).len(),
        all_digits(strip_plus(w).take(k), radix),
        digits_value(strip_plus(w).take(k), radix) > max,
    ensures
        bounded_value(w, radix, max) is None,
{
    let d = strip_plus(w);
    if all_digits(d, radix) {
        lemma_digits_value_take(d, radix, k);
    }
}


/// `s` with every `c` removed.
pub open spec fn without_char(s: Seq<char>, c: char) -> Seq<char>
    decreases s.len(),
{
    if s.len() == 0 {
        s
    } else if s.last() == c {
        without_char(s.drop_last(), c)
    } else {
        without_char(s.drop_last(), c).push(s.last())
    }
}

/// A WAT natural number: surrounding whitespace and `_` separators are
/// ignored, `0x`/`0X` selects hexadecimal, and the value must fit in 64 bits.
pub open spec fn wat_nat_value(w: Seq<char>) -> Option<nat> {
    let x = without_char(text::trimmed(w), '_');
    if x.len() >= 2 && x[0] == '0' && (x[1] == 'x' || x[1] == 'X') {
        bounded_value(x.skip(2), 16, u64::MAX as nat)
    } else {
        bounded_value(x, 10, u64::MAX as nat)
    }
}

pub(crate) fn remove_char(s: &[char], c: char) -> (r: Vec<char>)
    ensures
        r@ == without_char(s@, c),
{
    let mut r: Vec<char> = Vec::new();
    let mut i: usize = 0;
    while i < s.len()
        invariant
            i <= s@.len(),
            r@ == without_char(s@.take(i as int), c),
        decreases s@.len() - i,
    {
        assert(s@.take(i + 1).drop_last() =~= s@.take(i as int));
        if s[i] != c {
            r.push(s[i]);
        }
        i = i + 1;
    }
    assert(s@.take(i as int) =~= s@);
    r
}

/// Parses a WAT natural number (see `wat_nat_value`).
pub fn parse_wat_nat(w: &[char]) -> (r: Option<u64>)
    ensures
        r == (match wat_nat_value(w@) {
            Some(v) => Some(v as u64),
            None => None::<u64>,
        }),
{
    let t = text::trim_chars(w);
    let x = remove_char(t.as_slice(), '_');
    if x.len() >= 2 && x[0] == '0' && (x[1] == 'x' || x[1] == 'X') {
        let rest = text::sub_chars(x.as_slice(), 2, x.len());
        assert(rest@ =~= x@.skip(2));
        parse_number(rest.as_slice(), 16, u64::MAX)
    } else {
        parse_number(x.as_slice(), 10, u64::MAX)
    }
}

/// A parsed document: its characters, syntax tree and position table.
pub struct Doc {
    pub chars: Vec<char>,
    pub tree: Vec<SyntaxNode>,
    pub pos: Vec<TextPos>,
}

pub open spec fn doc_wf(d: &Doc) -> bool {
    &&& d.tree@ == syntax::tree_of(d.chars@)
    &&& syntax::tree_wf(d.tree@, d.chars@.len() as int)
    &&& d.pos@.len() == d.chars@.len() + 1
    &&& forall|i: int| 0 <= i <= d.chars@.len() ==> syntax::text_pos_ok(d.chars@, i, #[trigger] d.pos@[i])
}

/// Reads a document: splits it into characters, builds its syntax tree and
/// the position of every character.
pub fn read_doc(text: &str) -> (d: Doc)
    requires
        text@.len() < usize::MAX,
    ensures
        doc_wf(&d),
        d.chars@ == text@,
{
    let chars = text::chars_of(text);
    let nbytes = text::str_byte_len(text);
    let tree = syntax::build_tree(&chars);
    let pos = syntax::compute_positions(&chars, nbytes);
    Doc { chars, tree, pos }
}

/// The editor position of character index `i`: line and byte column.
pub open spec fn pos_of(s: Seq<char>, i: int) -> crate::types::Position {
    crate::types::Position { line: syntax::row_at(s, i) as u32, character: syntax::col_at(s, i) as u32 }
}

/// The editor range of a node.
pub open spec fn range_of(s: Seq<char>, n: SyntaxNode) -> crate::types::Range {
    crate::types::Range { start: pos_of(s, n.start as int), end: pos_of(s, n.end as int) }
}

/// The line on which a node starts.
pub open spec fn line_of(s: Seq<char>, n: SyntaxNode) -> u32 {
    syntax::row_at(s, n.start as int) as u32
}

pub fn pos_exec(d: &Doc, i: usize) -> (p: crate::types::Position)
    requires
        doc_wf(d),
        i <= d.chars@.len(),
    ensures
        p == pos_of(d.chars@, i as int),
{
    let tp = d.pos[i];
    crate::types::Position { line: tp.row as u32, character: tp.col as u32 }
}

pub(crate) proof fn lemma_node_wf(d: &Doc, k: int)
    requires
        doc_wf(d),
        0 <= k < d.tree@.len(),
    ensures
        d.tree@[k].start <= d.tree@[k].end <= d.chars@.len(),
        k < d.tree@[k].last <= d.tree@.len(),
        d.tree@[k].parent < d.tree@.len(),
        k > 0 ==> d.tree@[k].parent < k,
{
    assert(d.tree@[k].start <= d.tree@[k].end);
}

pub fn range_exec(d: &Doc, k: usize) -> (r: crate::types::Range)
    requires
        doc_wf(d),
        k < d.tree@.len(),
    ensures
        r == range_of(d.chars@, d.tree@[k as int]),
{
    proof {
        lemma_node_wf(d, k as int);
    }
    let n = d.tree[k];
    crate::types::Range { start: pos_exec(d, n.start), end: pos_exec(d, n.end) }
}

pub fn line_exec(d: &Doc, k: usize) -> (l: u32)
    requires
        doc_wf(d),
        k < d.tree@.len(),
    ensures
        l == line_of(d.chars@, d.tree@[k as int]),
{
    proof {
        lemma_node_wf(d, k as int);
    }
    let n = d.tree[k];
    d.pos[n.start].row as u32
}

/// The characters of node `k`.
pub fn node_chars(d: &Doc, k: usize) -> (v: Vec<char>)
    requires
        doc_wf(d),
        k < d.tree@.len(),
    ensures
        v@ == syntax::text_of(d.chars@, d.tree@[k as int]),
{
    proof {
        lemma_node_wf(d, k as int);
    }
    text::sub_chars(d.chars.as_slice(), d.tree[k].start, d.tree[k].end)
}

/// The text of node `k` as a `String`.
pub fn node_string(d: &Doc, k: usize) -> (v: String)
    requires
        doc_wf(d),
        k < d.tree@.len(),
    ensures
        v@ == syntax::text_of(d.chars@, d.tree@[k as int]),
{
    let c = node_chars(d, k);
    text::string_from_chars(c.as_slice())
}

/// Whether node `k` is the keyword `w`.
pub fn is_kw_exec(d: &Doc, k: usize, w: &str) -> (b: bool)
    requires
        doc_wf(d),
        k < d.tree@.len(),
    ensures
        b == syntax::is_kw(d.chars@, d.tree@, k as int, w@),
{
    proof {
        lemma_node_wf(d, k as int);
    }
    let n = d.tree[k];
    n.kind == NodeKind::Keyword && range_is(&d.chars, n.start, n.end, w)
}

/// Whether node `k` is a list headed by the keyword `w`.
pub fn head_is_exec(d: &Doc, k: usize, w: &str) -> (b: bool)
    requires
        doc_wf(d),
        k < d.tree@.len(),
    ensures
        b == syntax::head_is(d.chars@, d.tree@, k as int, w@),
{
    if d.tree[k].kind != NodeKind::List {
        return false;
    }
    let ks = kids_exec(&d.tree, k, Ghost(d.chars@.len() as int));
    if ks.len() == 0 {
        return false;
    }
    is_kw_exec(d, ks[0], w)
}


/// The reference type that an abstract heap type keyword denotes.
pub open spec fn ref_kind_type(w: Seq<char>) -> ValueType {
    if w == "func"@ {
        ValueType::Funcref
    } else if w == "extern"@ {
        ValueType::Externref
    } else if w == "any"@ {
        ValueType::Anyref
    } else if w == "eq"@ {
        ValueType::Eqref
    } else if w == "i31"@ {
        ValueType::I31ref
    } else if w == "struct"@ {
        ValueType::Structref
    } else if w == "array"@ {
        ValueType::Arrayref
    } else if w == "null"@ || w == "none"@ {
        ValueType::Nullref
    } else if w == "nofunc"@ {
        ValueType::NullFuncref
    } else if w == "noextern"@ {
        ValueType::NullExternref
    } else {
        ValueType::Funcref
    }
}

fn ref_kind_type_exec(d: &Doc, k: usize) -> (v: ValueType)
    requires
        doc_wf(d),
        k < d.tree@.len(),
    ensures
        v == ref_kind_type(syntax::text_of(d.chars@, d.tree@[k as int])),
{
    proof {
        lemma_node_wf(d, k as int);
    }
    let n = d.tree[k];
    let (a, b) = (n.start, n.end);
    let c = &d.chars;
    if range_is(c, a, b, "func") {
        ValueType::Funcref
    } else if range_is(c, a, b, "extern") {
        ValueType::Externref
    } else if range_is(c, a, b, "any") {
        ValueType::Anyref
    } else if range_is(c, a, b, "eq") {
        ValueType::Eqref
    } else if range_is(c, a, b, "i31") {
        ValueType::I31ref
    } else if range_is(c, a, b, "struct") {
        ValueType::Structref
    } else if range_is(c, a, b, "array") {
        ValueType::Arrayref
    } else if range_is(c, a, b, "null") || range_is(c, a, b, "none") {
        ValueType::Nullref
    } else if range_is(c, a, b, "nofunc") {
        ValueType::NullFuncref
    } else if range_is(c, a, b, "noextern") {
        ValueType::NullExternref
    } else {
        ValueType::Funcref
    }
}

/// The type written by a `(ref null? heaptype)` list: an abstract heap type
/// gives its reference type, a numeric type index gives `Ref`/`RefNull`, and
/// a named type (or anything else) gives `Structref`.
pub open spec fn ref_type_of(s: Seq<char>, t: Seq<SyntaxNode>, k: int) -> ValueType {
    let ks = syntax::kids(t, k);
    let nullable = ks.len() > 1 && syntax::is_kw(s, t, ks[1] as int, "null"@);
    let hi: int = if nullable {
        2
    } else {
        1
    };
    if hi < ks.len() {
        let h = ks[hi] as int;
        if t[h].kind == NodeKind::Keyword {
            ref_kind_type(syntax::text_of(s, t[h]))
        } else if t[h].kind == NodeKind::Number {
            match bounded_value(syntax::text_of(s, t[h]), 10, u32::MAX as nat) {
                Some(i) => if nullable {
                    ValueType::RefNull(i as u32)
                } else {
                    ValueType::Ref(i as u32)
                },
                None => ValueType::Structref,
            }
        } else {
            ValueType::Structref
        }
    } else {
        ValueType::Structref
    }
}

/// The value type that node `j` writes, if it writes one: a type keyword or
/// a `(ref ...)` list.
pub open spec fn value_type_at(s: Seq<char>, t: Seq<SyntaxNode>, j: int) -> Option<ValueType> {
    if t[j].kind == NodeKind::Keyword {
        crate::symbols::value_type_of(syntax::text_of(s, t[j]))
    } else if syntax::head_is(s, t, j, "ref"@) {
        Some(ref_type_of(s, t, j))
    } else {
        None
    }
}

fn ref_type_exec(d: &Doc, k: usize) -> (v: ValueType)
    requires
        doc_wf(d),
        k < d.tree@.len(),
    ensures
        v == ref_type_of(d.chars@, d.tree@, k as int),
{
    let ks = kids_exec(&d.tree, k, Ghost(d.chars@.len() as int));
    let nullable = ks.len() > 1 && is_kw_exec(d, ks[1], "null");
    let hi: usize = if nullable {
        2
    } else {
        1
    };
    if hi < ks.len() {
        let h = ks[hi];
        let kind = d.tree[h].kind;
        if kind == NodeKind::Keyword {
            ref_kind_type_exec(d, h)
        } else if kind == NodeKind::Number {
            let w = node_chars(d, h);
            match parse_number(w.as_slice(), 10, 0xffff_ffffu64) {
                Some(i) => {
                    if nullable {
                        ValueType::RefNull(i as u32)
                    } else {
                        ValueType::Ref(i as u32)
                    }
                },
                None => ValueType::Structref,
            }
        } else {
            ValueType::Structref
        }
    } else {
        ValueType::Structref
    }
}

/// The value type written by node `j`, if any.
pub fn value_type_exec(d: &Doc, j: usize) -> (r: Option<ValueType>)
    requires
        doc_wf(d),
        j < d.tree@.len(),
    ensures
        r == value_type_at(d.chars@, d.tree@, j as int),
{
    if d.tree[j].kind == NodeKind::Keyword {
        let w = node_chars(d, j);
        ValueType::try_parse_chars(w.as_slice())
    } else if head_is_exec(d, j, "ref") {
        Some(ref_type_exec(d, j))
    } else {
        None
    }
}


/// The value types written by the nodes `ks`, in order; other nodes are skipped.
pub open spec fn value_types_in(s: Seq<char>, t: Seq<SyntaxNode>, ks: Seq<usize>) -> Seq<ValueType>
    decreases ks.len(),
{
    if ks.len() == 0 {
        Seq::empty()
    } else {
        let r = value_types_in(s, t, ks.drop_last());
        match value_type_at(s, t, ks.last() as int) {
            Some(v) => r.push(v),
            None => r,
        }
    }
}

/// The identifier node of a declaration, if any, is a node of the tree.
pub open spec fn id_ok(d: &Doc, e: (Option<usize>, ValueType)) -> bool {
    match e.0 {
        Some(id) => id < d.tree@.len(),
        None => true,
    }
}

/// All indices in `ks` are nodes of the tree.
pub open spec fn nodes_in(d: &Doc, ks: Seq<usize>) -> bool {
    forall|i: int| 0 <= i < ks.len() ==> #[trigger] ks[i] < d.tree@.len()
}

/// The value types written by `ks[from..]`.
pub fn value_types_exec(d: &Doc, ks: &Vec<usize>, from: usize) -> (r: Vec<ValueType>)
    requires
        doc_wf(d),
        nodes_in(d, ks@),
    ensures
        r@ == value_types_in(d.chars@, d.tree@, syntax::after(ks@, from as int)),
{
    let ghost sk = syntax::after(ks@, from as int);
    let mut r: Vec<ValueType> = Vec::new();
    if from >= ks.len() {
        assert(sk =~= Seq::<usize>::empty());
        return r;
    }
    assert(sk == ks@.skip(from as int));
    let mut i = from;
    assert(sk.take(0) =~= Seq::<usize>::empty());
    while i < ks.len()
        invariant
            doc_wf(d),
            nodes_in(d, ks@),
            from <= i <= ks@.len(),
            sk == ks@.skip(from as int),
            r@ == value_types_in(d.chars@, d.tree@, sk.take(i - from)),
        decreases ks@.len() - i,
    {
        assert(sk.take(i - from + 1).drop_last() =~= sk.take(i - from));
        assert(sk.take(i - from + 1).last() == ks@[i as int]);
        assert(ks@[i as int] < d.tree@.len());
        match value_type_exec(d, ks[i]) {
            Some(v) => {
                r.push(v);
            },
            None => {},
        }
        i = i + 1;
    }
    assert(sk.take(i - from) =~= sk);
    r
}

/// The declarations of one `(param ...)` or `(local ...)` list, as pairs of
/// the identifier node (for the named form) and the type.
pub open spec fn decl_entries_of(s: Seq<char>, t: Seq<SyntaxNode>, p: int) -> Seq<(Option<usize>, ValueType)> {
    let ks = syntax::kids(t, p);
    match syntax::name_node(t, p) {
        Some(id) => {
            let vts = value_types_in(s, t, syntax::after(ks, 2));
            if vts.len() > 0 {
                seq![(Some(id), vts.last())]
            } else {
                Seq::empty()
            }
        },
        None => {
            let vts = value_types_in(s, t, syntax::after(ks, 1));
            Seq::new(vts.len(), |i: int| (None::<usize>, vts[i]))
        },
    }
}

/// The declarations of the `kw` lists among `ks`, in order.
pub open spec fn decls_in(s: Seq<char>, t: Seq<SyntaxNode>, ks: Seq<usize>, kw: Seq<char>) -> Seq<
    (Option<usize>, ValueType),
>
    decreases ks.len(),
{
    if ks.len() == 0 {
        Seq::empty()
    } else {
        decls_in(s, t, ks.drop_last(), kw) + if syntax::head_is(s, t, ks.last() as int, kw) {
            decl_entries_of(s, t, ks.last() as int)
        } else {
            Seq::empty()
        }
    }
}

/// A node of the tree whose children are all nodes of the tree.
proof fn lemma_kids_in(d: &Doc, k: int)
    requires
        doc_wf(d),
        0 <= k < d.tree@.len(),
    ensures
        nodes_in(d, syntax::kids(d.tree@, k)),
        forall|i: int| 0 <= i < syntax::kids(d.tree@, k).len() ==> k < #[trigger] syntax::kids(d.tree@, k)[i],
{
    syntax::lemma_kids_bounds(d.tree@, d.chars@.len() as int, k);
}

fn decl_entries_exec(d: &Doc, p: usize) -> (r: Vec<(Option<usize>, ValueType)>)
    requires
        doc_wf(d),
        p < d.tree@.len(),
    ensures
        r@ == decl_entries_of(d.chars@, d.tree@, p as int),
        forall|i: int| 0 <= i < r@.len() ==> id_ok(d, #[trigger] r@[i]),
{
    let ks = kids_exec(&d.tree, p, Ghost(d.chars@.len() as int));
    proof {
        lemma_kids_in(d, p as int);
    }
    let mut r: Vec<(Option<usize>, ValueType)> = Vec::new();
    if ks.len() > 1 && d.tree[ks[1]].kind == NodeKind::Identifier {
        let vts = value_types_exec(d, &ks, 2);
        if vts.len() > 0 {
            r.push((Some(ks[1]), vts[vts.len() - 1]));
            assert(r@ =~= seq![(Some(ks@[1]), vts@.last())]);
        }
    } else {
        let vts = value_types_exec(d, &ks, 1);
        let mut i: usize = 0;
        while i < vts.len()
            invariant
                i <= vts@.len(),
                r@ =~= Seq::new(i as nat, |j: int| (None::<usize>, vts@[j])),
            decreases vts@.len() - i,
        {
            r.push((None, vts[i]));
            i = i + 1;
        }
    }
    r
}

/// The declarations of the `kw` lists among the children of `f`.
fn decls_exec(d: &Doc, f: usize, kw: &str) -> (r: Vec<(Option<usize>, ValueType)>)
    requires
        doc_wf(d),
        f < d.tree@.len(),
    ensures
        r@ == decls_in(d.chars@, d.tree@, syntax::kids(d.tree@, f as int), kw@),
        forall|i: int| 0 <= i < r@.len() ==> id_ok(d, #[trigger] r@[i]),
{
    let ks = kids_exec(&d.tree, f, Ghost(d.chars@.len() as int));
    proof {
        lemma_kids_in(d, f as int);
    }
    let mut r: Vec<(Option<usize>, ValueType)> = Vec::new();
    let mut i: usize = 0;
    while i < ks.len()
        invariant
            doc_wf(d),
            nodes_in(d, ks@),
            i <= ks@.len(),
            r@ == decls_in(d.chars@, d.tree@, ks@.take(i as int), kw@),
            forall|j: int| 0 <= j < r@.len() ==> id_ok(d, #[trigger] r@[j]),
        decreases ks@.len() - i,
    {
        assert(ks@.take(i + 1).drop_last() =~= ks@.take(i as int));
        assert(ks@.take(i + 1).last() == ks@[i as int]);
        assert(ks@[i as int] < d.tree@.len());
        if head_is_exec(d, ks[i], kw) {
            let e = decl_entries_exec(d, ks[i]);
            let ghost old_r = r@;
            let mut j: usize = 0;
            while j < e.len()
                invariant
                    j <= e@.len(),
                    r@ == old_r + e@.take(j as int),
                    forall|m: int| 0 <= m < old_r.len() ==> id_ok(d, #[trigger] old_r[m]),
                    forall|m: int| 0 <= m < e@.len() ==> id_ok(d, #[trigger] e@[m]),
                    forall|m: int| 0 <= m < r@.len() ==> id_ok(d, #[trigger] r@[m]),
                decreases e@.len() - j,
            {
                r.push(e[j]);
                assert(e@.take(j + 1) =~= e@.take(j as int).push(e@[j as int]));
                j = j + 1;
            }
            assert(e@.take(j as int) =~= e@);
        } else {
            assert(r@ + Seq::<(Option<usize>, ValueType)>::empty() =~= r@);
        }
        i = i + 1;
    }
    assert(ks@.take(i as int) =~= ks@);
    r
}


/// The name text of an optional identifier node.
pub open spec fn id_name(s: Seq<char>, t: Seq<SyntaxNode>, id: Option<usize>) -> Option<Seq<char>> {
    match id {
        Some(j) => Some(syntax::text_of(s, t[j as int])),
        None => None,
    }
}

/// The range of an optional identifier node.
pub open spec fn id_range(s: Seq<char>, t: Seq<SyntaxNode>, id: Option<usize>) -> Option<crate::types::Range> {
    match id {
        Some(j) => Some(range_of(s, t[j as int])),
        None => None,
    }
}

pub(crate) fn id_name_exec(d: &Doc, id: Option<usize>) -> (r: (Option<String>, Option<crate::types::Range>))
    requires
        doc_wf(d),
        id matches Some(j) ==> j < d.tree@.len(),
    ensures
        text::opt_view(r.0) == id_name(d.chars@, d.tree@, id),
        r.1 == id_range(d.chars@, d.tree@, id),
{
    match id {
        Some(j) => (Some(node_string(d, j)), Some(range_exec(d, j))),
        None => (None, None),
    }
}

pub open spec fn param_model(s: Seq<char>, t: Seq<SyntaxNode>, e: (Option<usize>, ValueType), i: int) -> ParameterModel {
    ParameterModel { name: id_name(s, t, e.0), param_type: e.1, index: i as usize, range: id_range(s, t, e.0) }
}

pub open spec fn local_model(s: Seq<char>, t: Seq<SyntaxNode>, e: (Option<usize>, ValueType), i: int) -> VariableModel {
    VariableModel {
        name: id_name(s, t, e.0),
        var_type: e.1,
        is_mutable: true,
        initial_value: None,
        index: i as usize,
        range: id_range(s, t, e.0),
    }
}

/// The parameters declared by the `(param ...)` children of `f`, numbered
/// from 0 in order.
pub open spec fn params_of(s: Seq<char>, t: Seq<SyntaxNode>, f: int) -> Seq<ParameterModel> {
    let es = decls_in(s, t, syntax::kids(t, f), "param"@);
    Seq::new(es.len(), |i: int| param_model(s, t, es[i], i))
}

/// The locals declared by the `(local ...)` children of `f`, numbered from 0.
pub open spec fn locals_of(s: Seq<char>, t: Seq<SyntaxNode>, f: int) -> Seq<VariableModel> {
    let es = decls_in(s, t, syntax::kids(t, f), "local"@);
    Seq::new(es.len(), |i: int| local_model(s, t, es[i], i))
}

/// The result types of the `(result ...)` children among `ks`.
pub open spec fn results_in(s: Seq<char>, t: Seq<SyntaxNode>, ks: Seq<usize>) -> Seq<ValueType>
    decreases ks.len(),
{
    if ks.len() == 0 {
        Seq::empty()
    } else {
        results_in(s, t, ks.drop_last()) + if syntax::head_is(s, t, ks.last() as int, "result"@) {
            value_types_in(s, t, syntax::after(syntax::kids(t, ks.last() as int), 1))
        } else {
            Seq::empty()
        }
    }
}

pub open spec fn results_of(s: Seq<char>, t: Seq<SyntaxNode>, f: int) -> Seq<ValueType> {
    results_in(s, t, syntax::kids(t, f))
}

/// The parameters of `f`.
pub fn params_exec(d: &Doc, f: usize) -> (r: Vec<Parameter>)
    requires
        doc_wf(d),
        f < d.tree@.len(),
    ensures
        r.deep_view() == params_of(d.chars@, d.tree@, f as int),
{
    let es = decls_exec(d, f, "param");
    let mut r: Vec<Parameter> = Vec::new();
    let mut i: usize = 0;
    while i < es.len()
        invariant
            doc_wf(d),
            i <= es@.len(),
            forall|j: int| 0 <= j < es@.len() ==> id_ok(d, #[trigger] es@[j]),
            r.deep_view() =~= Seq::new(i as nat, |j: int| param_model(d.chars@, d.tree@, es@[j], j)),
        decreases es@.len() - i,
    {
        let e = es[i];
        assert(id_ok(d, es@[i as int]));
        let (name, range) = id_name_exec(d, e.0);
        push_dv(&mut r, Parameter { name, param_type: e.1, index: i, range });
        i = i + 1;
    }
    r
}

/// The locals of `f`.
pub fn locals_exec(d: &Doc, f: usize) -> (r: Vec<Variable>)
    requires
        doc_wf(d),
        f < d.tree@.len(),
    ensures
        r.deep_view() == locals_of(d.chars@, d.tree@, f as int),
{
    let es = decls_exec(d, f, "local");
    let mut r: Vec<Variable> = Vec::new();
    let mut i: usize = 0;
    while i < es.len()
        invariant
            doc_wf(d),
            i <= es@.len(),
            forall|j: int| 0 <= j < es@.len() ==> id_ok(d, #[trigger] es@[j]),
            r.deep_view() =~= Seq::new(i as nat, |j: int| local_model(d.chars@, d.tree@, es@[j], j)),
        decreases es@.len() - i,
    {
        let e = es[i];
        assert(id_ok(d, es@[i as int]));
        let (name, range) = id_name_exec(d, e.0);
        push_dv(
            &mut r,
            Variable { name, var_type: e.1, is_mutable: true, initial_value: None, index: i, range },
        );
        i = i + 1;
    }
    r
}

/// The result types of `f`.
pub fn results_exec(d: &Doc, f: usize) -> (r: Vec<ValueType>)
    requires
        doc_wf(d),
        f < d.tree@.len(),
    ensures
        r@ == results_of(d.chars@, d.tree@, f as int),
{
    let ks = kids_exec(&d.tree, f, Ghost(d.chars@.len() as int));
    proof {
        lemma_kids_in(d, f as int);
    }
    let mut r: Vec<ValueType> = Vec::new();
    let mut i: usize = 0;
    while i < ks.len()
        invariant
            doc_wf(d),
            nodes_in(d, ks@),
            i <= ks@.len(),
            r@ == results_in(d.chars@, d.tree@, ks@.take(i as int)),
        decreases ks@.len() - i,
    {
        assert(ks@.take(i + 1).drop_last() =~= ks@.take(i as int));
        assert(ks@.take(i + 1).last() == ks@[i as int]);
        assert(ks@[i as int] < d.tree@.len());
        if head_is_exec(d, ks[i], "result") {
            let k2 = kids_exec(&d.tree, ks[i], Ghost(d.chars@.len() as int));
            proof {
                lemma_kids_in(d, ks@[i as int] as int);
            }
            let mut vts = value_types_exec(d, &k2, 1);
            r.append(&mut vts);
        } else {
            assert(r@ + Seq::<ValueType>::empty() =~= r@);
        }
        i = i + 1;
    }
    assert(ks@.take(i as int) =~= ks@);
    r
}


/// The keywords that open a labelled structured instruction.
pub open spec fn block_word(w: Seq<char>) -> bool {
    w == "block"@ || w == "loop"@ || w == "if"@ || w == "try"@ || w == "try_table"@
}

/// The label declared at node `j` (inside a subtree ending before `b`): a
/// block keyword directly followed by an identifier in the same list. Its
/// line is that of the enclosing list when the keyword heads it.
pub open spec fn block_at(s: Seq<char>, t: Seq<SyntaxNode>, j: int, b: int) -> Option<BlockLabelModel> {
    if t[j].kind == NodeKind::Keyword && block_word(syntax::text_of(s, t[j])) && j + 1 < b
        && t[j + 1].kind == NodeKind::Identifier && t[j + 1].parent == t[j].parent {
        let anchor = if j > 0 && t[j].parent == j - 1 {
            t[j - 1].start
        } else {
            t[j].start
        };
        Some(
            BlockLabelModel {
                label: syntax::text_of(s, t[j + 1]),
                block_type: syntax::text_of(s, t[j]),
                line: syntax::row_at(s, anchor as int) as u32,
                range: Some(range_of(s, t[j + 1])),
            },
        )
    } else {
        None
    }
}

/// The labels declared at the nodes `a..j`.
pub open spec fn blocks_in(s: Seq<char>, t: Seq<SyntaxNode>, a: int, j: int, b: int) -> Seq<BlockLabelModel>
    decreases j - a,
{
    if j <= a {
        Seq::empty()
    } else {
        let r = blocks_in(s, t, a, j - 1, b);
        match block_at(s, t, j - 1, b) {
            Some(m) => r.push(m),
            None => r,
        }
    }
}

/// The labelled blocks, loops and ifs inside node `f`, in document order.
pub open spec fn blocks_of(s: Seq<char>, t: Seq<SyntaxNode>, f: int) -> Seq<BlockLabelModel> {
    blocks_in(s, t, f + 1, t[f].last as int, t[f].last as int)
}

fn block_word_exec(d: &Doc, j: usize) -> (b: bool)
    requires
        doc_wf(d),
        j < d.tree@.len(),
    ensures
        b == block_word(syntax::text_of(d.chars@, d.tree@[j as int])),
{
    proof {
        lemma_node_wf(d, j as int);
    }
    let n = d.tree[j];
    let c = &d.chars;
    range_is(c, n.start, n.end, "block") || range_is(c, n.start, n.end, "loop") || range_is(
        c,
        n.start,
        n.end,
        "if",
    ) || range_is(c, n.start, n.end, "try") || range_is(c, n.start, n.end, "try_table")
}

/// The labelled blocks inside `f`.
pub fn blocks_exec(d: &Doc, f: usize) -> (r: Vec<BlockLabel>)
    requires
        doc_wf(d),
        f < d.tree@.len(),
    ensures
        r.deep_view() == blocks_of(d.chars@, d.tree@, f as int),
{
    proof {
        lemma_node_wf(d, f as int);
    }
    let b = d.tree[f].last;
    let mut r: Vec<BlockLabel> = Vec::new();
    let mut j = f + 1;
    assert(blocks_in(d.chars@, d.tree@, f + 1, j as int, b as int) =~= Seq::<BlockLabelModel>::empty());
    while j < b
        invariant
            doc_wf(d),
            f < j <= b <= d.tree@.len(),
            b == d.tree@[f as int].last,
            r.deep_view() == blocks_in(d.chars@, d.tree@, f + 1, j as int, b as int),
        decreases b - j,
    {
        let n = d.tree[j];
        if n.kind == NodeKind::Keyword && block_word_exec(d, j) && j + 1 < b && d.tree[j + 1].kind
            == NodeKind::Identifier && d.tree[j + 1].parent == n.parent {
            let anchor = if j > 0 && n.parent == j - 1 {
                d.tree[j - 1].start
            } else {
                n.start
            };
            proof {
                lemma_node_wf(d, j as int);
                lemma_node_wf(d, j - 1);
                lemma_node_wf(d, j + 1);
            }
            let label = node_string(d, j + 1);
            let block_type = node_string(d, j);
            let line = d.pos[anchor].row as u32;
            let range = range_exec(d, j + 1);
            push_dv(&mut r, BlockLabel { label, block_type, line, range: Some(range) });
        }
        j = j + 1;
    }
    r
}


/// The comments among the children of `c` at indices `c+1..j`.
pub open spec fn comments_before(t: Seq<SyntaxNode>, c: int, j: int) -> Seq<usize>
    decreases j - c,
{
    if j <= c + 1 {
        Seq::empty()
    } else {
        comments_before(t, c, j - 1) + if t[j - 1].parent == c && syntax::is_comment(t[j - 1].kind) {
            seq![(j - 1) as usize]
        } else {
            Seq::<usize>::empty()
        }
    }
}

/// The comments that document a declaration, picked from the closest one
/// upwards: each must end on the expected line or the one before it; after
/// the first pick, a comment that does not fit ends the block.
pub open spec fn select_doc(s: Seq<char>, t: Seq<SyntaxNode>, cs: Seq<usize>, expected: int, found: bool) -> Seq<
    usize,
>
    decreases cs.len(),
{
    if cs.len() == 0 {
        Seq::empty()
    } else {
        let e = syntax::row_at(s, t[cs.last() as int].end as int) as int;
        if e <= expected && expected - e <= 1 {
            select_doc(
                s,
                t,
                cs.drop_last(),
                if e >= 1 {
                    e - 1
                } else {
                    0
                },
                true,
            ).push(cs.last())
        } else if !found {
            select_doc(s, t, cs.drop_last(), expected, false)
        } else {
            Seq::empty()
        }
    }
}

/// `parts` joined with line breaks.
pub open spec fn join_lines(parts: Seq<Seq<char>>) -> Seq<char>
    decreases parts.len(),
{
    if parts.len() == 0 {
        Seq::empty()
    } else if parts.len() == 1 {
        parts[0]
    } else {
        join_lines(parts.drop_last()) + seq!['\n'] + parts.last()
    }
}

/// One line inside a block comment, trimmed and without a leading `*`.
pub open spec fn clean_block_line(l: Seq<char>) -> Seq<char> {
    let l = text::trimmed(l);
    if l.len() > 0 && l[0] == '*' {
        text::trimmed(l.drop_first())
    } else {
        l
    }
}

/// The text of a comment without its delimiters.
pub open spec fn clean_comment(c: Seq<char>) -> Seq<char> {
    let tr = text::trimmed(c);
    if text::starts_with(tr, ";;"@) {
        text::trimmed(tr.skip(2))
    } else if tr.len() >= 4 && text::starts_with(tr, "(;"@) && text::ends_with(tr, ";)"@) {
        let lines = text::lines_of(tr.subrange(2, tr.len() - 2));
        text::trimmed(join_lines(Seq::new(lines.len(), |i: int| clean_block_line(lines[i]))))
    } else {
        tr
    }
}

/// The cleaned texts of the comments `cs` that are not empty.
pub open spec fn doc_texts(s: Seq<char>, t: Seq<SyntaxNode>, cs: Seq<usize>) -> Seq<Seq<char>>
    decreases cs.len(),
{
    if cs.len() == 0 {
        Seq::empty()
    } else {
        let r = doc_texts(s, t, cs.drop_last());
        let c = clean_comment(syntax::text_of(s, t[cs.last() as int]));
        if c.len() > 0 {
            r.push(c)
        } else {
            r
        }
    }
}

/// The documentation of declaration `f`: the comments directly above it
/// among its siblings, cleaned and joined by line breaks.
pub open spec fn doc_comment_of(s: Seq<char>, t: Seq<SyntaxNode>, f: int) -> Option<Seq<char>> {
    let line = syntax::row_at(s, t[f].start as int) as int;
    if line == 0 {
        None
    } else {
        let cs = comments_before(t, t[f].parent as int, f);
        let texts = doc_texts(s, t, select_doc(s, t, cs, line - 1, false));
        if texts.len() == 0 {
            None
        } else {
            Some(join_lines(texts))
        }
    }
}

fn append_chars(a: &mut Vec<char>, b: &Vec<char>)
    ensures
        final(a)@ == old(a)@ + b@,
{
    let mut i: usize = 0;
    let ghost a0 = a@;
    while i < b.len()
        invariant
            i <= b@.len(),
            a@ == a0 + b@.take(i as int),
        decreases b@.len() - i,
    {
        a.push(b[i]);
        assert(b@.take(i + 1) =~= b@.take(i as int).push(b@[i as int]));
        i = i + 1;
    }
    assert(b@.take(i as int) =~= b@);
}

/// `parts` joined with line breaks.
fn join_lines_exec(parts: &Vec<Vec<char>>) -> (r: Vec<char>)
    ensures
        r@ == join_lines(parts.deep_view()),
{
    let mut r: Vec<char> = Vec::new();
    let mut i: usize = 0;
    let ghost pv = parts.deep_view();
    while i < parts.len()
        invariant
            i <= parts@.len(),
            pv == parts.deep_view(),
            r@ == join_lines(pv.take(i as int)),
        decreases parts@.len() - i,
    {
        assert(pv.take(i + 1).drop_last() =~= pv.take(i as int));
        assert(pv[i as int] == parts@[i as int]@);
        if i > 0 {
            r.push('\n');
        } else {
            assert(r@ =~= Seq::<char>::empty());
        }
        append_chars(&mut r, &parts[i]);
        i = i + 1;
    }
    assert(pv.take(i as int) =~= pv);
    r
}

fn clean_block_line_exec(l: &[char]) -> (r: Vec<char>)
    ensures
        r@ == clean_block_line(l@),
{
    let t = text::trim_chars(l);
    if t.len() > 0 && t[0] == '*' {
        let rest = text::sub_chars(t.as_slice(), 1, t.len());
        assert(rest@ =~= t@.drop_first());
        text::trim_chars(rest.as_slice())
    } else {
        t
    }
}

fn clean_comment_exec(c: &[char]) -> (r: Vec<char>)
    ensures
        r@ == clean_comment(c@),
{
    let tr = text::trim_chars(c);
    let n = tr.len();
    proof {
        reveal_strlit(";;");
        reveal_strlit("(;");
        reveal_strlit(";)");
    }
    if text::starts_with_str(tr.as_slice(), ";;") {
        let rest = text::sub_chars(tr.as_slice(), 2, n);
        assert(rest@ =~= tr@.skip(2));
        text::trim_chars(rest.as_slice())
    } else if n >= 4 && text::starts_with_str(tr.as_slice(), "(;") && text::ends_with_str(
        tr.as_slice(),
        ";)",
    ) {
        let inner = text::sub_chars(tr.as_slice(), 2, n - 2);
        let spans = text::compute_line_spans(inner.as_slice());
        proof {
            text::lemma_line_spans_wf(inner@);
        }
        let ghost lines = text::lines_of(inner@);
        let mut parts: Vec<Vec<char>> = Vec::new();
        let mut i: usize = 0;
        while i < spans.len()
            invariant
                i <= spans@.len(),
                spans@.len() == text::line_spans(inner@).len(),
                forall|k: int|
                    0 <= k < spans@.len() ==> spans@[k].0 as int == text::line_spans(inner@)[k].0
                        && spans@[k].1 as int == text::line_spans(inner@)[k].1,
                forall|k: int|
                    0 <= k < text::line_spans(inner@).len() ==> 0 <= #[trigger] text::line_spans(inner@)[k].0
                        <= text::line_spans(inner@)[k].1 <= inner@.len(),
                lines == text::lines_of(inner@),
                parts.deep_view() =~= Seq::new(i as nat, |k: int| clean_block_line(lines[k])),
            decreases spans@.len() - i,
        {
            let (a, b) = spans[i];
            assert(0 <= text::line_spans(inner@)[i as int].0 <= text::line_spans(inner@)[i as int].1 <= inner@.len());
            let line = text::sub_chars(inner.as_slice(), a, b);
            assert(lines[i as int] == inner@.subrange(a as int, b as int));
            let cl = clean_block_line_exec(line.as_slice());
            assert(cl.deep_view() =~= cl@);
            push_dv(&mut parts, cl);
            i = i + 1;
        }
        let joined = join_lines_exec(&parts);
        text::trim_chars(joined.as_slice())
    } else {
        tr
    }
}

/// The documentation comment of `f` (see `doc_comment_of`).
pub fn doc_comment_exec(d: &Doc, f: usize) -> (r: Option<String>)
    requires
        doc_wf(d),
        f < d.tree@.len(),
    ensures
        text::opt_view(r) == doc_comment_of(d.chars@, d.tree@, f as int),
{
    proof {
        lemma_node_wf(d, f as int);
    }
    let fnode = d.tree[f];
    let line = d.pos[fnode.start].row;
    if line == 0 {
        return None;
    }
    let c = fnode.parent;
    // The comment siblings before `f`.
    let mut cs: Vec<usize> = Vec::new();
    if f > c {
        let mut j = c + 1;
        assert(comments_before(d.tree@, c as int, j as int) =~= Seq::<usize>::empty());
        while j < f
            invariant
                doc_wf(d),
                c < j <= f < d.tree@.len(),
                cs@ == comments_before(d.tree@, c as int, j as int),
                forall|k: int| 0 <= k < cs@.len() ==> #[trigger] cs@[k] < j,
            decreases f - j,
        {
            if d.tree[j].parent == c && (d.tree[j].kind == NodeKind::LineComment || d.tree[j].kind
                == NodeKind::BlockComment) {
                cs.push(j);
            } else {
                assert(cs@ + Seq::<usize>::empty() =~= cs@);
            }
            j = j + 1;
        }
    } else {
        proof {
            lemma_node_wf(d, f as int);
        }
        assert(f == 0);
        assert(comments_before(d.tree@, c as int, f as int) =~= Seq::<usize>::empty());
    }
    // Pick the comments that document `f`, walking upwards.
    let ghost all_cs = cs@;
    let mut picked: Vec<usize> = Vec::new();
    let mut expected: usize = line - 1;
    let mut found = false;
    let mut k = cs.len();
    let mut stopped = false;
    assert(all_cs.take(k as int) =~= all_cs);
    assert(picked@ + Seq::<usize>::empty() =~= picked@);
    while k > 0 && !stopped
        invariant
            doc_wf(d),
            k <= all_cs.len(),
            cs@ == all_cs,
            forall|m: int| 0 <= m < all_cs.len() ==> #[trigger] all_cs[m] < d.tree@.len(),
            forall|m: int| 0 <= m < picked@.len() ==> #[trigger] picked@[m] < d.tree@.len(),
            stopped ==> select_doc(d.chars@, d.tree@, all_cs.take(k as int), expected as int, found) == Seq::<usize>::empty(),
            select_doc(d.chars@, d.tree@, all_cs, line - 1, false) == select_doc(
                d.chars@,
                d.tree@,
                all_cs.take(k as int),
                expected as int,
                found,
            ) + picked@,
        decreases 2 * k + if stopped {
            0int
        } else {
            1int
        },
    {
        let idx = cs[k - 1];
        assert(all_cs[k - 1] < d.tree@.len());
        proof {
            lemma_node_wf(d, idx as int);
            assert(all_cs.take(k as int).drop_last() =~= all_cs.take(k - 1));
            assert(all_cs.take(k as int).last() == idx);
        }
        let e = d.pos[d.tree[idx].end].row;
        if e <= expected && expected - e <= 1 {
            let ghost old_p = picked@;
            picked.insert(0, idx);
            assert(picked@ =~= seq![idx] + old_p);
            assert(select_doc(d.chars@, d.tree@, all_cs.take(k - 1), (if e >= 1 { e - 1 } else { 0 }) as int, true).push(idx) + old_p
                =~= select_doc(d.chars@, d.tree@, all_cs.take(k - 1), (if e >= 1 { e - 1 } else { 0 }) as int, true) + picked@);
            expected = if e >= 1 {
                e - 1
            } else {
                0
            };
            found = true;
        } else if !found {
        } else {
            assert(select_doc(d.chars@, d.tree@, all_cs.take(k as int), expected as int, found) =~= Seq::<usize>::empty());
            stopped = true;
        }
        if !stopped {
            k = k - 1;
        }
    }
    if !stopped {
        assert(all_cs.take(k as int) =~= Seq::<usize>::empty());
        assert(select_doc(d.chars@, d.tree@, all_cs.take(k as int), expected as int, found) =~= Seq::<usize>::empty());
    }
    assert(select_doc(d.chars@, d.tree@, all_cs, line - 1, false) =~= picked@);
    // Clean the picked comments and join them.
    let mut texts: Vec<Vec<char>> = Vec::new();
    let mut i: usize = 0;
    while i < picked.len()
        invariant
            doc_wf(d),
            i <= picked@.len(),
            forall|m: int| 0 <= m < picked@.len() ==> #[trigger] picked@[m] < d.tree@.len(),
            texts.deep_view() == doc_texts(d.chars@, d.tree@, picked@.take(i as int)),
        decreases picked@.len() - i,
    {
        assert(picked@.take(i + 1).drop_last() =~= picked@.take(i as int));
        assert(picked@.take(i + 1).last() == picked@[i as int]);
        assert(picked@[i as int] < d.tree@.len());
        let raw = node_chars(d, picked[i]);
        let c = clean_comment_exec(raw.as_slice());
        assert(c.deep_view() =~= c@);
        if c.len() > 0 {
            push_dv(&mut texts, c);
        }
        i = i + 1;
    }
    assert(picked@.take(i as int) =~= picked@);
    if texts.len() == 0 {
        None
    } else {
        let joined = join_lines_exec(&texts);
        Some(text::string_from_chars(joined.as_slice()))
    }
}


/// The storage type written by node `j`: a value type, or `(mut t)`.
pub open spec fn storage_at(s: Seq<char>, t: Seq<SyntaxNode>, j: int) -> Option<(ValueType, bool)> {
    match value_type_at(s, t, j) {
        Some(v) => Some((v, false)),
        None => if syntax::head_is(s, t, j, "mut"@) {
            let ks = syntax::kids(t, j);
            let inner = if ks.len() > 1 {
                match value_type_at(s, t, ks[1] as int) {
                    Some(v) => v,
                    None => ValueType::Unknown,
                }
            } else {
                ValueType::Unknown
            };
            Some((inner, true))
        } else {
            None
        },
    }
}

/// The storage types written by the nodes `ks`, in order.
pub open spec fn storages_in(s: Seq<char>, t: Seq<SyntaxNode>, ks: Seq<usize>) -> Seq<(ValueType, bool)>
    decreases ks.len(),
{
    if ks.len() == 0 {
        Seq::empty()
    } else {
        let r = storages_in(s, t, ks.drop_last());
        match storage_at(s, t, ks.last() as int) {
            Some(x) => r.push(x),
            None => r,
        }
    }
}

/// The fields declared by one `(field ...)` list: the name goes to the first.
pub open spec fn field_entries(s: Seq<char>, t: Seq<SyntaxNode>, fl: int) -> Seq<(Option<Seq<char>>, ValueType, bool)> {
    let id = syntax::name_node(t, fl);
    let name = id_name(s, t, id);
    let items = syntax::after(syntax::kids(t, fl), if id is Some { 2 } else { 1 });
    let sts = storages_in(s, t, items);
    if sts.len() == 0 {
        seq![(name, ValueType::Unknown, false)]
    } else {
        Seq::new(sts.len(), |i: int| (if i == 0 { name } else { None }, sts[i].0, sts[i].1))
    }
}

/// The fields declared by the `(field ...)` lists among `ks`.
pub open spec fn fields_in(s: Seq<char>, t: Seq<SyntaxNode>, ks: Seq<usize>) -> Seq<(Option<Seq<char>>, ValueType, bool)>
    decreases ks.len(),
{
    if ks.len() == 0 {
        Seq::empty()
    } else {
        fields_in(s, t, ks.drop_last()) + if syntax::head_is(s, t, ks.last() as int, "field"@) {
            field_entries(s, t, ks.last() as int)
        } else {
            Seq::empty()
        }
    }
}

/// The element of an `(array ...)` type.
pub open spec fn array_kind(s: Seq<char>, t: Seq<SyntaxNode>, a: int) -> TypeKindModel {
    let ks = syntax::after(syntax::kids(t, a), 1);
    if ks.len() == 0 {
        TypeKindModel::Array { element_type: ValueType::Unknown, mutable: false }
    } else if syntax::head_is(s, t, ks[0] as int, "field"@) {
        let fe = field_entries(s, t, ks[0] as int);
        TypeKindModel::Array { element_type: fe[0].1, mutable: fe[0].2 }
    } else {
        match storage_at(s, t, ks[0] as int) {
            Some(x) => TypeKindModel::Array { element_type: x.0, mutable: x.1 },
            None => TypeKindModel::Array { element_type: ValueType::Unknown, mutable: false },
        }
    }
}

/// The type written by a `(func ...)`, `(struct ...)` or `(array ...)` list.
pub open spec fn basic_kind(s: Seq<char>, t: Seq<SyntaxNode>, k: int) -> TypeKindModel {
    if syntax::head_is(s, t, k, "struct"@) {
        TypeKindModel::Struct { fields: fields_in(s, t, syntax::kids(t, k)) }
    } else if syntax::head_is(s, t, k, "array"@) {
        array_kind(s, t, k)
    } else {
        let es = decls_in(s, t, syntax::kids(t, k), "param"@);
        TypeKindModel::Func {
            params: Seq::new(es.len(), |i: int| es[i].1),
            results: results_of(s, t, k),
        }
    }
}

pub open spec fn is_basic_def(s: Seq<char>, t: Seq<SyntaxNode>, k: int) -> bool {
    syntax::head_is(s, t, k, "func"@) || syntax::head_is(s, t, k, "struct"@) || syntax::head_is(s, t, k, "array"@)
}

/// The first of `ks[i..]` that is a basic type definition (or also a `sub`
/// when `with_sub`).
pub open spec fn find_def(s: Seq<char>, t: Seq<SyntaxNode>, ks: Seq<usize>, i: int, with_sub: bool) -> Option<usize>
    decreases ks.len() - i,
{
    if i < 0 || i >= ks.len() {
        None
    } else if is_basic_def(s, t, ks[i] as int) || (with_sub && syntax::head_is(s, t, ks[i] as int, "sub"@)) {
        Some(ks[i])
    } else {
        find_def(s, t, ks, i + 1, with_sub)
    }
}

/// The type written by a definition list; a `(sub ...)` gives the type of the
/// definition inside it.
pub open spec fn def_kind(s: Seq<char>, t: Seq<SyntaxNode>, k: int) -> TypeKindModel {
    if syntax::head_is(s, t, k, "sub"@) {
        match find_def(s, t, syntax::kids(t, k), 1, false) {
            Some(j) => basic_kind(s, t, j as int),
            None => TypeKindModel::Func { params: Seq::empty(), results: Seq::empty() },
        }
    } else {
        basic_kind(s, t, k)
    }
}

/// The definition of a `(type ...)` list.
pub open spec fn type_def_node(s: Seq<char>, t: Seq<SyntaxNode>, k: int) -> Option<usize> {
    find_def(s, t, syntax::kids(t, k), 1, true)
}

/// The type defined by a `(type ...)` module field.
pub open spec fn type_model(s: Seq<char>, t: Seq<SyntaxNode>, k: int, index: int) -> TypeDefModel {
    TypeDefModel {
        name: id_name(s, t, syntax::name_node(t, k)),
        index: index as usize,
        kind: match type_def_node(s, t, k) {
            Some(j) => def_kind(s, t, j as int),
            None => TypeKindModel::Func { params: Seq::empty(), results: Seq::empty() },
        },
        line: line_of(s, t[k]),
        range: id_range(s, t, syntax::name_node(t, k)),
    }
}

/// The types of a `(rec ...)` group's children `ks`, appended to `acc`; a
/// `(type ...)` without a definition is skipped, and each type's line is that
/// of its definition.
pub open spec fn rec_fold(s: Seq<char>, t: Seq<SyntaxNode>, acc: Seq<TypeDefModel>, ks: Seq<usize>) -> Seq<TypeDefModel>
    decreases ks.len(),
{
    if ks.len() == 0 {
        acc
    } else {
        let a = rec_fold(s, t, acc, ks.drop_last());
        let j = ks.last() as int;
        if syntax::head_is(s, t, j, "type"@) && type_def_node(s, t, j) is Some {
            let def = type_def_node(s, t, j).unwrap() as int;
            a.push(
                TypeDefModel {
                    name: id_name(s, t, syntax::name_node(t, j)),
                    index: a.len() as usize,
                    kind: def_kind(s, t, def),
                    line: line_of(s, t[def]),
                    range: id_range(s, t, syntax::name_node(t, j)),
                },
            )
        } else {
            a
        }
    }
}

/// The types defined by the module fields `fs`, numbered in order.
pub open spec fn types_fold(s: Seq<char>, t: Seq<SyntaxNode>, fs: Seq<usize>) -> Seq<TypeDefModel>
    decreases fs.len(),
{
    if fs.len() == 0 {
        Seq::empty()
    } else {
        let a = types_fold(s, t, fs.drop_last());
        let f = fs.last() as int;
        if syntax::head_is(s, t, f, "type"@) {
            a.push(type_model(s, t, f, a.len() as int))
        } else if syntax::head_is(s, t, f, "rec"@) {
            rec_fold(s, t, a, syntax::kids(t, f))
        } else {
            a
        }
    }
}


pub open spec fn fields_view(v: Seq<(Option<String>, ValueType, bool)>) -> Seq<(Option<Seq<char>>, ValueType, bool)> {
    Seq::new(v.len(), |i: int| field_view(v[i]))
}

fn storage_exec(d: &Doc, j: usize) -> (r: Option<(ValueType, bool)>)
    requires
        doc_wf(d),
        j < d.tree@.len(),
    ensures
        r == storage_at(d.chars@, d.tree@, j as int),
{
    match value_type_exec(d, j) {
        Some(v) => Some((v, false)),
        None => {
            if head_is_exec(d, j, "mut") {
                let ks = kids_exec(&d.tree, j, Ghost(d.chars@.len() as int));
                proof {
                    lemma_kids_in(d, j as int);
                }
                let inner = if ks.len() > 1 {
                    match value_type_exec(d, ks[1]) {
                        Some(v) => v,
                        None => ValueType::Unknown,
                    }
                } else {
                    ValueType::Unknown
                };
                Some((inner, true))
            } else {
                None
            }
        },
    }
}

fn storages_exec(d: &Doc, ks: &Vec<usize>, from: usize) -> (r: Vec<(ValueType, bool)>)
    requires
        doc_wf(d),
        nodes_in(d, ks@),
    ensures
        r@ == storages_in(d.chars@, d.tree@, syntax::after(ks@, from as int)),
{
    let mut r: Vec<(ValueType, bool)> = Vec::new();
    if from >= ks.len() {
        assert(syntax::after(ks@, from as int) =~= Seq::<usize>::empty());
        return r;
    }
    let ghost sk = ks@.skip(from as int);
    let mut i = from;
    assert(sk.take(0) =~= Seq::<usize>::empty());
    while i < ks.len()
        invariant
            doc_wf(d),
            nodes_in(d, ks@),
            from <= i <= ks@.len(),
            sk == ks@.skip(from as int),
            r@ == storages_in(d.chars@, d.tree@, sk.take(i - from)),
        decreases ks@.len() - i,
    {
        assert(sk.take(i - from + 1).drop_last() =~= sk.take(i - from));
        assert(sk.take(i - from + 1).last() == ks@[i as int]);
        assert(ks@[i as int] < d.tree@.len());
        match storage_exec(d, ks[i]) {
            Some(x) => {
                r.push(x);
            },
            None => {},
        }
        i = i + 1;
    }
    assert(sk.take(i - from) =~= sk);
    r
}

fn clone_opt_string(o: &Option<String>) -> (r: Option<String>)
    ensures
        text::opt_view(r) == text::opt_view(*o),
{
    text::clone_opt_string(o)
}

fn field_entries_exec(d: &Doc, fl: usize) -> (r: Vec<(Option<String>, ValueType, bool)>)
    requires
        doc_wf(d),
        fl < d.tree@.len(),
    ensures
        fields_view(r@) == field_entries(d.chars@, d.tree@, fl as int),
{
    let ks = kids_exec(&d.tree, fl, Ghost(d.chars@.len() as int));
    proof {
        lemma_kids_in(d, fl as int);
    }
    let id: Option<usize> = if ks.len() > 1 && d.tree[ks[1]].kind == NodeKind::Identifier {
        Some(ks[1])
    } else {
        None
    };
    let (name, _range) = id_name_exec(d, id);
    let sts = storages_exec(d, &ks, if id.is_some() { 2 } else { 1 });
    let mut r: Vec<(Option<String>, ValueType, bool)> = Vec::new();
    if sts.len() == 0 {
        r.push((name, ValueType::Unknown, false));
        assert(fields_view(r@) =~= field_entries(d.chars@, d.tree@, fl as int));
        return r;
    }
    let ghost nm = text::opt_view(name);
    let mut i: usize = 0;
    while i < sts.len()
        invariant
            i <= sts@.len(),
            r@.len() == i,
            nm == id_name(d.chars@, d.tree@, id),
            text::opt_view(name) == nm,
            fields_view(r@) =~= Seq::new(
                i as nat,
                |j: int| (if j == 0 { nm } else { None }, sts@[j].0, sts@[j].1),
            ),
        decreases sts@.len() - i,
    {
        let n = if i == 0 {
            clone_opt_string(&name)
        } else {
            None
        };
        let ghost old_r = r@;
        r.push((n, sts[i].0, sts[i].1));
        assert(field_view(r@[i as int]) == (if i == 0 { nm } else { None }, sts@[i as int].0, sts@[i as int].1));
        assert(fields_view(r@) =~= fields_view(old_r).push(field_view(r@[i as int])));
        i = i + 1;
    }
    r
}

fn append_fields(a: &mut Vec<(Option<String>, ValueType, bool)>, b: Vec<(Option<String>, ValueType, bool)>)
    ensures
        fields_view(final(a)@) == fields_view(old(a)@) + fields_view(b@),
{
    let ghost a0 = a@;
    let ghost b0 = b@;
    let mut b = b;
    a.append(&mut b);
    assert(a@ == a0 + b0);
    assert(fields_view(a@) =~= fields_view(a0) + fields_view(b0));
}

fn fields_exec(d: &Doc, k: usize) -> (r: Vec<(Option<String>, ValueType, bool)>)
    requires
        doc_wf(d),
        k < d.tree@.len(),
    ensures
        fields_view(r@) == fields_in(d.chars@, d.tree@, syntax::kids(d.tree@, k as int)),
{
    let ks = kids_exec(&d.tree, k, Ghost(d.chars@.len() as int));
    proof {
        lemma_kids_in(d, k as int);
    }
    let mut r: Vec<(Option<String>, ValueType, bool)> = Vec::new();
    let mut i: usize = 0;
    while i < ks.len()
        invariant
            doc_wf(d),
            nodes_in(d, ks@),
            i <= ks@.len(),
            fields_view(r@) == fields_in(d.chars@, d.tree@, ks@.take(i as int)),
        decreases ks@.len() - i,
    {
        assert(ks@.take(i + 1).drop_last() =~= ks@.take(i as int));
        assert(ks@.take(i + 1).last() == ks@[i as int]);
        assert(ks@[i as int] < d.tree@.len());
        if head_is_exec(d, ks[i], "field") {
            let fe = field_entries_exec(d, ks[i]);
            append_fields(&mut r, fe);
        } else {
            assert(fields_view(r@) + Seq::<(Option<Seq<char>>, ValueType, bool)>::empty() =~= fields_view(r@));
        }
        i = i + 1;
    }
    assert(ks@.take(i as int) =~= ks@);
    r
}


fn array_kind_exec(d: &Doc, a: usize) -> (r: TypeKind)
    requires
        doc_wf(d),
        a < d.tree@.len(),
    ensures
        r.deep_view() == array_kind(d.chars@, d.tree@, a as int),
{
    let ks = kids_exec(&d.tree, a, Ghost(d.chars@.len() as int));
    proof {
        lemma_kids_in(d, a as int);
    }
    if ks.len() <= 1 {
        assert(syntax::after(ks@, 1) =~= Seq::<usize>::empty());
        return TypeKind::Array { element_type: ValueType::Unknown, mutable: false };
    }
    let first = ks[1];
    assert(syntax::after(ks@, 1)[0] == first);
    if head_is_exec(d, first, "field") {
        let fe = field_entries_exec(d, first);
        assert(fields_view(fe@).len() > 0);
        assert(fields_view(fe@)[0] == field_view(fe@[0]));
        TypeKind::Array { element_type: fe[0].1, mutable: fe[0].2 }
    } else {
        match storage_exec(d, first) {
            Some(x) => TypeKind::Array { element_type: x.0, mutable: x.1 },
            None => TypeKind::Array { element_type: ValueType::Unknown, mutable: false },
        }
    }
}

fn basic_kind_exec(d: &Doc, k: usize) -> (r: TypeKind)
    requires
        doc_wf(d),
        k < d.tree@.len(),
    ensures
        r.deep_view() == basic_kind(d.chars@, d.tree@, k as int),
{
    if head_is_exec(d, k, "struct") {
        let fields = fields_exec(d, k);
        TypeKind::Struct { fields }
    } else if head_is_exec(d, k, "array") {
        array_kind_exec(d, k)
    } else {
        let es = decls_exec(d, k, "param");
        let mut params: Vec<ValueType> = Vec::new();
        let mut i: usize = 0;
        while i < es.len()
            invariant
                i <= es@.len(),
                params@ =~= Seq::new(i as nat, |j: int| es@[j].1),
            decreases es@.len() - i,
        {
            params.push(es[i].1);
            i = i + 1;
        }
        let results = results_exec(d, k);
        TypeKind::Func { params, results }
    }
}

fn is_basic_def_exec(d: &Doc, k: usize) -> (b: bool)
    requires
        doc_wf(d),
        k < d.tree@.len(),
    ensures
        b == is_basic_def(d.chars@, d.tree@, k as int),
{
    head_is_exec(d, k, "func") || head_is_exec(d, k, "struct") || head_is_exec(d, k, "array")
}

fn find_def_exec(d: &Doc, ks: &Vec<usize>, from: usize, with_sub: bool) -> (r: Option<usize>)
    requires
        doc_wf(d),
        nodes_in(d, ks@),
    ensures
        r == find_def(d.chars@, d.tree@, ks@, from as int, with_sub),
        r matches Some(j) ==> j < d.tree@.len(),
{
    let mut i = from;
    while i < ks.len()
        invariant
            doc_wf(d),
            nodes_in(d, ks@),
            from <= i,
            find_def(d.chars@, d.tree@, ks@, from as int, with_sub) == find_def(d.chars@, d.tree@, ks@, i as int, with_sub),
        decreases ks@.len() - i,
    {
        assert(ks@[i as int] < d.tree@.len());
        if is_basic_def_exec(d, ks[i]) || (with_sub && head_is_exec(d, ks[i], "sub")) {
            return Some(ks[i]);
        }
        i = i + 1;
    }
    None
}

fn def_kind_exec(d: &Doc, k: usize) -> (r: TypeKind)
    requires
        doc_wf(d),
        k < d.tree@.len(),
    ensures
        r.deep_view() == def_kind(d.chars@, d.tree@, k as int),
{
    if head_is_exec(d, k, "sub") {
        let ks = kids_exec(&d.tree, k, Ghost(d.chars@.len() as int));
        proof {
            lemma_kids_in(d, k as int);
        }
        match find_def_exec(d, &ks, 1, false) {
            Some(j) => basic_kind_exec(d, j),
            None => TypeKind::Func { params: Vec::new(), results: Vec::new() },
        }
    } else {
        basic_kind_exec(d, k)
    }
}

fn type_def_node_exec(d: &Doc, k: usize) -> (r: Option<usize>)
    requires
        doc_wf(d),
        k < d.tree@.len(),
    ensures
        r == type_def_node(d.chars@, d.tree@, k as int),
        r matches Some(j) ==> j < d.tree@.len(),
{
    let ks = kids_exec(&d.tree, k, Ghost(d.chars@.len() as int));
    proof {
        lemma_kids_in(d, k as int);
    }
    find_def_exec(d, &ks, 1, true)
}

pub(crate) fn name_node_exec(d: &Doc, k: usize) -> (r: Option<usize>)
    requires
        doc_wf(d),
        k < d.tree@.len(),
    ensures
        r == syntax::name_node(d.tree@, k as int),
        r matches Some(j) ==> j < d.tree@.len(),
{
    let ks = kids_exec(&d.tree, k, Ghost(d.chars@.len() as int));
    proof {
        lemma_kids_in(d, k as int);
    }
    if ks.len() > 1 && d.tree[ks[1]].kind == NodeKind::Identifier {
        Some(ks[1])
    } else {
        None
    }
}

fn type_exec(d: &Doc, k: usize, index: usize) -> (r: TypeDef)
    requires
        doc_wf(d),
        k < d.tree@.len(),
    ensures
        r.deep_view() == type_model(d.chars@, d.tree@, k as int, index as int),
{
    let id = name_node_exec(d, k);
    let (name, range) = id_name_exec(d, id);
    let kind = match type_def_node_exec(d, k) {
        Some(j) => def_kind_exec(d, j),
        None => TypeKind::Func { params: Vec::new(), results: Vec::new() },
    };
    TypeDef { name, index, kind, line: line_exec(d, k), range }
}

fn rec_types_exec(d: &Doc, acc: &mut Vec<TypeDef>, k: usize)
    requires
        doc_wf(d),
        k < d.tree@.len(),
    ensures
        final(acc).deep_view() == rec_fold(d.chars@, d.tree@, old(acc).deep_view(), syntax::kids(d.tree@, k as int)),
{
    let ks = kids_exec(&d.tree, k, Ghost(d.chars@.len() as int));
    proof {
        lemma_kids_in(d, k as int);
    }
    let ghost a0 = acc.deep_view();
    let mut i: usize = 0;
    while i < ks.len()
        invariant
            doc_wf(d),
            nodes_in(d, ks@),
            i <= ks@.len(),
            acc.deep_view() == rec_fold(d.chars@, d.tree@, a0, ks@.take(i as int)),
        decreases ks@.len() - i,
    {
        assert(ks@.take(i + 1).drop_last() =~= ks@.take(i as int));
        assert(ks@.take(i + 1).last() == ks@[i as int]);
        assert(ks@[i as int] < d.tree@.len());
        let j = ks[i];
        if head_is_exec(d, j, "type") {
            match type_def_node_exec(d, j) {
                Some(def) => {
                    let id = name_node_exec(d, j);
                    let (name, range) = id_name_exec(d, id);
                    let kind = def_kind_exec(d, def);
                    let line = line_exec(d, def);
                    let index = acc.len();
                    push_dv(acc, TypeDef { name, index, kind, line, range });
                },
                None => {},
            }
        }
        i = i + 1;
    }
    assert(ks@.take(i as int) =~= ks@);
}

/// The types defined by the module fields `fs`.
pub fn types_exec(d: &Doc, fs: &Vec<usize>) -> (r: Vec<TypeDef>)
    requires
        doc_wf(d),
        nodes_in(d, fs@),
    ensures
        r.deep_view() == types_fold(d.chars@, d.tree@, fs@),
{
    let mut r: Vec<TypeDef> = Vec::new();
    let mut i: usize = 0;
    assert(r.deep_view() =~= Seq::<TypeDefModel>::empty());
    while i < fs.len()
        invariant
            doc_wf(d),
            nodes_in(d, fs@),
            i <= fs@.len(),
            r.deep_view() == types_fold(d.chars@, d.tree@, fs@.take(i as int)),
        decreases fs@.len() - i,
    {
        assert(fs@.take(i + 1).drop_last() =~= fs@.take(i as int));
        assert(fs@.take(i + 1).last() == fs@[i as int]);
        assert(fs@[i as int] < d.tree@.len());
        let f = fs[i];
        if head_is_exec(d, f, "type") {
            let index = r.len();
            let td = type_exec(d, f, index);
            push_dv(&mut r, td);
        } else if head_is_exec(d, f, "rec") {
            rec_types_exec(d, &mut r, f);
        }
        i = i + 1;
    }
    assert(fs@.take(i as int) =~= fs@);
    r
}


/// Whether node `j` is an `(export ...)` or `(import ...)` list.
pub open spec fn is_annot(s: Seq<char>, t: Seq<SyntaxNode>, j: int) -> bool {
    syntax::head_is(s, t, j, "export"@) || syntax::head_is(s, t, j, "import"@)
}

/// The children of `k` after its head and name.
pub open spec fn items_of(t: Seq<SyntaxNode>, k: int) -> Seq<usize> {
    syntax::after(syntax::kids(t, k), if syntax::name_node(t, k) is Some { 2 } else { 1 })
}

/// The first of `ks[i..]` that is not an export or import list.
pub open spec fn first_plain(s: Seq<char>, t: Seq<SyntaxNode>, ks: Seq<usize>, i: int) -> Option<usize>
    decreases ks.len() - i,
{
    if i < 0 || i >= ks.len() {
        None
    } else if is_annot(s, t, ks[i] as int) {
        first_plain(s, t, ks, i + 1)
    } else {
        Some(ks[i])
    }
}

/// The type and mutability of a global: `(mut t)` or `t` after its name,
/// exports and import.
pub open spec fn global_type_of(s: Seq<char>, t: Seq<SyntaxNode>, g: int) -> (ValueType, bool) {
    match first_plain(s, t, items_of(t, g), 0) {
        Some(j) => if syntax::head_is(s, t, j as int, "mut"@) {
            let ks = syntax::kids(t, j as int);
            (
                if ks.len() > 1 {
                    match value_type_at(s, t, ks[1] as int) {
                        Some(v) => v,
                        None => ValueType::Unknown,
                    }
                } else {
                    ValueType::Unknown
                },
                true,
            )
        } else {
            match value_type_at(s, t, j as int) {
                Some(v) => (v, false),
                None => (ValueType::Unknown, false),
            }
        },
        None => (ValueType::Unknown, false),
    }
}

pub open spec fn global_model(s: Seq<char>, t: Seq<SyntaxNode>, g: int, index: int) -> GlobalModel {
    let ty = global_type_of(s, t, g);
    GlobalModel {
        name: id_name(s, t, syntax::name_node(t, g)),
        index: index as usize,
        var_type: ty.0,
        is_mutable: ty.1,
        initial_value: None,
        line: line_of(s, t[g]),
        range: id_range(s, t, syntax::name_node(t, g)),
    }
}

pub open spec fn is_ref_type(v: ValueType) -> bool {
    match v {
        ValueType::Funcref | ValueType::Externref | ValueType::Structref | ValueType::Arrayref
        | ValueType::I31ref | ValueType::Anyref | ValueType::Eqref | ValueType::Nullref
        | ValueType::NullFuncref | ValueType::NullExternref | ValueType::Ref(_)
        | ValueType::RefNull(_) => true,
        _ => false,
    }
}

/// The values of the numbers among `ks` that parse (as WAT naturals, or as
/// plain decimals when `decimal_only`).
pub open spec fn nats_in(s: Seq<char>, t: Seq<SyntaxNode>, ks: Seq<usize>, decimal_only: bool) -> Seq<u64>
    decreases ks.len(),
{
    if ks.len() == 0 {
        Seq::empty()
    } else {
        let r = nats_in(s, t, ks.drop_last(), decimal_only);
        let j = ks.last() as int;
        if t[j].kind == NodeKind::Number {
            let v = if decimal_only {
                bounded_value(syntax::text_of(s, t[j]), 10, u64::MAX as nat)
            } else {
                wat_nat_value(syntax::text_of(s, t[j]))
            };
            match v {
                Some(x) => r.push(x as u64),
                None => r,
            }
        } else {
            r
        }
    }
}

/// Limits from the numbers of a table or memory: the first is the minimum,
/// the last of the others the maximum.
pub open spec fn limits_of(ns: Seq<u64>) -> Limits {
    if ns.len() == 0 {
        Limits(0, None)
    } else if ns.len() == 1 {
        Limits(ns[0], None)
    } else {
        Limits(ns[0], Some(ns.last()))
    }
}

/// The last reference type written among `ks`, or `funcref`.
pub open spec fn ref_type_in(s: Seq<char>, t: Seq<SyntaxNode>, ks: Seq<usize>) -> ValueType
    decreases ks.len(),
{
    if ks.len() == 0 {
        ValueType::Funcref
    } else {
        match value_type_at(s, t, ks.last() as int) {
            Some(v) => if is_ref_type(v) {
                v
            } else {
                ref_type_in(s, t, ks.drop_last())
            },
            None => ref_type_in(s, t, ks.drop_last()),
        }
    }
}

pub open spec fn table_model(s: Seq<char>, t: Seq<SyntaxNode>, k: int, index: int) -> TableModel {
    TableModel {
        name: id_name(s, t, syntax::name_node(t, k)),
        index: index as usize,
        ref_type: ref_type_in(s, t, items_of(t, k)),
        limits: limits_of(nats_in(s, t, items_of(t, k), false)),
        line: line_of(s, t[k]),
        range: id_range(s, t, syntax::name_node(t, k)),
    }
}

pub open spec fn memory_model(s: Seq<char>, t: Seq<SyntaxNode>, k: int, index: int, decimal_only: bool) -> MemoryModel {
    MemoryModel {
        name: id_name(s, t, syntax::name_node(t, k)),
        index: index as usize,
        limits: limits_of(nats_in(s, t, items_of(t, k), decimal_only)),
        line: line_of(s, t[k]),
        range: id_range(s, t, syntax::name_node(t, k)),
    }
}

pub open spec fn tag_model(s: Seq<char>, t: Seq<SyntaxNode>, k: int, index: int) -> TagModel {
    let es = decls_in(s, t, syntax::kids(t, k), "param"@);
    TagModel {
        name: id_name(s, t, syntax::name_node(t, k)),
        index: index as usize,
        params: Seq::new(es.len(), |i: int| es[i].1),
        line: line_of(s, t[k]),
        range: id_range(s, t, syntax::name_node(t, k)),
    }
}

fn items_exec(d: &Doc, k: usize) -> (r: Vec<usize>)
    requires
        doc_wf(d),
        k < d.tree@.len(),
    ensures
        r@ == items_of(d.tree@, k as int),
        nodes_in(d, r@),
{
    let ks = kids_exec(&d.tree, k, Ghost(d.chars@.len() as int));
    proof {
        lemma_kids_in(d, k as int);
    }
    let from: usize = if ks.len() > 1 && d.tree[ks[1]].kind == NodeKind::Identifier {
        2
    } else {
        1
    };
    let mut r: Vec<usize> = Vec::new();
    if from > ks.len() {
        assert(syntax::after(ks@, from as int) =~= Seq::<usize>::empty());
        return r;
    }
    let mut i = from;
    while i < ks.len()
        invariant
            doc_wf(d),
            nodes_in(d, ks@),
            from <= i <= ks@.len(),
            r@ =~= ks@.subrange(from as int, i as int),
        decreases ks@.len() - i,
    {
        r.push(ks[i]);
        i = i + 1;
    }
    r
}

fn first_plain_exec(d: &Doc, ks: &Vec<usize>) -> (r: Option<usize>)
    requires
        doc_wf(d),
        nodes_in(d, ks@),
    ensures
        r == first_plain(d.chars@, d.tree@, ks@, 0),
        r matches Some(j) ==> j < d.tree@.len(),
{
    let mut i: usize = 0;
    while i < ks.len()
        invariant
            doc_wf(d),
            nodes_in(d, ks@),
            first_plain(d.chars@, d.tree@, ks@, 0) == first_plain(d.chars@, d.tree@, ks@, i as int),
        decreases ks@.len() - i,
    {
        assert(ks@[i as int] < d.tree@.len());
        if !(head_is_exec(d, ks[i], "export") || head_is_exec(d, ks[i], "import")) {
            return Some(ks[i]);
        }
        i = i + 1;
    }
    None
}

pub(crate) fn global_exec(d: &Doc, g: usize, index: usize) -> (r: Global)
    requires
        doc_wf(d),
        g < d.tree@.len(),
    ensures
        r.deep_view() == global_model(d.chars@, d.tree@, g as int, index as int),
{
    let items = items_exec(d, g);
    let (var_type, is_mutable) = match first_plain_exec(d, &items) {
        Some(j) => {
            if head_is_exec(d, j, "mut") {
                let ks = kids_exec(&d.tree, j, Ghost(d.chars@.len() as int));
                proof {
                    lemma_kids_in(d, j as int);
                }
                let v = if ks.len() > 1 {
                    match value_type_exec(d, ks[1]) {
                        Some(v) => v,
                        None => ValueType::Unknown,
                    }
                } else {
                    ValueType::Unknown
                };
                (v, true)
            } else {
                match value_type_exec(d, j) {
                    Some(v) => (v, false),
                    None => (ValueType::Unknown, false),
                }
            }
        },
        None => (ValueType::Unknown, false),
    };
    let id = name_node_exec(d, g);
    let (name, range) = id_name_exec(d, id);
    Global { name, index, var_type, is_mutable, initial_value: None, line: line_exec(d, g), range }
}

fn nats_exec(d: &Doc, ks: &Vec<usize>, decimal_only: bool) -> (r: Vec<u64>)
    requires
        doc_wf(d),
        nodes_in(d, ks@),
    ensures
        r@ == nats_in(d.chars@, d.tree@, ks@, decimal_only),
{
    let mut r: Vec<u64> = Vec::new();
    let mut i: usize = 0;
    while i < ks.len()
        invariant
            doc_wf(d),
            nodes_in(d, ks@),
            i <= ks@.len(),
            r@ == nats_in(d.chars@, d.tree@, ks@.take(i as int), decimal_only),
        decreases ks@.len() - i,
    {
        assert(ks@.take(i + 1).drop_last() =~= ks@.take(i as int));
        assert(ks@.take(i + 1).last() == ks@[i as int]);
        assert(ks@[i as int] < d.tree@.len());
        let j = ks[i];
        if d.tree[j].kind == NodeKind::Number {
            let w = node_chars(d, j);
            let v = if decimal_only {
                parse_number(w.as_slice(), 10, u64::MAX)
            } else {
                parse_wat_nat(w.as_slice())
            };
            match v {
                Some(x) => {
                    r.push(x);
                },
                None => {},
            }
        }
        i = i + 1;
    }
    assert(ks@.take(i as int) =~= ks@);
    r
}

fn limits_exec(ns: &Vec<u64>) -> (l: Limits)
    ensures
        l == limits_of(ns@),
{
    if ns.len() == 0 {
        Limits(0, None)
    } else if ns.len() == 1 {
        Limits(ns[0], None)
    } else {
        Limits(ns[0], Some(ns[ns.len() - 1]))
    }
}

fn is_ref_type_exec(v: ValueType) -> (b: bool)
    ensures
        b == is_ref_type(v),
{
    match v {
        ValueType::Funcref | ValueType::Externref | ValueType::Structref | ValueType::Arrayref
        | ValueType::I31ref | ValueType::Anyref | ValueType::Eqref | ValueType::Nullref
        | ValueType::NullFuncref | ValueType::NullExternref | ValueType::Ref(_)
        | ValueType::RefNull(_) => true,
        _ => false,
    }
}

fn ref_type_in_exec(d: &Doc, ks: &Vec<usize>) -> (v: ValueType)
    requires
        doc_wf(d),
        nodes_in(d, ks@),
    ensures
        v == ref_type_in(d.chars@, d.tree@, ks@),
{
    let mut i = ks.len();
    assert(ks@.take(i as int) =~= ks@);
    while i > 0
        invariant
            doc_wf(d),
            nodes_in(d, ks@),
            i <= ks@.len(),
            ref_type_in(d.chars@, d.tree@, ks@) == ref_type_in(d.chars@, d.tree@, ks@.take(i as int)),
        decreases i,
    {
        assert(ks@.take(i as int).drop_last() =~= ks@.take(i - 1));
        assert(ks@.take(i as int).last() == ks@[i - 1]);
        assert(ks@[i - 1] < d.tree@.len());
        match value_type_exec(d, ks[i - 1]) {
            Some(v) => {
                if is_ref_type_exec(v) {
                    return v;
                }
            },
            None => {},
        }
        i = i - 1;
    }
    ValueType::Funcref
}

fn table_exec(d: &Doc, k: usize, index: usize) -> (r: Table)
    requires
        doc_wf(d),
        k < d.tree@.len(),
    ensures
        r.deep_view() == table_model(d.chars@, d.tree@, k as int, index as int),
{
    let items = items_exec(d, k);
    let ref_type = ref_type_in_exec(d, &items);
    let ns = nats_exec(d, &items, false);
    let id = name_node_exec(d, k);
    let (name, range) = id_name_exec(d, id);
    Table { name, index, ref_type, limits: limits_exec(&ns), line: line_exec(d, k), range }
}

fn memory_exec(d: &Doc, k: usize, index: usize, decimal_only: bool) -> (r: Memory)
    requires
        doc_wf(d),
        k < d.tree@.len(),
    ensures
        r.deep_view() == memory_model(d.chars@, d.tree@, k as int, index as int, decimal_only),
{
    let items = items_exec(d, k);
    let ns = nats_exec(d, &items, decimal_only);
    let id = name_node_exec(d, k);
    let (name, range) = id_name_exec(d, id);
    Memory { name, index, limits: limits_exec(&ns), line: line_exec(d, k), range }
}

fn tag_exec(d: &Doc, k: usize, index: usize) -> (r: Tag)
    requires
        doc_wf(d),
        k < d.tree@.len(),
    ensures
        r.deep_view() == tag_model(d.chars@, d.tree@, k as int, index as int),
{
    let es = decls_exec(d, k, "param");
    let mut params: Vec<ValueType> = Vec::new();
    let mut i: usize = 0;
    while i < es.len()
        invariant
            i <= es@.len(),
            params@ =~= Seq::new(i as nat, |j: int| es@[j].1),
        decreases es@.len() - i,
    {
        params.push(es[i].1);
        i = i + 1;
    }
    let id = name_node_exec(d, k);
    let (name, range) = id_name_exec(d, id);
    Tag { name, index, params, line: line_exec(d, k), range }
}


/// The first of `ks[i..]` that is a list headed by `w`.
pub open spec fn find_headed(s: Seq<char>, t: Seq<SyntaxNode>, ks: Seq<usize>, i: int, w: Seq<char>) -> Option<usize>
    decreases ks.len() - i,
{
    if i < 0 || i >= ks.len() {
        None
    } else if syntax::head_is(s, t, ks[i] as int, w) {
        Some(ks[i])
    } else {
        find_headed(s, t, ks, i + 1, w)
    }
}

/// The `(type ...)` reference of a function, if it has one.
pub open spec fn type_use_node(s: Seq<char>, t: Seq<SyntaxNode>, f: int) -> Option<usize> {
    find_headed(s, t, syntax::kids(t, f), 1, "type"@)
}

/// The index or name that a function's `(type ...)` reference names.
pub open spec fn type_use_ref(s: Seq<char>, t: Seq<SyntaxNode>, f: int) -> Option<usize> {
    match type_use_node(s, t, f) {
        Some(u) => {
            let ks = syntax::kids(t, u as int);
            if ks.len() > 1 && (t[ks[1] as int].kind == NodeKind::Identifier || t[ks[1] as int].kind
                == NodeKind::Number) {
                Some(ks[1])
            } else {
                None
            }
        },
        None => None,
    }
}

/// Index of the last type named `n`.
pub open spec fn last_type_named(types: Seq<TypeDefModel>, n: Seq<char>) -> Option<int>
    decreases types.len(),
{
    if types.len() == 0 {
        None
    } else if types.last().name == Some(n) {
        Some(types.len() - 1)
    } else {
        last_type_named(types.drop_last(), n)
    }
}

/// The type that a reference `w` denotes: by name, else by numeric index.
pub open spec fn type_lookup(types: Seq<TypeDefModel>, w: Seq<char>) -> Option<TypeDefModel> {
    match last_type_named(types, w) {
        Some(i) => Some(types[i]),
        None => match bounded_value(w, 10, usize::MAX as nat) {
            Some(i) => if i < types.len() {
                Some(types[i as int])
            } else {
                None
            },
            None => None,
        },
    }
}

pub open spec fn func_sig(f: FunctionModel) -> (Seq<ValueType>, Seq<ValueType>) {
    (Seq::new(f.parameters.len(), |i: int| f.parameters[i].param_type), f.results)
}

/// The signatures of the function types, in order.
pub open spec fn explicit_sigs(types: Seq<TypeDefModel>) -> Seq<(Seq<ValueType>, Seq<ValueType>)>
    decreases types.len(),
{
    if types.len() == 0 {
        Seq::empty()
    } else {
        let r = explicit_sigs(types.drop_last());
        match types.last().kind {
            TypeKindModel::Func { params, results } => r.push((params, results)),
            _ => r,
        }
    }
}

/// The type index space as the binary format numbers it: the function types,
/// then each new signature of a function written without a type reference.
pub open spec fn implicit_sigs(types: Seq<TypeDefModel>, funcs: Seq<FunctionModel>) -> Seq<(Seq<ValueType>, Seq<ValueType>)>
    decreases funcs.len(),
{
    if funcs.len() == 0 {
        explicit_sigs(types)
    } else {
        let r = implicit_sigs(types, funcs.drop_last());
        let f = funcs.last();
        if !f.has_type_use && !r.contains(func_sig(f)) {
            r.push(func_sig(f))
        } else {
            r
        }
    }
}

/// The parameter and result types that a function's `(type ...)` reference
/// gives it: a function type found by name or index, else (for a numeric
/// index) the implicit signature at that index.
pub open spec fn resolve_type_use(
    s: Seq<char>,
    t: Seq<SyntaxNode>,
    f: int,
    types: Seq<TypeDefModel>,
    funcs: Seq<FunctionModel>,
) -> Option<(Seq<ValueType>, Seq<ValueType>)> {
    match type_use_ref(s, t, f) {
        None => None,
        Some(r) => {
            let w = syntax::text_of(s, t[r as int]);
            let direct = match type_lookup(types, w) {
                Some(td) => match td.kind {
                    TypeKindModel::Func { params, results } => Some((params, results)),
                    _ => None,
                },
                None => None,
            };
            if direct is Some {
                direct
            } else {
                match bounded_value(w, 10, usize::MAX as nat) {
                    Some(i) => {
                        let sigs = implicit_sigs(types, funcs);
                        if i < sigs.len() {
                            Some(sigs[i as int])
                        } else {
                            None
                        }
                    },
                    None => None,
                }
            }
        },
    }
}

pub open spec fn unnamed_params(vs: Seq<ValueType>) -> Seq<ParameterModel> {
    Seq::new(
        vs.len(),
        |i: int| ParameterModel { name: None, param_type: vs[i], index: i as usize, range: None },
    )
}

/// A function declared by list `f` (a `(func ...)` field, or the descriptor
/// of an import). Without results of its own, its signature comes from its
/// type reference. Locals, labels and documentation are read only for a
/// function with a body.
pub open spec fn func_model(
    s: Seq<char>,
    t: Seq<SyntaxNode>,
    f: int,
    index: int,
    types: Seq<TypeDefModel>,
    funcs: Seq<FunctionModel>,
    with_body: bool,
) -> FunctionModel {
    let p0 = params_of(s, t, f);
    let r0 = results_of(s, t, f);
    let res = if r0.len() == 0 {
        resolve_type_use(s, t, f, types, funcs)
    } else {
        None
    };
    FunctionModel {
        name: id_name(s, t, syntax::name_node(t, f)),
        index: index as usize,
        parameters: match res {
            Some(pr) => if p0.len() == 0 {
                unnamed_params(pr.0)
            } else {
                p0
            },
            None => p0,
        },
        results: match res {
            Some(pr) => pr.1,
            None => r0,
        },
        locals: if with_body {
            locals_of(s, t, f)
        } else {
            Seq::empty()
        },
        blocks: if with_body {
            blocks_of(s, t, f)
        } else {
            Seq::empty()
        },
        line: line_of(s, t[f]),
        end_line: syntax::row_at(s, t[f].end as int) as u32,
        start_byte: syntax::byte_at(s, t[f].start as int) as usize,
        end_byte: syntax::byte_at(s, t[f].end as int) as usize,
        range: id_range(s, t, syntax::name_node(t, f)),
        doc_comment: if with_body {
            doc_comment_of(s, t, f)
        } else {
            None
        },
        has_type_use: type_use_node(s, t, f) is Some,
    }
}

fn find_headed_exec(d: &Doc, ks: &Vec<usize>, from: usize, w: &str) -> (r: Option<usize>)
    requires
        doc_wf(d),
        nodes_in(d, ks@),
    ensures
        r == find_headed(d.chars@, d.tree@, ks@, from as int, w@),
        r matches Some(j) ==> j < d.tree@.len(),
{
    let mut i = from;
    while i < ks.len()
        invariant
            doc_wf(d),
            nodes_in(d, ks@),
            from <= i,
            find_headed(d.chars@, d.tree@, ks@, from as int, w@) == find_headed(d.chars@, d.tree@, ks@, i as int, w@),
        decreases ks@.len() - i,
    {
        assert(ks@[i as int] < d.tree@.len());
        if head_is_exec(d, ks[i], w) {
            return Some(ks[i]);
        }
        i = i + 1;
    }
    None
}

fn type_use_node_exec(d: &Doc, f: usize) -> (r: Option<usize>)
    requires
        doc_wf(d),
        f < d.tree@.len(),
    ensures
        r == type_use_node(d.chars@, d.tree@, f as int),
        r matches Some(j) ==> j < d.tree@.len(),
{
    let ks = kids_exec(&d.tree, f, Ghost(d.chars@.len() as int));
    proof {
        lemma_kids_in(d, f as int);
    }
    find_headed_exec(d, &ks, 1, "type")
}

fn type_use_ref_exec(d: &Doc, f: usize) -> (r: Option<usize>)
    requires
        doc_wf(d),
        f < d.tree@.len(),
    ensures
        r == type_use_ref(d.chars@, d.tree@, f as int),
        r matches Some(j) ==> j < d.tree@.len(),
{
    match type_use_node_exec(d, f) {
        Some(u) => {
            let ks = kids_exec(&d.tree, u, Ghost(d.chars@.len() as int));
            proof {
                lemma_kids_in(d, u as int);
            }
            if ks.len() > 1 && (d.tree[ks[1]].kind == NodeKind::Identifier || d.tree[ks[1]].kind
                == NodeKind::Number) {
                Some(ks[1])
            } else {
                None
            }
        },
        None => None,
    }
}

fn opt_chars_eq(o: &Option<String>, c: &Vec<char>) -> (r: bool)
    ensures
        r == (text::opt_view(*o) == Some(c@)),
{
    match o {
        Some(st) => {
            let sc = text::chars_of(st.as_str());
            text::chars_eq(sc.as_slice(), c.as_slice())
        },
        None => false,
    }
}

fn type_lookup_exec(types: &Vec<TypeDef>, w: &Vec<char>) -> (r: Option<usize>)
    ensures
        match type_lookup(types.deep_view(), w@) {
            Some(td) => r matches Some(i) && i < types@.len() && types.deep_view()[i as int] == td,
            None => r is None,
        },
{
    let ghost tv = types.deep_view();
    let mut i = types.len();
    assert(tv.take(i as int) =~= tv);
    while i > 0
        invariant
            i <= types@.len(),
            tv == types.deep_view(),
            last_type_named(tv, w@) == last_type_named(tv.take(i as int), w@),
        decreases i,
    {
        assert(tv.take(i as int).drop_last() =~= tv.take(i - 1));
        assert(tv.take(i as int).last() == tv[i - 1]);
        assert(tv[i - 1].name == text::opt_view(types@[i - 1].name));
        if opt_chars_eq(&types[i - 1].name, w) {
            return Some(i - 1);
        }
        i = i - 1;
    }
    assert(last_type_named(tv.take(0), w@) is None);
    match parse_number(w.as_slice(), 10, usize::MAX as u64) {
        Some(n) => {
            if (n as usize) < types.len() {
                Some(n as usize)
            } else {
                None
            }
        },
        None => None,
    }
}


pub open spec fn sigs_view(v: Seq<(Vec<ValueType>, Vec<ValueType>)>) -> Seq<(Seq<ValueType>, Seq<ValueType>)> {
    Seq::new(v.len(), |i: int| (v[i].0@, v[i].1@))
}

fn copy_types(v: &Vec<ValueType>) -> (r: Vec<ValueType>)
    ensures
        r@ == v@,
{
    let mut r: Vec<ValueType> = Vec::new();
    let mut i: usize = 0;
    while i < v.len()
        invariant
            i <= v@.len(),
            r@ =~= v@.take(i as int),
        decreases v@.len() - i,
    {
        r.push(v[i]);
        i = i + 1;
    }
    assert(v@.take(i as int) =~= v@);
    r
}

fn types_eq(a: &Vec<ValueType>, b: &Vec<ValueType>) -> (r: bool)
    ensures
        r == (a@ == b@),
{
    if a.len() != b.len() {
        return false;
    }
    let mut i: usize = 0;
    while i < a.len()
        invariant
            a@.len() == b@.len(),
            i <= a@.len(),
            forall|j: int| 0 <= j < i ==> a@[j] == b@[j],
        decreases a@.len() - i,
    {
        if a[i] != b[i] {
            return false;
        }
        i = i + 1;
    }
    assert(a@ =~= b@);
    true
}

fn func_sig_exec(f: &Function) -> (r: (Vec<ValueType>, Vec<ValueType>))
    ensures
        (r.0@, r.1@) == func_sig(f.deep_view()),
{
    let mut ps: Vec<ValueType> = Vec::new();
    let mut i: usize = 0;
    while i < f.parameters.len()
        invariant
            i <= f.parameters@.len(),
            ps@ =~= Seq::new(i as nat, |j: int| f.parameters@[j].param_type),
        decreases f.parameters@.len() - i,
    {
        ps.push(f.parameters[i].param_type);
        i = i + 1;
    }
    assert(ps@ =~= Seq::new(f.deep_view().parameters.len(), |j: int| f.deep_view().parameters[j].param_type));
    (ps, copy_types(&f.results))
}

fn sig_in(acc: &Vec<(Vec<ValueType>, Vec<ValueType>)>, sig: &(Vec<ValueType>, Vec<ValueType>)) -> (r: bool)
    ensures
        r == sigs_view(acc@).contains((sig.0@, sig.1@)),
{
    let mut i: usize = 0;
    while i < acc.len()
        invariant
            i <= acc@.len(),
            forall|j: int| 0 <= j < i ==> sigs_view(acc@)[j] != (sig.0@, sig.1@),
        decreases acc@.len() - i,
    {
        if types_eq(&acc[i].0, &sig.0) && types_eq(&acc[i].1, &sig.1) {
            assert(sigs_view(acc@)[i as int] == (sig.0@, sig.1@));
            return true;
        }
        i = i + 1;
    }
    false
}

fn push_sig(acc: &mut Vec<(Vec<ValueType>, Vec<ValueType>)>, sig: (Vec<ValueType>, Vec<ValueType>))
    ensures
        sigs_view(final(acc)@) == sigs_view(old(acc)@).push((sig.0@, sig.1@)),
{
    let ghost a0 = acc@;
    acc.push(sig);
    assert(sigs_view(acc@) =~= sigs_view(a0).push((sig.0@, sig.1@)));
}

fn implicit_sigs_exec(types: &Vec<TypeDef>, funcs: &Vec<Function>) -> (r: Vec<(Vec<ValueType>, Vec<ValueType>)>)
    ensures
        sigs_view(r@) == implicit_sigs(types.deep_view(), funcs.deep_view()),
{
    let ghost tv = types.deep_view();
    let ghost fv = funcs.deep_view();
    let mut r: Vec<(Vec<ValueType>, Vec<ValueType>)> = Vec::new();
    let mut i: usize = 0;
    assert(sigs_view(r@) =~= explicit_sigs(tv.take(0)));
    while i < types.len()
        invariant
            i <= types@.len(),
            tv == types.deep_view(),
            sigs_view(r@) == explicit_sigs(tv.take(i as int)),
        decreases types@.len() - i,
    {
        assert(tv.take(i + 1).drop_last() =~= tv.take(i as int));
        assert(tv.take(i + 1).last() == tv[i as int]);
        match &types[i].kind {
            TypeKind::Func { params, results } => {
                push_sig(&mut r, (copy_types(params), copy_types(results)));
            },
            _ => {},
        }
        i = i + 1;
    }
    assert(tv.take(i as int) =~= tv);
    let mut k: usize = 0;
    assert(fv.take(0) =~= Seq::<FunctionModel>::empty());
    while k < funcs.len()
        invariant
            k <= funcs@.len(),
            tv == types.deep_view(),
            fv == funcs.deep_view(),
            sigs_view(r@) == implicit_sigs(tv, fv.take(k as int)),
        decreases funcs@.len() - k,
    {
        assert(fv.take(k + 1).drop_last() =~= fv.take(k as int));
        assert(fv.take(k + 1).last() == fv[k as int]);
        assert(fv[k as int] == funcs@[k as int].deep_view());
        if !funcs[k].has_type_use {
            let sig = func_sig_exec(&funcs[k]);
            if !sig_in(&r, &sig) {
                push_sig(&mut r, sig);
            }
        }
        k = k + 1;
    }
    assert(fv.take(k as int) =~= fv);
    r
}

fn resolve_type_use_exec(d: &Doc, f: usize, types: &Vec<TypeDef>, funcs: &Vec<Function>) -> (r: Option<(Vec<ValueType>, Vec<ValueType>)>)
    requires
        doc_wf(d),
        f < d.tree@.len(),
    ensures
        match r {
            Some(pr) => resolve_type_use(d.chars@, d.tree@, f as int, types.deep_view(), funcs.deep_view()) == Some((pr.0@, pr.1@)),
            None => resolve_type_use(d.chars@, d.tree@, f as int, types.deep_view(), funcs.deep_view()) is None,
        },
{
    match type_use_ref_exec(d, f) {
        None => None,
        Some(rf) => {
            let w = node_chars(d, rf);
            match type_lookup_exec(types, &w) {
                Some(i) => {
                    match &types[i].kind {
                        TypeKind::Func { params, results } => {
                            return Some((copy_types(params), copy_types(results)));
                        },
                        _ => {},
                    }
                },
                None => {},
            }
            match parse_number(w.as_slice(), 10, usize::MAX as u64) {
                Some(n) => {
                    let sigs = implicit_sigs_exec(types, funcs);
                    if (n as usize) < sigs.len() {
                        let n = n as usize;
                        assert(sigs_view(sigs@)[n as int] == (sigs@[n as int].0@, sigs@[n as int].1@));
                        Some((copy_types(&sigs[n].0), copy_types(&sigs[n].1)))
                    } else {
                        None
                    }
                },
                None => None,
            }
        },
    }
}

/// The function declared by list `f` (see `func_model`).
fn func_exec(d: &Doc, f: usize, index: usize, types: &Vec<TypeDef>, funcs: &Vec<Function>, with_body: bool) -> (r: Function)
    requires
        doc_wf(d),
        f < d.tree@.len(),
    ensures
        r.deep_view() == func_model(d.chars@, d.tree@, f as int, index as int, types.deep_view(), funcs.deep_view(), with_body),
{
    proof {
        lemma_node_wf(d, f as int);
    }
    let p0 = params_exec(d, f);
    let r0 = results_exec(d, f);
    let res = if r0.len() == 0 {
        resolve_type_use_exec(d, f, types, funcs)
    } else {
        None
    };
    let (parameters, results) = match res {
        Some(pr) => {
            let (tp, tr) = pr;
            if p0.len() == 0 {
                let mut ps: Vec<Parameter> = Vec::new();
                let mut i: usize = 0;
                while i < tp.len()
                    invariant
                        i <= tp@.len(),
                        ps.deep_view() =~= unnamed_params(tp@).take(i as int),
                    decreases tp@.len() - i,
                {
                    push_dv(&mut ps, Parameter { name: None, param_type: tp[i], index: i, range: None });
                    i = i + 1;
                }
                assert(unnamed_params(tp@).take(i as int) =~= unnamed_params(tp@));
                (ps, tr)
            } else {
                (p0, tr)
            }
        },
        None => (p0, r0),
    };
    let locals = if with_body {
        locals_exec(d, f)
    } else {
        Vec::new()
    };
    let blocks = if with_body {
        blocks_exec(d, f)
    } else {
        Vec::new()
    };
    let doc_comment = if with_body {
        doc_comment_exec(d, f)
    } else {
        None
    };
    let id = name_node_exec(d, f);
    let (name, range) = id_name_exec(d, id);
    let n = d.tree[f];
    let r = Function {
        name,
        index,
        parameters,
        results,
        locals,
        blocks,
        line: d.pos[n.start].row as u32,
        end_line: d.pos[n.end].row as u32,
        start_byte: d.pos[n.start].byte,
        end_byte: d.pos[n.end].byte,
        range,
        doc_comment,
        has_type_use: type_use_node_exec(d, f).is_some(),
    };
    assert(r.locals.deep_view() =~= func_model(d.chars@, d.tree@, f as int, index as int, types.deep_view(), funcs.deep_view(), with_body).locals);
    assert(r.blocks.deep_view() =~= func_model(d.chars@, d.tree@, f as int, index as int, types.deep_view(), funcs.deep_view(), with_body).blocks);
    r
}


/// Whether list `k` is an import descriptor: `(func ...)`, `(global ...)`,
/// `(table ...)`, `(memory ...)` or `(tag ...)`.
pub open spec fn is_desc(s: Seq<char>, t: Seq<SyntaxNode>, k: int) -> bool {
    syntax::head_is(s, t, k, "func"@) || syntax::head_is(s, t, k, "global"@) || syntax::head_is(s, t, k, "table"@)
        || syntax::head_is(s, t, k, "memory"@) || syntax::head_is(s, t, k, "tag"@)
}

/// The first of `ks[i..]` that is an import descriptor.
pub open spec fn find_desc(s: Seq<char>, t: Seq<SyntaxNode>, ks: Seq<usize>, i: int) -> Option<usize>
    decreases ks.len() - i,
{
    if i < 0 || i >= ks.len() {
        None
    } else if is_desc(s, t, ks[i] as int) {
        Some(ks[i])
    } else {
        find_desc(s, t, ks, i + 1)
    }
}

/// The descriptor of an `(import "m" "n" desc)` field.
pub open spec fn import_desc(s: Seq<char>, t: Seq<SyntaxNode>, f: int) -> Option<usize> {
    if syntax::head_is(s, t, f, "import"@) {
        find_desc(s, t, syntax::kids(t, f), 1)
    } else {
        None
    }
}

/// Whether a field imports its entity inline: `(func $f (import "m" "n") ...)`.
pub open spec fn has_import(s: Seq<char>, t: Seq<SyntaxNode>, f: int) -> bool {
    find_headed(s, t, syntax::kids(t, f), 1, "import"@) is Some
}

/// The list that imports an entity of kind `w` from field `f`, if `f` is an
/// import of that kind (standalone or inline).
pub open spec fn import_of(s: Seq<char>, t: Seq<SyntaxNode>, f: int, w: Seq<char>) -> Option<usize> {
    match import_desc(s, t, f) {
        Some(dn) => if syntax::head_is(s, t, dn as int, w) {
            Some(dn)
        } else {
            None
        },
        None => if syntax::head_is(s, t, f, w) && has_import(s, t, f) {
            Some(f as usize)
        } else {
            None
        },
    }
}

/// Field `f` defines (does not import) an entity of kind `w`.
pub open spec fn defines(s: Seq<char>, t: Seq<SyntaxNode>, f: int, w: Seq<char>) -> bool {
    syntax::head_is(s, t, f, w) && !has_import(s, t, f)
}

/// The imported functions of fields `fs`, numbered from 0.
pub open spec fn import_funcs(s: Seq<char>, t: Seq<SyntaxNode>, fs: Seq<usize>, types: Seq<TypeDefModel>) -> Seq<FunctionModel>
    decreases fs.len(),
{
    if fs.len() == 0 {
        Seq::empty()
    } else {
        let a = import_funcs(s, t, fs.drop_last(), types);
        match import_of(s, t, fs.last() as int, "func"@) {
            Some(k) => a.push(func_model(s, t, k as int, a.len() as int, types, a, false)),
            None => a,
        }
    }
}

pub open spec fn import_globals(s: Seq<char>, t: Seq<SyntaxNode>, fs: Seq<usize>) -> Seq<GlobalModel>
    decreases fs.len(),
{
    if fs.len() == 0 {
        Seq::empty()
    } else {
        let a = import_globals(s, t, fs.drop_last());
        match import_of(s, t, fs.last() as int, "global"@) {
            Some(k) => a.push(global_model(s, t, k as int, a.len() as int)),
            None => a,
        }
    }
}

pub open spec fn import_tables(s: Seq<char>, t: Seq<SyntaxNode>, fs: Seq<usize>) -> Seq<TableModel>
    decreases fs.len(),
{
    if fs.len() == 0 {
        Seq::empty()
    } else {
        let a = import_tables(s, t, fs.drop_last());
        match import_of(s, t, fs.last() as int, "table"@) {
            Some(k) => a.push(table_model(s, t, k as int, a.len() as int)),
            None => a,
        }
    }
}

/// Imported memories; the limits of a standalone import are read as plain
/// decimals.
pub open spec fn import_memories(s: Seq<char>, t: Seq<SyntaxNode>, fs: Seq<usize>) -> Seq<MemoryModel>
    decreases fs.len(),
{
    if fs.len() == 0 {
        Seq::empty()
    } else {
        let a = import_memories(s, t, fs.drop_last());
        let f = fs.last() as int;
        match import_of(s, t, f, "memory"@) {
            Some(k) => a.push(memory_model(s, t, k as int, a.len() as int, k != f)),
            None => a,
        }
    }
}

pub open spec fn import_tags(s: Seq<char>, t: Seq<SyntaxNode>, fs: Seq<usize>) -> Seq<TagModel>
    decreases fs.len(),
{
    if fs.len() == 0 {
        Seq::empty()
    } else {
        let a = import_tags(s, t, fs.drop_last());
        match import_of(s, t, fs.last() as int, "tag"@) {
            Some(k) => a.push(tag_model(s, t, k as int, a.len() as int)),
            None => a,
        }
    }
}

pub open spec fn defined_globals(s: Seq<char>, t: Seq<SyntaxNode>, fs: Seq<usize>, init: Seq<GlobalModel>) -> Seq<GlobalModel>
    decreases fs.len(),
{
    if fs.len() == 0 {
        init
    } else {
        let a = defined_globals(s, t, fs.drop_last(), init);
        if defines(s, t, fs.last() as int, "global"@) {
            a.push(global_model(s, t, fs.last() as int, a.len() as int))
        } else {
            a
        }
    }
}

pub open spec fn defined_tables(s: Seq<char>, t: Seq<SyntaxNode>, fs: Seq<usize>, init: Seq<TableModel>) -> Seq<TableModel>
    decreases fs.len(),
{
    if fs.len() == 0 {
        init
    } else {
        let a = defined_tables(s, t, fs.drop_last(), init);
        if defines(s, t, fs.last() as int, "table"@) {
            a.push(table_model(s, t, fs.last() as int, a.len() as int))
        } else {
            a
        }
    }
}

pub open spec fn defined_memories(s: Seq<char>, t: Seq<SyntaxNode>, fs: Seq<usize>, init: Seq<MemoryModel>) -> Seq<MemoryModel>
    decreases fs.len(),
{
    if fs.len() == 0 {
        init
    } else {
        let a = defined_memories(s, t, fs.drop_last(), init);
        if defines(s, t, fs.last() as int, "memory"@) {
            a.push(memory_model(s, t, fs.last() as int, a.len() as int, false))
        } else {
            a
        }
    }
}

pub open spec fn defined_tags(s: Seq<char>, t: Seq<SyntaxNode>, fs: Seq<usize>, init: Seq<TagModel>) -> Seq<TagModel>
    decreases fs.len(),
{
    if fs.len() == 0 {
        init
    } else {
        let a = defined_tags(s, t, fs.drop_last(), init);
        if defines(s, t, fs.last() as int, "tag"@) {
            a.push(tag_model(s, t, fs.last() as int, a.len() as int))
        } else {
            a
        }
    }
}

/// A defined function named `n` is already among `a[from..]`.
pub open spec fn name_taken(a: Seq<FunctionModel>, from: int, n: Option<Seq<char>>) -> bool {
    n is Some && exists|i: int| from <= i < a.len() && #[trigger] a[i].name == n
}

/// The functions defined by fields `fs`, after the imported ones (`init`);
/// a function whose name an earlier defined function already has is left out.
pub open spec fn defined_funcs(
    s: Seq<char>,
    t: Seq<SyntaxNode>,
    fs: Seq<usize>,
    types: Seq<TypeDefModel>,
    init: Seq<FunctionModel>,
) -> Seq<FunctionModel>
    decreases fs.len(),
{
    if fs.len() == 0 {
        init
    } else {
        let a = defined_funcs(s, t, fs.drop_last(), types, init);
        let f = fs.last() as int;
        if defines(s, t, f, "func"@) {
            let m = func_model(s, t, f, a.len() as int, types, a, true);
            if name_taken(a, init.len() as int, m.name) {
                a
            } else {
                a.push(m)
            }
        } else {
            a
        }
    }
}

fn find_desc_exec(d: &Doc, ks: &Vec<usize>) -> (r: Option<usize>)
    requires
        doc_wf(d),
        nodes_in(d, ks@),
    ensures
        r == find_desc(d.chars@, d.tree@, ks@, 1),
        r matches Some(j) ==> j < d.tree@.len(),
{
    let mut i: usize = 1;
    while i < ks.len()
        invariant
            doc_wf(d),
            nodes_in(d, ks@),
            1 <= i,
            find_desc(d.chars@, d.tree@, ks@, 1) == find_desc(d.chars@, d.tree@, ks@, i as int),
        decreases ks@.len() - i,
    {
        assert(ks@[i as int] < d.tree@.len());
        let k = ks[i];
        if head_is_exec(d, k, "func") || head_is_exec(d, k, "global") || head_is_exec(d, k, "table")
            || head_is_exec(d, k, "memory") || head_is_exec(d, k, "tag") {
            return Some(k);
        }
        i = i + 1;
    }
    None
}

pub(crate) fn has_import_exec(d: &Doc, f: usize) -> (b: bool)
    requires
        doc_wf(d),
        f < d.tree@.len(),
    ensures
        b == has_import(d.chars@, d.tree@, f as int),
{
    let ks = kids_exec(&d.tree, f, Ghost(d.chars@.len() as int));
    proof {
        lemma_kids_in(d, f as int);
    }
    find_headed_exec(d, &ks, 1, "import").is_some()
}

pub(crate) fn import_desc_exec(d: &Doc, f: usize) -> (r: Option<usize>)
    requires
        doc_wf(d),
        f < d.tree@.len(),
    ensures
        r == import_desc(d.chars@, d.tree@, f as int),
        r matches Some(j) ==> j < d.tree@.len(),
{
    if head_is_exec(d, f, "import") {
        let ks = kids_exec(&d.tree, f, Ghost(d.chars@.len() as int));
        proof {
            lemma_kids_in(d, f as int);
        }
        find_desc_exec(d, &ks)
    } else {
        None
    }
}

fn import_of_exec(d: &Doc, f: usize, w: &str) -> (r: Option<usize>)
    requires
        doc_wf(d),
        f < d.tree@.len(),
    ensures
        r == import_of(d.chars@, d.tree@, f as int, w@),
        r matches Some(j) ==> j < d.tree@.len(),
{
    match import_desc_exec(d, f) {
        Some(dn) => {
            if head_is_exec(d, dn, w) {
                Some(dn)
            } else {
                None
            }
        },
        None => {
            if head_is_exec(d, f, w) && has_import_exec(d, f) {
                Some(f)
            } else {
                None
            }
        },
    }
}

fn defines_exec(d: &Doc, f: usize, w: &str) -> (b: bool)
    requires
        doc_wf(d),
        f < d.tree@.len(),
    ensures
        b == defines(d.chars@, d.tree@, f as int, w@),
{
    head_is_exec(d, f, w) && !has_import_exec(d, f)
}


/// The entities that fields `fs` import, each kind numbered from 0.
pub struct Imports {
    pub functions: Vec<Function>,
    pub globals: Vec<Global>,
    pub tables: Vec<Table>,
    pub memories: Vec<Memory>,
    pub tags: Vec<Tag>,
}

fn imports_exec(d: &Doc, fs: &Vec<usize>, types: &Vec<TypeDef>) -> (r: Imports)
    requires
        doc_wf(d),
        nodes_in(d, fs@),
    ensures
        r.functions.deep_view() == import_funcs(d.chars@, d.tree@, fs@, types.deep_view()),
        r.globals.deep_view() == import_globals(d.chars@, d.tree@, fs@),
        r.tables.deep_view() == import_tables(d.chars@, d.tree@, fs@),
        r.memories.deep_view() == import_memories(d.chars@, d.tree@, fs@),
        r.tags.deep_view() == import_tags(d.chars@, d.tree@, fs@),
{
    let ghost s = d.chars@;
    let ghost t = d.tree@;
    let ghost tv = types.deep_view();
    let mut functions: Vec<Function> = Vec::new();
    let mut globals: Vec<Global> = Vec::new();
    let mut tables: Vec<Table> = Vec::new();
    let mut memories: Vec<Memory> = Vec::new();
    let mut tags: Vec<Tag> = Vec::new();
    let mut i: usize = 0;
    assert(functions.deep_view() =~= Seq::<FunctionModel>::empty());
    assert(globals.deep_view() =~= Seq::<GlobalModel>::empty());
    assert(tables.deep_view() =~= Seq::<TableModel>::empty());
    assert(memories.deep_view() =~= Seq::<MemoryModel>::empty());
    assert(tags.deep_view() =~= Seq::<TagModel>::empty());
    while i < fs.len()
        invariant
            doc_wf(d),
            nodes_in(d, fs@),
            s == d.chars@,
            t == d.tree@,
            tv == types.deep_view(),
            i <= fs@.len(),
            functions.deep_view() == import_funcs(s, t, fs@.take(i as int), tv),
            globals.deep_view() == import_globals(s, t, fs@.take(i as int)),
            tables.deep_view() == import_tables(s, t, fs@.take(i as int)),
            memories.deep_view() == import_memories(s, t, fs@.take(i as int)),
            tags.deep_view() == import_tags(s, t, fs@.take(i as int)),
        decreases fs@.len() - i,
    {
        assert(fs@.take(i + 1).drop_last() =~= fs@.take(i as int));
        assert(fs@.take(i + 1).last() == fs@[i as int]);
        assert(fs@[i as int] < d.tree@.len());
        let f = fs[i];
        match import_of_exec(d, f, "func") {
            Some(k) => {
                let index = functions.len();
                let m = func_exec(d, k, index, types, &functions, false);
                push_dv(&mut functions, m);
            },
            None => {},
        }
        match import_of_exec(d, f, "global") {
            Some(k) => {
                let index = globals.len();
                push_dv(&mut globals, global_exec(d, k, index));
            },
            None => {},
        }
        match import_of_exec(d, f, "table") {
            Some(k) => {
                let index = tables.len();
                push_dv(&mut tables, table_exec(d, k, index));
            },
            None => {},
        }
        match import_of_exec(d, f, "memory") {
            Some(k) => {
                let index = memories.len();
                push_dv(&mut memories, memory_exec(d, k, index, k != f));
            },
            None => {},
        }
        match import_of_exec(d, f, "tag") {
            Some(k) => {
                let index = tags.len();
                push_dv(&mut tags, tag_exec(d, k, index));
            },
            None => {},
        }
        i = i + 1;
    }
    assert(fs@.take(i as int) =~= fs@);
    Imports { functions, globals, tables, memories, tags }
}

/// Appends the globals, tables, memories and tags that fields `fs` define.
fn definitions_exec(d: &Doc, fs: &Vec<usize>, im: &mut Imports)
    requires
        doc_wf(d),
        nodes_in(d, fs@),
    ensures
        final(im).functions == old(im).functions,
        final(im).globals.deep_view() == defined_globals(d.chars@, d.tree@, fs@, old(im).globals.deep_view()),
        final(im).tables.deep_view() == defined_tables(d.chars@, d.tree@, fs@, old(im).tables.deep_view()),
        final(im).memories.deep_view() == defined_memories(d.chars@, d.tree@, fs@, old(im).memories.deep_view()),
        final(im).tags.deep_view() == defined_tags(d.chars@, d.tree@, fs@, old(im).tags.deep_view()),
{
    let ghost s = d.chars@;
    let ghost t = d.tree@;
    let ghost g0 = im.globals.deep_view();
    let ghost t0 = im.tables.deep_view();
    let ghost m0 = im.memories.deep_view();
    let ghost a0 = im.tags.deep_view();
    let ghost f0 = im.functions;
    let mut i: usize = 0;
    while i < fs.len()
        invariant
            doc_wf(d),
            nodes_in(d, fs@),
            s == d.chars@,
            t == d.tree@,
            i <= fs@.len(),
            im.functions == f0,
            im.globals.deep_view() == defined_globals(s, t, fs@.take(i as int), g0),
            im.tables.deep_view() == defined_tables(s, t, fs@.take(i as int), t0),
            im.memories.deep_view() == defined_memories(s, t, fs@.take(i as int), m0),
            im.tags.deep_view() == defined_tags(s, t, fs@.take(i as int), a0),
        decreases fs@.len() - i,
    {
        assert(fs@.take(i + 1).drop_last() =~= fs@.take(i as int));
        assert(fs@.take(i + 1).last() == fs@[i as int]);
        assert(fs@[i as int] < d.tree@.len());
        let f = fs[i];
        if defines_exec(d, f, "global") {
            let index = im.globals.len();
            push_dv(&mut im.globals, global_exec(d, f, index));
        }
        if defines_exec(d, f, "table") {
            let index = im.tables.len();
            push_dv(&mut im.tables, table_exec(d, f, index));
        }
        if defines_exec(d, f, "memory") {
            let index = im.memories.len();
            push_dv(&mut im.memories, memory_exec(d, f, index, false));
        }
        if defines_exec(d, f, "tag") {
            let index = im.tags.len();
            push_dv(&mut im.tags, tag_exec(d, f, index));
        }
        i = i + 1;
    }
    assert(fs@.take(i as int) =~= fs@);
}

fn name_taken_exec(a: &Vec<Function>, from: usize, n: &Option<String>) -> (r: bool)
    ensures
        r == name_taken(a.deep_view(), from as int, text::opt_view(*n)),
{
    match n {
        None => {
            assert(!name_taken(a.deep_view(), from as int, text::opt_view(*n)));
            false
        },
        Some(x) => {
            assert(text::opt_view(*n) == Some(x@));
            let xc = text::chars_of(x.as_str());
            let mut i = from;
            while i < a.len()
                invariant
                    from <= i,
                    xc@ == x@,
                    text::opt_view(*n) == Some(x@),
                    forall|j: int| from <= j < i && j < a@.len() ==> #[trigger] a.deep_view()[j].name != Some(x@),
                decreases a@.len() - i,
            {
                assert(a.deep_view()[i as int].name == text::opt_view(a@[i as int].name));
                assert(a.deep_view().len() == a@.len());
                if opt_chars_eq(&a[i].name, &xc) {
                    assert(a.deep_view()[i as int].name == Some(x@));
                    assert(name_taken(a.deep_view(), from as int, text::opt_view(*n)));
                    return true;
                }
                i = i + 1;
            }
            assert(a.deep_view().len() == a@.len());
            assert(!(exists|j: int| from <= j < a.deep_view().len() && #[trigger] a.deep_view()[j].name == Some(x@)));
            assert(!name_taken(a.deep_view(), from as int, text::opt_view(*n)));
            false
        },
    }
}

/// Appends the functions that fields `fs` define.
fn defined_funcs_exec(d: &Doc, fs: &Vec<usize>, types: &Vec<TypeDef>, funcs: &mut Vec<Function>)
    requires
        doc_wf(d),
        nodes_in(d, fs@),
    ensures
        final(funcs).deep_view() == defined_funcs(d.chars@, d.tree@, fs@, types.deep_view(), old(funcs).deep_view()),
{
    let ghost s = d.chars@;
    let ghost t = d.tree@;
    let ghost init = funcs.deep_view();
    let n_imp = funcs.len();
    let mut i: usize = 0;
    while i < fs.len()
        invariant
            doc_wf(d),
            nodes_in(d, fs@),
            s == d.chars@,
            t == d.tree@,
            i <= fs@.len(),
            n_imp == init.len(),
            funcs.deep_view() == defined_funcs(s, t, fs@.take(i as int), types.deep_view(), init),
        decreases fs@.len() - i,
    {
        assert(fs@.take(i + 1).drop_last() =~= fs@.take(i as int));
        assert(fs@.take(i + 1).last() == fs@[i as int]);
        assert(fs@[i as int] < d.tree@.len());
        let f = fs[i];
        if defines_exec(d, f, "func") {
            let index = funcs.len();
            let m = func_exec(d, f, index, types, funcs, true);
            if !name_taken_exec(funcs, n_imp, &m.name) {
                push_dv(funcs, m);
            }
        }
        i = i + 1;
    }
    assert(fs@.take(i as int) =~= fs@);
}


/// Scans the text of a data segment: the characters inside string literals
/// form the content (an escape keeps its backslash), and every content
/// character but a backslash counts towards the byte length. The last two
/// components track whether the scan is inside a string and after a backslash.
pub open spec fn data_scan(cs: Seq<char>) -> (Seq<char>, nat, bool, bool)
    decreases cs.len(),
{
    if cs.len() == 0 {
        (Seq::empty(), 0, false, false)
    } else {
        let st = data_scan(cs.drop_last());
        let c = cs.last();
        if st.3 {
            (st.0.push(c), st.1 + 1, st.2, false)
        } else if c == '\\' && st.2 {
            (st.0.push(c), st.1, st.2, true)
        } else if c == '"' {
            (st.0, st.1, !st.2, false)
        } else if st.2 {
            (st.0.push(c), st.1 + 1, st.2, false)
        } else {
            (st.0, st.1, st.2, false)
        }
    }
}

pub open spec fn data_model(s: Seq<char>, t: Seq<SyntaxNode>, k: int, index: int) -> DataModel {
    let sc = data_scan(syntax::text_of(s, t[k]));
    DataModel {
        name: id_name(s, t, syntax::name_node(t, k)),
        index: index as usize,
        content: sc.0,
        byte_length: sc.1 as usize,
        line: line_of(s, t[k]),
        range: id_range(s, t, syntax::name_node(t, k)),
    }
}

/// A character that continues a `$name` in an element segment.
pub open spec fn name_char(c: char) -> bool {
    text::unicode_alphanumeric(c) || c == '_' || c == '-'
}

pub open spec fn name_end(r: Seq<char>, i: int) -> int
    decreases r.len() - i,
{
    if 0 <= i < r.len() && name_char(r[i]) {
        name_end(r, i + 1)
    } else {
        i
    }
}

pub open spec fn next_char(r: Seq<char>, c: char, i: int) -> int
    decreases r.len() - i,
{
    if 0 <= i < r.len() && r[i] != c {
        next_char(r, c, i + 1)
    } else {
        i
    }
}

pub proof fn lemma_name_end(r: Seq<char>, i: int)
    requires
        0 <= i <= r.len(),
    ensures
        i <= name_end(r, i) <= r.len(),
    decreases r.len() - i,
{
    if i < r.len() && name_char(r[i]) {
        lemma_name_end(r, i + 1);
    }
}

pub proof fn lemma_next_char(r: Seq<char>, c: char, i: int)
    requires
        0 <= i <= r.len(),
    ensures
        i <= next_char(r, c, i) <= r.len(),
    decreases r.len() - i,
{
    if i < r.len() && r[i] != c {
        lemma_next_char(r, c, i + 1);
    }
}

/// The `$names` in `r` from position `i`: each `$` with the name characters
/// after it.
pub open spec fn dollar_names(r: Seq<char>, i: int) -> Seq<Seq<char>>
    decreases r.len() - i,
{
    if i < 0 || i >= r.len() {
        Seq::empty()
    } else {
        let p = next_char(r, '$', i);
        proof {
            lemma_next_char(r, '$', i);
        }
        if p >= r.len() {
            Seq::empty()
        } else {
            let e = name_end(r, p + 1);
            proof {
                lemma_name_end(r, p + 1);
            }
            seq![r.subrange(p, e)] + dollar_names(r, e)
        }
    }
}

/// The function names of an element segment: the `$names` after ` func `.
pub open spec fn elem_names(w: Seq<char>) -> Seq<Seq<char>> {
    match text::find_first(w, " func "@) {
        Some(p) => dollar_names(w, p + 6),
        None => Seq::empty(),
    }
}

pub open spec fn elem_model(s: Seq<char>, t: Seq<SyntaxNode>, k: int, index: int) -> ElemModel {
    ElemModel {
        name: id_name(s, t, syntax::name_node(t, k)),
        index: index as usize,
        func_names: elem_names(syntax::text_of(s, t[k])),
        line: line_of(s, t[k]),
        range: id_range(s, t, syntax::name_node(t, k)),
    }
}

pub open spec fn data_fold(s: Seq<char>, t: Seq<SyntaxNode>, fs: Seq<usize>) -> Seq<DataModel>
    decreases fs.len(),
{
    if fs.len() == 0 {
        Seq::empty()
    } else {
        let a = data_fold(s, t, fs.drop_last());
        if syntax::head_is(s, t, fs.last() as int, "data"@) {
            a.push(data_model(s, t, fs.last() as int, a.len() as int))
        } else {
            a
        }
    }
}

pub open spec fn elem_fold(s: Seq<char>, t: Seq<SyntaxNode>, fs: Seq<usize>) -> Seq<ElemModel>
    decreases fs.len(),
{
    if fs.len() == 0 {
        Seq::empty()
    } else {
        let a = elem_fold(s, t, fs.drop_last());
        if syntax::head_is(s, t, fs.last() as int, "elem"@) {
            a.push(elem_model(s, t, fs.last() as int, a.len() as int))
        } else {
            a
        }
    }
}

fn data_exec(d: &Doc, k: usize, index: usize) -> (r: DataSegment)
    requires
        doc_wf(d),
        k < d.tree@.len(),
    ensures
        r.deep_view() == data_model(d.chars@, d.tree@, k as int, index as int),
{
    let cs = node_chars(d, k);
    let mut content: Vec<char> = Vec::new();
    let mut n: usize = 0;
    let mut in_string = false;
    let mut escape = false;
    let mut i: usize = 0;
    assert(cs@.take(0) =~= Seq::<char>::empty());
    while i < cs.len()
        invariant
            i <= cs@.len(),
            n <= i,
            (content@, n as nat, in_string, escape) == data_scan(cs@.take(i as int)),
        decreases cs@.len() - i,
    {
        assert(cs@.take(i + 1).drop_last() =~= cs@.take(i as int));
        assert(cs@.take(i + 1).last() == cs@[i as int]);
        let c = cs[i];
        if escape {
            content.push(c);
            n = n + 1;
            escape = false;
        } else if c == '\\' && in_string {
            content.push(c);
            escape = true;
        } else if c == '"' {
            in_string = !in_string;
        } else if in_string {
            content.push(c);
            n = n + 1;
        }
        i = i + 1;
    }
    assert(cs@.take(i as int) =~= cs@);
    let id = name_node_exec(d, k);
    let (name, range) = id_name_exec(d, id);
    DataSegment {
        name,
        index,
        content: text::string_from_chars(content.as_slice()),
        byte_length: n,
        line: line_exec(d, k),
        range,
    }
}

fn dollar_names_exec(r: &Vec<char>, from: usize) -> (names: Vec<String>)
    requires
        from <= r@.len(),
    ensures
        names.deep_view() == dollar_names(r@, from as int),
{
    let mut names: Vec<String> = Vec::new();
    let mut i = from;
    let n = r.len();
    assert(names.deep_view() + dollar_names(r@, i as int) =~= dollar_names(r@, from as int));
    while i < n
        invariant
            n == r@.len(),
            from <= i <= n,
            names.deep_view() + dollar_names(r@, i as int) == dollar_names(r@, from as int),
        decreases n - i,
    {
        let mut p = i;
        while p < n && r[p] != '$'
            invariant
                n == r@.len(),
                i <= p <= n,
                next_char(r@, '$', i as int) == next_char(r@, '$', p as int),
            decreases n - p,
        {
            p = p + 1;
        }
        if p >= n {
            assert(dollar_names(r@, i as int) =~= Seq::<Seq<char>>::empty());
            assert(names.deep_view() + Seq::<Seq<char>>::empty() =~= names.deep_view());
            return names;
        }
        let mut e = p + 1;
        while e < n && (text::is_alphanumeric(r[e]) || r[e] == '_' || r[e] == '-')
            invariant
                n == r@.len(),
                p < e <= n,
                name_end(r@, p + 1) == name_end(r@, e as int),
            decreases n - e,
        {
            e = e + 1;
        }
        let nm = text::sub_chars(r.as_slice(), p, e);
        let ghost old_names = names.deep_view();
        push_dv(&mut names, text::string_from_chars(nm.as_slice()));
        proof {
            assert(dollar_names(r@, i as int) == seq![r@.subrange(p as int, e as int)] + dollar_names(r@, e as int));
            assert(names.deep_view() + dollar_names(r@, e as int) =~= old_names + dollar_names(r@, i as int));
        }
        i = e;
    }
    assert(dollar_names(r@, i as int) =~= Seq::<Seq<char>>::empty());
    assert(names.deep_view() + Seq::<Seq<char>>::empty() =~= names.deep_view());
    names
}

fn elem_exec(d: &Doc, k: usize, index: usize) -> (r: ElemSegment)
    requires
        doc_wf(d),
        k < d.tree@.len(),
    ensures
        r.deep_view() == elem_model(d.chars@, d.tree@, k as int, index as int),
{
    let cs = node_chars(d, k);
    let pat = text::chars_of(" func ");
    let func_names = match text::find_first_exec(cs.as_slice(), pat.as_slice()) {
        Some(p) => {
            proof {
                text::lemma_find_first_bound(cs@, pat@);
                reveal_strlit(" func ");
            }
            dollar_names_exec(&cs, p + 6)
        },
        None => Vec::new(),
    };
    proof {
        if text::find_first(cs@, pat@) is None {
            assert(func_names.deep_view() =~= Seq::<Seq<char>>::empty());
        }
    }
    let id = name_node_exec(d, k);
    let (name, range) = id_name_exec(d, id);
    ElemSegment { name, index, func_names, line: line_exec(d, k), range }
}


/// The symbol table of the module fields `fs`: types first, then every kind
/// with its imports ahead of its definitions, each kind numbered from 0.
pub open spec fn symbols_of(s: Seq<char>, t: Seq<SyntaxNode>, fs: Seq<usize>) -> SymbolTableModel {
    let types = types_fold(s, t, fs);
    let imported = import_funcs(s, t, fs, types);
    SymbolTableModel {
        functions: defined_funcs(s, t, fs, types, imported),
        globals: defined_globals(s, t, fs, import_globals(s, t, fs)),
        tables: defined_tables(s, t, fs, import_tables(s, t, fs)),
        memories: defined_memories(s, t, fs, import_memories(s, t, fs)),
        types,
        tags: defined_tags(s, t, fs, import_tags(s, t, fs)),
        data_segments: data_fold(s, t, fs),
        elem_segments: elem_fold(s, t, fs),
    }
}

/// The lists among `ks`.
pub open spec fn lists_in(t: Seq<SyntaxNode>, ks: Seq<usize>) -> Seq<usize>
    decreases ks.len(),
{
    if ks.len() == 0 {
        Seq::empty()
    } else {
        lists_in(t, ks.drop_last()) + if t[ks.last() as int].kind == NodeKind::List {
            seq![ks.last()]
        } else {
            Seq::<usize>::empty()
        }
    }
}

/// The module fields of a document from its top-level nodes `ks`: the lists
/// inside each `(module ...)`, and the top-level lists outside any module.
pub open spec fn fields_in_root(s: Seq<char>, t: Seq<SyntaxNode>, ks: Seq<usize>) -> Seq<usize>
    decreases ks.len(),
{
    if ks.len() == 0 {
        Seq::empty()
    } else {
        let c = ks.last() as int;
        fields_in_root(s, t, ks.drop_last()) + if syntax::head_is(s, t, c, "module"@) {
            lists_in(t, syntax::kids(t, c))
        } else if t[c].kind == NodeKind::List {
            seq![c as usize]
        } else {
            Seq::<usize>::empty()
        }
    }
}

/// The `(module ...)` lists among `ks`.
pub open spec fn modules_in(s: Seq<char>, t: Seq<SyntaxNode>, ks: Seq<usize>) -> Seq<usize>
    decreases ks.len(),
{
    if ks.len() == 0 {
        Seq::empty()
    } else {
        modules_in(s, t, ks.drop_last()) + if syntax::head_is(s, t, ks.last() as int, "module"@) {
            seq![ks.last()]
        } else {
            Seq::<usize>::empty()
        }
    }
}

/// The symbols of a whole document, all modules together.
pub open spec fn document_symbols(s: Seq<char>) -> SymbolTableModel {
    let t = syntax::tree_of(s);
    symbols_of(s, t, fields_in_root(s, t, syntax::kids(t, 0)))
}

/// One module of a document: its symbols and its range.
pub struct ModuleInfo {
    pub symbols: SymbolTable,
    pub range: crate::types::Range,
}

pub struct ModuleInfoModel {
    pub symbols: SymbolTableModel,
    pub range: crate::types::Range,
}

impl DeepView for ModuleInfo {
    type V = ModuleInfoModel;

    open spec fn deep_view(&self) -> ModuleInfoModel {
        ModuleInfoModel { symbols: self.symbols.deep_view(), range: self.range }
    }
}

/// The modules of a document, each with its own symbols; a document without
/// `(module ...)` lists is one module made of its top-level fields.
pub open spec fn document_modules(s: Seq<char>) -> Seq<ModuleInfoModel> {
    let t = syntax::tree_of(s);
    let ms = modules_in(s, t, syntax::kids(t, 0));
    if ms.len() == 0 {
        seq![ModuleInfoModel { symbols: document_symbols(s), range: range_of(s, t[0]) }]
    } else {
        Seq::new(
            ms.len(),
            |i: int|
                ModuleInfoModel {
                    symbols: symbols_of(s, t, lists_in(t, syntax::kids(t, ms[i] as int))),
                    range: range_of(s, t[ms[i] as int]),
                },
        )
    }
}

fn symbols_exec(d: &Doc, fs: &Vec<usize>) -> (r: SymbolTable)
    requires
        doc_wf(d),
        nodes_in(d, fs@),
    ensures
        r.deep_view() == symbols_of(d.chars@, d.tree@, fs@),
{
    let types = types_exec(d, fs);
    let mut im = imports_exec(d, fs, &types);
    definitions_exec(d, fs, &mut im);
    let mut functions = im.functions;
    defined_funcs_exec(d, fs, &types, &mut functions);
    let mut data_segments: Vec<DataSegment> = Vec::new();
    let mut elem_segments: Vec<ElemSegment> = Vec::new();
    let mut i: usize = 0;
    assert(data_segments.deep_view() =~= Seq::<DataModel>::empty());
    assert(elem_segments.deep_view() =~= Seq::<ElemModel>::empty());
    while i < fs.len()
        invariant
            doc_wf(d),
            nodes_in(d, fs@),
            i <= fs@.len(),
            data_segments.deep_view() == data_fold(d.chars@, d.tree@, fs@.take(i as int)),
            elem_segments.deep_view() == elem_fold(d.chars@, d.tree@, fs@.take(i as int)),
        decreases fs@.len() - i,
    {
        assert(fs@.take(i + 1).drop_last() =~= fs@.take(i as int));
        assert(fs@.take(i + 1).last() == fs@[i as int]);
        assert(fs@[i as int] < d.tree@.len());
        let f = fs[i];
        if head_is_exec(d, f, "data") {
            let index = data_segments.len();
            push_dv(&mut data_segments, data_exec(d, f, index));
        }
        if head_is_exec(d, f, "elem") {
            let index = elem_segments.len();
            push_dv(&mut elem_segments, elem_exec(d, f, index));
        }
        i = i + 1;
    }
    assert(fs@.take(i as int) =~= fs@);
    SymbolTable {
        functions,
        globals: im.globals,
        tables: im.tables,
        memories: im.memories,
        types,
        tags: im.tags,
        data_segments,
        elem_segments,
    }
}

fn lists_exec(d: &Doc, ks: &Vec<usize>, out: &mut Vec<usize>)
    requires
        doc_wf(d),
        nodes_in(d, ks@),
        nodes_in(d, old(out)@),
    ensures
        final(out)@ == old(out)@ + lists_in(d.tree@, ks@),
        nodes_in(d, final(out)@),
{
    let ghost o0 = out@;
    let mut i: usize = 0;
    assert(o0 + lists_in(d.tree@, ks@.take(0)) =~= o0);
    while i < ks.len()
        invariant
            doc_wf(d),
            nodes_in(d, ks@),
            i <= ks@.len(),
            out@ == o0 + lists_in(d.tree@, ks@.take(i as int)),
            nodes_in(d, out@),
        decreases ks@.len() - i,
    {
        assert(ks@.take(i + 1).drop_last() =~= ks@.take(i as int));
        assert(ks@.take(i + 1).last() == ks@[i as int]);
        assert(ks@[i as int] < d.tree@.len());
        let ghost before = out@;
        if d.tree[ks[i]].kind == NodeKind::List {
            out.push(ks[i]);
            assert(out@ =~= o0 + lists_in(d.tree@, ks@.take(i + 1)));
        } else {
            assert(out@ =~= o0 + lists_in(d.tree@, ks@.take(i + 1)));
        }
        i = i + 1;
    }
    assert(ks@.take(i as int) =~= ks@);
}

/// The module fields of a document.
pub(crate) fn document_fields_exec(d: &Doc) -> (fs: Vec<usize>)
    requires
        doc_wf(d),
    ensures
        fs@ == fields_in_root(d.chars@, d.tree@, syntax::kids(d.tree@, 0)),
        nodes_in(d, fs@),
{
    let ks = kids_exec(&d.tree, 0, Ghost(d.chars@.len() as int));
    proof {
        lemma_kids_in(d, 0);
    }
    let mut fs: Vec<usize> = Vec::new();
    let mut i: usize = 0;
    while i < ks.len()
        invariant
            doc_wf(d),
            nodes_in(d, ks@),
            i <= ks@.len(),
            fs@ == fields_in_root(d.chars@, d.tree@, ks@.take(i as int)),
            nodes_in(d, fs@),
        decreases ks@.len() - i,
    {
        assert(ks@.take(i + 1).drop_last() =~= ks@.take(i as int));
        assert(ks@.take(i + 1).last() == ks@[i as int]);
        assert(ks@[i as int] < d.tree@.len());
        let c = ks[i];
        if head_is_exec(d, c, "module") {
            let mk = kids_exec(&d.tree, c, Ghost(d.chars@.len() as int));
            proof {
                lemma_kids_in(d, c as int);
            }
            lists_exec(d, &mk, &mut fs);
        } else if d.tree[c].kind == NodeKind::List {
            fs.push(c);
        } else {
            assert(fs@ + Seq::<usize>::empty() =~= fs@);
        }
        i = i + 1;
    }
    assert(ks@.take(i as int) =~= ks@);
    fs
}

/// Parses a WAT document and extracts the symbols of all its modules
/// together. Parsing recovers from malformed text, so it always succeeds.
pub fn parse_document(text: &str) -> (r: Result<SymbolTable, String>)
    requires
        text@.len() < usize::MAX,
    ensures
        r matches Ok(t) && t.deep_view() == document_symbols(text@),
{
    let d = read_doc(text);
    let fs = document_fields_exec(&d);
    Ok(symbols_exec(&d, &fs))
}

/// Parses a WAT or multi-module WAST document into one symbol table per
/// module, so that equal names in different modules do not clash.
pub fn parse_document_modules(text: &str) -> (r: Result<Vec<ModuleInfo>, String>)
    requires
        text@.len() < usize::MAX,
    ensures
        r matches Ok(ms) && ms.deep_view() == document_modules(text@),
{
    let d = read_doc(text);
    let ks = kids_exec(&d.tree, 0, Ghost(d.chars@.len() as int));
    proof {
        lemma_kids_in(&d, 0);
    }
    let ghost s = d.chars@;
    let ghost t = d.tree@;
    // The module lists.
    let mut ms: Vec<usize> = Vec::new();
    let mut i: usize = 0;
    while i < ks.len()
        invariant
            doc_wf(&d),
            s == d.chars@,
            t == d.tree@,
            nodes_in(&d, ks@),
            i <= ks@.len(),
            ms@ == modules_in(s, t, ks@.take(i as int)),
            nodes_in(&d, ms@),
        decreases ks@.len() - i,
    {
        assert(ks@.take(i + 1).drop_last() =~= ks@.take(i as int));
        assert(ks@.take(i + 1).last() == ks@[i as int]);
        assert(ks@[i as int] < d.tree@.len());
        if head_is_exec(&d, ks[i], "module") {
            ms.push(ks[i]);
        } else {
            assert(ms@ + Seq::<usize>::empty() =~= ms@);
        }
        i = i + 1;
    }
    assert(ks@.take(i as int) =~= ks@);
    let mut out: Vec<ModuleInfo> = Vec::new();
    if ms.len() == 0 {
        let fs = document_fields_exec(&d);
        let symbols = symbols_exec(&d, &fs);
        push_dv(&mut out, ModuleInfo { symbols, range: range_exec(&d, 0) });
        assert(out.deep_view() =~= document_modules(text@));
        return Ok(out);
    }
    let mut j: usize = 0;
    while j < ms.len()
        invariant
            doc_wf(&d),
            s == d.chars@,
            t == d.tree@,
            nodes_in(&d, ms@),
            j <= ms@.len(),
            out.deep_view() =~= Seq::new(
                j as nat,
                |i: int|
                    ModuleInfoModel {
                        symbols: symbols_of(s, t, lists_in(t, syntax::kids(t, ms@[i] as int))),
                        range: range_of(s, t[ms@[i] as int]),
                    },
            ),
        decreases ms@.len() - j,
    {
        assert(ms@[j as int] < d.tree@.len());
        let m = ms[j];
        let mk = kids_exec(&d.tree, m, Ghost(d.chars@.len() as int));
        proof {
            lemma_kids_in(&d, m as int);
        }
        let mut fs: Vec<usize> = Vec::new();
        lists_exec(&d, &mk, &mut fs);
        assert(fs@ =~= lists_in(t, syntax::kids(t, m as int)));
        let symbols = symbols_exec(&d, &fs);
        push_dv(&mut out, ModuleInfo { symbols, range: range_exec(&d, m) });
        j = j + 1;
    }
    Ok(out)
}

} // verus!

verus! {

/// Every entry's index is its position in the list.
pub open spec fn numbered(idx: Seq<usize>) -> bool {
    forall|i: int| 0 <= i < idx.len() ==> #[trigger] idx[i] == i as usize
}

proof fn lemma_import_funcs_numbered(s: Seq<char>, t: Seq<SyntaxNode>, fs: Seq<usize>, types: Seq<TypeDefModel>)
    ensures
        numbered(import_funcs(s, t, fs, types).map_values(|m: FunctionModel| m.index)),
    decreases fs.len(),
{
    if fs.len() > 0 {
        lemma_import_funcs_numbered(s, t, fs.drop_last(), types);
        let a = import_funcs(s, t, fs.drop_last(), types);
        assert(numbered(a.map_values(|m: FunctionModel| m.index)));
        let r = import_funcs(s, t, fs, types);
        let ri = r.map_values(|m: FunctionModel| m.index);
        let ai = a.map_values(|m: FunctionModel| m.index);
        assert forall|i: int| 0 <= i < ri.len() implies #[trigger] ri[i] == i as usize by {
            if i < a.len() {
                assert(ai[i] == i as usize);
            }
        }
    }
}

proof fn lemma_import_globals_numbered(s: Seq<char>, t: Seq<SyntaxNode>, fs: Seq<usize>)
    ensures
        numbered(import_globals(s, t, fs).map_values(|m: GlobalModel| m.index)),
    decreases fs.len(),
{
    if fs.len() > 0 {
        lemma_import_globals_numbered(s, t, fs.drop_last());
        let a = import_globals(s, t, fs.drop_last());
        assert(numbered(a.map_values(|m: GlobalModel| m.index)));
        let r = import_globals(s, t, fs);
        let ri = r.map_values(|m: GlobalModel| m.index);
        let ai = a.map_values(|m: GlobalModel| m.index);
        assert forall|i: int| 0 <= i < ri.len() implies #[trigger] ri[i] == i as usize by {
            if i < a.len() {
                assert(ai[i] == i as usize);
            }
        }
    }
}

proof fn lemma_import_tables_numbered(s: Seq<char>, t: Seq<SyntaxNode>, fs: Seq<usize>)
    ensures
        numbered(import_tables(s, t, fs).map_values(|m: TableModel| m.index)),
    decreases fs.len(),
{
    if fs.len() > 0 {
        lemma_import_tables_numbered(s, t, fs.drop_last());
        let a = import_tables(s, t, fs.drop_last());
        assert(numbered(a.map_values(|m: TableModel| m.index)));
        let r = import_tables(s, t, fs);
        let ri = r.map_values(|m: TableModel| m.index);
        let ai = a.map_values(|m: TableModel| m.index);
        assert forall|i: int| 0 <= i < ri.len() implies #[trigger] ri[i] == i as usize by {
            if i < a.len() {
                assert(ai[i] == i as usize);
            }
        }
    }
}

proof fn lemma_import_memories_numbered(s: Seq<char>, t: Seq<SyntaxNode>, fs: Seq<usize>)
    ensures
        numbered(import_memories(s, t, fs).map_values(|m: MemoryModel| m.index)),
    decreases fs.len(),
{
    if fs.len() > 0 {
        lemma_import_memories_numbered(s, t, fs.drop_last());
        let a = import_memories(s, t, fs.drop_last());
        assert(numbered(a.map_values(|m: MemoryModel| m.index)));
        let r = import_memories(s, t, fs);
        let ri = r.map_values(|m: MemoryModel| m.index);
        let ai = a.map_values(|m: MemoryModel| m.index);
        assert forall|i: int| 0 <= i < ri.len() implies #[trigger] ri[i] == i as usize by {
            if i < a.len() {
                assert(ai[i] == i as usize);
            }
        }
    }
}

proof fn lemma_import_tags_numbered(s: Seq<char>, t: Seq<SyntaxNode>, fs: Seq<usize>)
    ensures
        numbered(import_tags(s, t, fs).map_values(|m: TagModel| m.index)),
    decreases fs.len(),
{
    if fs.len() > 0 {
        lemma_import_tags_numbered(s, t, fs.drop_last());
        let a = import_tags(s, t, fs.drop_last());
        assert(numbered(a.map_values(|m: TagModel| m.index)));
        let r = import_tags(s, t, fs);
        let ri = r.map_values(|m: TagModel| m.index);
        let ai = a.map_values(|m: TagModel| m.index);
        assert forall|i: int| 0 <= i < ri.len() implies #[trigger] ri[i] == i as usize by {
            if i < a.len() {
                assert(ai[i] == i as usize);
            }
        }
    }
}

proof fn lemma_data_fold_numbered(s: Seq<char>, t: Seq<SyntaxNode>, fs: Seq<usize>)
    ensures
        numbered(data_fold(s, t, fs).map_values(|m: DataModel| m.index)),
    decreases fs.len(),
{
    if fs.len() > 0 {
        lemma_data_fold_numbered(s, t, fs.drop_last());
        let a = data_fold(s, t, fs.drop_last());
        assert(numbered(a.map_values(|m: DataModel| m.index)));
        let r = data_fold(s, t, fs);
        let ri = r.map_values(|m: DataModel| m.index);
        let ai = a.map_values(|m: DataModel| m.index);
        assert forall|i: int| 0 <= i < ri.len() implies #[trigger] ri[i] == i as usize by {
            if i < a.len() {
                assert(ai[i] == i as usize);
            }
        }
    }
}

proof fn lemma_elem_fold_numbered(s: Seq<char>, t: Seq<SyntaxNode>, fs: Seq<usize>)
    ensures
        numbered(elem_fold(s, t, fs).map_values(|m: ElemModel| m.index)),
    decreases fs.len(),
{
    if fs.len() > 0 {
        lemma_elem_fold_numbered(s, t, fs.drop_last());
        let a = elem_fold(s, t, fs.drop_last());
        assert(numbered(a.map_values(|m: ElemModel| m.index)));
        let r = elem_fold(s, t, fs);
        let ri = r.map_values(|m: ElemModel| m.index);
        let ai = a.map_values(|m: ElemModel| m.index);
        assert forall|i: int| 0 <= i < ri.len() implies #[trigger] ri[i] == i as usize by {
            if i < a.len() {
                assert(ai[i] == i as usize);
            }
        }
    }
}

proof fn lemma_defined_funcs_numbered(s: Seq<char>, t: Seq<SyntaxNode>, fs: Seq<usize>, types: Seq<TypeDefModel>, init: Seq<FunctionModel>)

    requires
        numbered(init.map_values(|m: FunctionModel| m.index)),
    ensures
        numbered(defined_funcs(s, t, fs, types, init).map_values(|m: FunctionModel| m.index)),
    decreases fs.len(),
{
    if fs.len() > 0 {
        lemma_defined_funcs_numbered(s, t, fs.drop_last(), types, init);
        let a = defined_funcs(s, t, fs.drop_last(), types, init);
        assert(numbered(a.map_values(|m: FunctionModel| m.index)));
        let r = defined_funcs(s, t, fs, types, init);
        let ri = r.map_values(|m: FunctionModel| m.index);
        let ai = a.map_values(|m: FunctionModel| m.index);
        assert forall|i: int| 0 <= i < ri.len() implies #[trigger] ri[i] == i as usize by {
            if i < a.len() {
                assert(ai[i] == i as usize);
            }
        }
    }
}

proof fn lemma_defined_globals_numbered(s: Seq<char>, t: Seq<SyntaxNode>, fs: Seq<usize>, init: Seq<GlobalModel>)

    requires
        numbered(init.map_values(|m: GlobalModel| m.index)),
    ensures
        numbered(defined_globals(s, t, fs, init).map_values(|m: GlobalModel| m.index)),
    decreases fs.len(),
{
    if fs.len() > 0 {
        lemma_defined_globals_numbered(s, t, fs.drop_last(), init);
        let a = defined_globals(s, t, fs.drop_last(), init);
        assert(numbered(a.map_values(|m: GlobalModel| m.index)));
        let r = defined_globals(s, t, fs, init);
        let ri = r.map_values(|m: GlobalModel| m.index);
        let ai = a.map_values(|m: GlobalModel| m.index);
        assert forall|i: int| 0 <= i < ri.len() implies #[trigger] ri[i] == i as usize by {
            if i < a.len() {
                assert(ai[i] == i as usize);
            }
        }
    }
}

proof fn lemma_defined_tables_numbered(s: Seq<char>, t: Seq<SyntaxNode>, fs: Seq<usize>, init: Seq<TableModel>)

    requires
        numbered(init.map_values(|m: TableModel| m.index)),
    ensures
        numbered(defined_tables(s, t, fs, init).map_values(|m: TableModel| m.index)),
    decreases fs.len(),
{
    if fs.len() > 0 {
        lemma_defined_tables_numbered(s, t, fs.drop_last(), init);
        let a = defined_tables(s, t, fs.drop_last(), init);
        assert(numbered(a.map_values(|m: TableModel| m.index)));
        let r = defined_tables(s, t, fs, init);
        let ri = r.map_values(|m: TableModel| m.index);
        let ai = a.map_values(|m: TableModel| m.index);
        assert forall|i: int| 0 <= i < ri.len() implies #[trigger] ri[i] == i as usize by {
            if i < a.len() {
                assert(ai[i] == i as usize);
            }
        }
    }
}

proof fn lemma_defined_memories_numbered(s: Seq<char>, t: Seq<SyntaxNode>, fs: Seq<usize>, init: Seq<MemoryModel>)

    requires
        numbered(init.map_values(|m: MemoryModel| m.index)),
    ensures
        numbered(defined_memories(s, t, fs, init).map_values(|m: MemoryModel| m.index)),
    decreases fs.len(),
{
    if fs.len() > 0 {
        lemma_defined_memories_numbered(s, t, fs.drop_last(), init);
        let a = defined_memories(s, t, fs.drop_last(), init);
        assert(numbered(a.map_values(|m: MemoryModel| m.index)));
        let r = defined_memories(s, t, fs, init);
        let ri = r.map_values(|m: MemoryModel| m.index);
        let ai = a.map_values(|m: MemoryModel| m.index);
        assert forall|i: int| 0 <= i < ri.len() implies #[trigger] ri[i] == i as usize by {
            if i < a.len() {
                assert(ai[i] == i as usize);
            }
        }
    }
}

proof fn lemma_defined_tags_numbered(s: Seq<char>, t: Seq<SyntaxNode>, fs: Seq<usize>, init: Seq<TagModel>)

    requires
        numbered(init.map_values(|m: TagModel| m.index)),
    ensures
        numbered(defined_tags(s, t, fs, init).map_values(|m: TagModel| m.index)),
    decreases fs.len(),
{
    if fs.len() > 0 {
        lemma_defined_tags_numbered(s, t, fs.drop_last(), init);
        let a = defined_tags(s, t, fs.drop_last(), init);
        assert(numbered(a.map_values(|m: TagModel| m.index)));
        let r = defined_tags(s, t, fs, init);
        let ri = r.map_values(|m: TagModel| m.index);
        let ai = a.map_values(|m: TagModel| m.index);
        assert forall|i: int| 0 <= i < ri.len() implies #[trigger] ri[i] == i as usize by {
            if i < a.len() {
                assert(ai[i] == i as usize);
            }
        }
    }
}

proof fn lemma_rec_fold_numbered(s: Seq<char>, t: Seq<SyntaxNode>, acc: Seq<TypeDefModel>, ks: Seq<usize>)
    requires
        numbered(acc.map_values(|m: TypeDefModel| m.index)),
    ensures
        numbered(rec_fold(s, t, acc, ks).map_values(|m: TypeDefModel| m.index)),
    decreases ks.len(),
{
    if ks.len() > 0 {
        lemma_rec_fold_numbered(s, t, acc, ks.drop_last());
        let a = rec_fold(s, t, acc, ks.drop_last());
        assert(numbered(a.map_values(|m: TypeDefModel| m.index)));
        let r = rec_fold(s, t, acc, ks);
        let ri = r.map_values(|m: TypeDefModel| m.index);
        let ai = a.map_values(|m: TypeDefModel| m.index);
        assert forall|i: int| 0 <= i < ri.len() implies #[trigger] ri[i] == i as usize by {
            if i < a.len() {
                assert(ai[i] == i as usize);
            }
        }
    }
}

proof fn lemma_types_fold_numbered(s: Seq<char>, t: Seq<SyntaxNode>, fs: Seq<usize>)
    ensures
        numbered(types_fold(s, t, fs).map_values(|m: TypeDefModel| m.index)),
    decreases fs.len(),
{
    if fs.len() > 0 {
        lemma_types_fold_numbered(s, t, fs.drop_last());
        let a = types_fold(s, t, fs.drop_last());
        assert(numbered(a.map_values(|m: TypeDefModel| m.index)));
        let f = fs.last() as int;
        if syntax::head_is(s, t, f, "type"@) {
            let r = types_fold(s, t, fs);
            let ri = r.map_values(|m: TypeDefModel| m.index);
            let ai = a.map_values(|m: TypeDefModel| m.index);
            assert forall|i: int| 0 <= i < ri.len() implies #[trigger] ri[i] == i as usize by {
                if i < a.len() {
                    assert(ai[i] == i as usize);
                }
            }
        } else if syntax::head_is(s, t, f, "rec"@) {
            lemma_rec_fold_numbered(s, t, a, syntax::kids(t, f));
        }
    }
}

/// In the symbol table of a module, every function, global, table, memory,
/// type, tag, data segment and element segment has its position in its
/// list as its index: imports first, then definitions, in source order.
pub proof fn law_symbols_numbered_in_order(s: Seq<char>, t: Seq<SyntaxNode>, fs: Seq<usize>)
    ensures
        numbered(symbols_of(s, t, fs).functions.map_values(|m: FunctionModel| m.index)),
        numbered(symbols_of(s, t, fs).globals.map_values(|m: GlobalModel| m.index)),
        numbered(symbols_of(s, t, fs).tables.map_values(|m: TableModel| m.index)),
        numbered(symbols_of(s, t, fs).memories.map_values(|m: MemoryModel| m.index)),
        numbered(symbols_of(s, t, fs).types.map_values(|m: TypeDefModel| m.index)),
        numbered(symbols_of(s, t, fs).tags.map_values(|m: TagModel| m.index)),
        numbered(symbols_of(s, t, fs).data_segments.map_values(|m: DataModel| m.index)),
        numbered(symbols_of(s, t, fs).elem_segments.map_values(|m: ElemModel| m.index)),
{
    let types = types_fold(s, t, fs);
    lemma_types_fold_numbered(s, t, fs);
    lemma_import_funcs_numbered(s, t, fs, types);
    lemma_defined_funcs_numbered(s, t, fs, types, import_funcs(s, t, fs, types));
    lemma_import_globals_numbered(s, t, fs);
    lemma_defined_globals_numbered(s, t, fs, import_globals(s, t, fs));
    lemma_import_tables_numbered(s, t, fs);
    lemma_defined_tables_numbered(s, t, fs, import_tables(s, t, fs));
    lemma_import_memories_numbered(s, t, fs);
    lemma_defined_memories_numbered(s, t, fs, import_memories(s, t, fs));
    lemma_import_tags_numbered(s, t, fs);
    lemma_defined_tags_numbered(s, t, fs, import_tags(s, t, fs));
    lemma_data_fold_numbered(s, t, fs);
    lemma_elem_fold_numbered(s, t, fs);
}

/// The symbols that `parse_document` gives have their positions as indices.
pub proof fn law_parsed_indices_are_positions(s: Seq<char>)
    ensures
        numbered(document_symbols(s).functions.map_values(|m: FunctionModel| m.index)),
        numbered(document_symbols(s).globals.map_values(|m: GlobalModel| m.index)),
        numbered(document_symbols(s).tables.map_values(|m: TableModel| m.index)),
        numbered(document_symbols(s).memories.map_values(|m: MemoryModel| m.index)),
        numbered(document_symbols(s).types.map_values(|m: TypeDefModel| m.index)),
        numbered(document_symbols(s).tags.map_values(|m: TagModel| m.index)),
        numbered(document_symbols(s).data_segments.map_values(|m: DataModel| m.index)),
        numbered(document_symbols(s).elem_segments.map_values(|m: ElemModel| m.index)),
{
    let t = syntax::tree_of(s);
    law_symbols_numbered_in_order(s, t, fields_in_root(s, t, syntax::kids(t, 0)));
}


proof fn lemma_defined_funcs_shape(s: Seq<char>, t: Seq<SyntaxNode>, fs: Seq<usize>, types: Seq<TypeDefModel>, init: Seq<FunctionModel>)
    ensures
        ({
            let r = defined_funcs(s, t, fs, types, init);
            &&& r.len() >= init.len()
            &&& r.subrange(0, init.len() as int) == init
            &&& forall|i: int, j: int|
                init.len() <= i < j < r.len() && (#[trigger] r[i]).name is Some ==> r[i].name != (#[trigger] r[j]).name
        }),
    decreases fs.len(),
{
    if fs.len() == 0 {
        assert(init.subrange(0, init.len() as int) =~= init);
    } else {
        lemma_defined_funcs_shape(s, t, fs.drop_last(), types, init);
        let a = defined_funcs(s, t, fs.drop_last(), types, init);
        let r = defined_funcs(s, t, fs, types, init);
        let f = fs.last() as int;
        if defines(s, t, f, "func"@) {
            let m = func_model(s, t, f, a.len() as int, types, a, true);
            if !name_taken(a, init.len() as int, m.name) {
                assert(r == a.push(m));
                assert(r.subrange(0, init.len() as int) =~= a.subrange(0, init.len() as int));
                assert forall|i: int, j: int|
                    init.len() <= i < j < r.len() && (#[trigger] r[i]).name is Some implies r[i].name != (
                    #[trigger] r[j]).name by {
                    assert(r[i] == a[i]);
                    if j < a.len() {
                        assert(r[j] == a[j]);
                    } else if r[i].name == r[j].name {
                        assert(r[j] == m);
                        assert(a[i].name == m.name);
                        assert(name_taken(a, init.len() as int, m.name));
                    }
                }
            }
        }
    }
}

/// The functions of a document list its imported functions first, in
/// order, then the functions it defines; no two defined functions share a
/// name (a later function reusing a name is left out).
pub proof fn law_functions_imports_first(s: Seq<char>)
    ensures
        ({
            let t = syntax::tree_of(s);
            let fs = fields_in_root(s, t, syntax::kids(t, 0));
            let imported = import_funcs(s, t, fs, types_fold(s, t, fs));
            let funcs = document_symbols(s).functions;
            &&& funcs.len() >= imported.len()
            &&& funcs.subrange(0, imported.len() as int) == imported
            &&& forall|i: int, j: int|
                imported.len() <= i < j < funcs.len() && (#[trigger] funcs[i]).name is Some ==> funcs[i].name != (
                #[trigger] funcs[j]).name
        }),
{
    let t = syntax::tree_of(s);
    let fs = fields_in_root(s, t, syntax::kids(t, 0));
    let types = types_fold(s, t, fs);
    lemma_defined_funcs_shape(s, t, fs, types, import_funcs(s, t, fs, types));
}

} // verus!
