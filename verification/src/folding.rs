//! Folding ranges: functions that span several lines, and the multi-line
//! module fields, blocks, type definitions and comments of the syntax tree,
//! sorted by their lines with repeats left out.
use vstd::prelude::*;
use crate::parser;
use crate::parser::{doc_wf, Doc};
use crate::references::{block_end, block_end_exec, head_node, is_comment_exec, is_folded, is_folded_exec, next_child_exec};
use crate::semantic_tokens::{block_word_exec, is_field, is_field_exec};
use crate::symbols::{Function, SymbolTable};
use crate::syntax;
use crate::syntax::{NodeKind, SyntaxNode};
use crate::text;

verus! {

/// What a folding range folds.
#[derive(Clone, Copy, Debug, PartialEq, Eq, Structural)]
pub enum FoldingRangeKind {
    Region,
    Comment,
}

/// A folding range: the lines it spans and what it folds.
#[derive(Clone, Copy, Debug, PartialEq, Eq, Structural)]
pub struct FoldingRangeResult {
    pub start_line: u32,
    pub end_line: u32,
    pub kind: FoldingRangeKind,
}

/// The folding ranges of the functions that span several lines, in order.
pub open spec fn function_folds(fs: Seq<Function>) -> Seq<FoldingRangeResult>
    decreases fs.len(),
{
    if fs.len() == 0 {
        Seq::empty()
    } else {
        let r = function_folds(fs.drop_last());
        let f = fs.last();
        if f.end_line > f.line {
            r.push(FoldingRangeResult { start_line: f.line, end_line: f.end_line, kind: FoldingRangeKind::Region })
        } else {
            r
        }
    }
}

/// The keyword that heads list `k`, if any.
pub open spec fn head_word(s: Seq<char>, t: Seq<SyntaxNode>, k: int) -> Option<Seq<char>> {
    if t[k].kind == NodeKind::List {
        match head_node(t, k) {
            Some(h) => if t[h].kind == NodeKind::Keyword {
                Some(syntax::text_of(s, t[h]))
            } else {
                None
            },
            None => None,
        }
    } else {
        None
    }
}

/// Module fields that fold (functions fold by their symbols).
pub open spec fn field_word(w: Seq<char>) -> bool {
    ||| w == "type"@ || w == "global"@ || w == "table"@ || w == "memory"@ || w == "import"@
    ||| w == "export"@ || w == "data"@ || w == "elem"@ || w == "tag"@ || w == "start"@ || w == "rec"@
}

/// List `k` is a foldable form: a module field, a folded block, a type
/// definition in a recursion group, or the struct, array or function type
/// of a type definition.
pub open spec fn foldable_list(s: Seq<char>, t: Seq<SyntaxNode>, k: int) -> bool {
    let up = head_word(s, t, t[k].parent as int);
    match head_word(s, t, k) {
        Some(w) => {
            ||| is_field(s, t, k) && field_word(w)
            ||| parser::block_word(w)
            ||| w == "struct"@ || w == "array"@
            ||| w == "type"@ && up == Some("rec"@)
            ||| w == "func"@ && (up == Some("type"@) || up == Some("sub"@))
        },
        None => false,
    }
}

/// The line of character index `i`.
pub open spec fn line_of_index(s: Seq<char>, i: int) -> u32 {
    syntax::row_at(s, i) as u32
}

/// The range from character `a` to character `b`, when it spans several
/// lines.
pub open spec fn span_fold(s: Seq<char>, a: int, b: int, kind: FoldingRangeKind) -> Option<FoldingRangeResult> {
    if line_of_index(s, b) > line_of_index(s, a) {
        Some(FoldingRangeResult { start_line: line_of_index(s, a), end_line: line_of_index(s, b), kind })
    } else {
        None
    }
}

/// The folding range of node `k`: a comment, a foldable list, or a flat
/// block from its keyword to its `end`, when it spans several lines.
pub open spec fn node_fold(s: Seq<char>, t: Seq<SyntaxNode>, k: int) -> Option<FoldingRangeResult> {
    if syntax::is_comment(t[k].kind) {
        span_fold(s, t[k].start as int, t[k].end as int, FoldingRangeKind::Comment)
    } else if foldable_list(s, t, k) {
        span_fold(s, t[k].start as int, t[k].end as int, FoldingRangeKind::Region)
    } else if t[k].kind == NodeKind::Keyword && parser::block_word(syntax::text_of(s, t[k])) && !is_folded(t, k) {
        span_fold(s, t[k].start as int, block_end(s, t, k), FoldingRangeKind::Region)
    } else {
        None
    }
}

/// The folding ranges of nodes `0..n`, in node order.
pub open spec fn tree_folds(s: Seq<char>, t: Seq<SyntaxNode>, n: int) -> Seq<FoldingRangeResult>
    decreases n,
{
    if n <= 0 {
        Seq::empty()
    } else {
        let r = tree_folds(s, t, n - 1);
        match node_fold(s, t, n - 1) {
            Some(f) => r.push(f),
            None => r,
        }
    }
}

/// Range `a` comes before range `b`: by start line, then by end line.
pub open spec fn fold_before(a: FoldingRangeResult, b: FoldingRangeResult) -> bool {
    a.start_line < b.start_line || (a.start_line == b.start_line && a.end_line < b.end_line)
}

/// Where `x` goes in the sorted `rs`: after every range that does not come
/// after it.
pub open spec fn fold_insert_point(rs: Seq<FoldingRangeResult>, x: FoldingRangeResult, i: int) -> int
    decreases rs.len() - i,
{
    if i < 0 || i >= rs.len() {
        rs.len() as int
    } else if fold_before(x, rs[i]) {
        i
    } else {
        fold_insert_point(rs, x, i + 1)
    }
}

/// The ranges stably sorted by start line, then end line.
pub open spec fn sort_folds(rs: Seq<FoldingRangeResult>) -> Seq<FoldingRangeResult>
    decreases rs.len(),
{
    if rs.len() == 0 {
        rs
    } else {
        let sorted = sort_folds(rs.drop_last());
        let k = fold_insert_point(sorted, rs.last(), 0);
        sorted.take(k).push(rs.last()) + sorted.skip(k)
    }
}

/// Two ranges span the same lines.
pub open spec fn same_lines(a: FoldingRangeResult, b: FoldingRangeResult) -> bool {
    a.start_line == b.start_line && a.end_line == b.end_line
}

/// The ranges without one that spans the same lines as the range kept
/// just before it.
pub open spec fn dedup_folds(rs: Seq<FoldingRangeResult>) -> Seq<FoldingRangeResult>
    decreases rs.len(),
{
    if rs.len() == 0 {
        rs
    } else {
        let d = dedup_folds(rs.drop_last());
        if d.len() > 0 && same_lines(d.last(), rs.last()) {
            d
        } else {
            d.push(rs.last())
        }
    }
}

/// The folding ranges of a document: those of the functions, then those of
/// the syntax tree, sorted by lines, with later ranges over the same lines
/// left out.
pub open spec fn folding_ranges(s: Seq<char>, st: SymbolTable) -> Seq<FoldingRangeResult> {
    let t = syntax::tree_of(s);
    dedup_folds(sort_folds(function_folds(st.functions@) + tree_folds(s, t, t.len() as int)))
}

} // verus!

verus! {

fn function_folds_exec(fs: &Vec<Function>) -> (r: Vec<FoldingRangeResult>)
    ensures
        r@ == function_folds(fs@),
{
    let mut r: Vec<FoldingRangeResult> = Vec::new();
    let mut i: usize = 0;
    while i < fs.len()
        invariant
            i <= fs@.len(),
            r@ == function_folds(fs@.take(i as int)),
        decreases fs@.len() - i,
    {
        assert(fs@.take(i + 1).drop_last() =~= fs@.take(i as int));
        let f = &fs[i];
        if f.end_line > f.line {
            r.push(FoldingRangeResult { start_line: f.line, end_line: f.end_line, kind: FoldingRangeKind::Region });
        }
        i = i + 1;
    }
    assert(fs@.take(i as int) =~= fs@);
    r
}

fn head_word_exec(d: &Doc, k: usize) -> (r: Option<Vec<char>>)
    requires
        doc_wf(d),
        k < d.tree@.len(),
    ensures
        match head_word(d.chars@, d.tree@, k as int) {
            Some(w) => r is Some && r->0@ == w,
            None => r is None,
        },
{
    let _n = d.tree.len();
    if d.tree[k].kind != NodeKind::List {
        return None;
    }
    match next_child_exec(d, k, k + 1) {
        Some(h) => if d.tree[h].kind == NodeKind::Keyword {
            Some(parser::node_chars(d, h))
        } else {
            None
        },
        None => None,
    }
}

fn is_word(w: &Option<Vec<char>>, x: &str) -> (b: bool)
    ensures
        b == (w matches Some(v) && v@ == x@),
{
    match w {
        Some(v) => text::chars_eq_str(v.as_slice(), x),
        None => false,
    }
}

fn foldable_list_exec(d: &Doc, k: usize) -> (b: bool)
    requires
        doc_wf(d),
        k < d.tree@.len(),
    ensures
        b == foldable_list(d.chars@, d.tree@, k as int),
{
    proof {
        parser::lemma_node_wf(d, k as int);
    }
    let hw = head_word_exec(d, k);
    let up = head_word_exec(d, d.tree[k].parent);
    let w = match &hw {
        Some(w) => w.as_slice(),
        None => return false,
    };
    let field = text::chars_eq_str(w, "type") || text::chars_eq_str(w, "global") || text::chars_eq_str(w, "table")
        || text::chars_eq_str(w, "memory") || text::chars_eq_str(w, "import") || text::chars_eq_str(w, "export")
        || text::chars_eq_str(w, "data") || text::chars_eq_str(w, "elem") || text::chars_eq_str(w, "tag")
        || text::chars_eq_str(w, "start") || text::chars_eq_str(w, "rec");
    let block = text::chars_eq_str(w, "block") || text::chars_eq_str(w, "loop") || text::chars_eq_str(w, "if")
        || text::chars_eq_str(w, "try") || text::chars_eq_str(w, "try_table");
    (is_field_exec(d, k) && field) || block || text::chars_eq_str(w, "struct") || text::chars_eq_str(w, "array")
        || (text::chars_eq_str(w, "type") && is_word(&up, "rec")) || (text::chars_eq_str(w, "func") && (is_word(
        &up,
        "type",
    ) || is_word(&up, "sub")))
}

fn span_fold_exec(d: &Doc, a: usize, b: usize, kind: FoldingRangeKind) -> (r: Option<FoldingRangeResult>)
    requires
        doc_wf(d),
        a <= d.chars@.len(),
        b <= d.chars@.len(),
    ensures
        r == span_fold(d.chars@, a as int, b as int, kind),
{
    let la = d.pos[a].row as u32;
    let lb = d.pos[b].row as u32;
    if lb > la {
        Some(FoldingRangeResult { start_line: la, end_line: lb, kind })
    } else {
        None
    }
}

fn node_fold_exec(d: &Doc, k: usize) -> (r: Option<FoldingRangeResult>)
    requires
        doc_wf(d),
        k < d.tree@.len(),
    ensures
        r == node_fold(d.chars@, d.tree@, k as int),
{
    proof {
        parser::lemma_node_wf(d, k as int);
    }
    let n = d.tree[k];
    if is_comment_exec(n.kind) {
        span_fold_exec(d, n.start, n.end, FoldingRangeKind::Comment)
    } else if foldable_list_exec(d, k) {
        span_fold_exec(d, n.start, n.end, FoldingRangeKind::Region)
    } else if n.kind == NodeKind::Keyword && block_word_exec(d, k) && !is_folded_exec(d, k) {
        let e = block_end_exec(d, k);
        span_fold_exec(d, n.start, e, FoldingRangeKind::Region)
    } else {
        None
    }
}

fn tree_folds_exec(d: &Doc) -> (r: Vec<FoldingRangeResult>)
    requires
        doc_wf(d),
    ensures
        r@ == tree_folds(d.chars@, d.tree@, d.tree@.len() as int),
{
    let n = d.tree.len();
    let mut r: Vec<FoldingRangeResult> = Vec::new();
    let mut i: usize = 0;
    while i < n
        invariant
            doc_wf(d),
            n == d.tree@.len(),
            i <= n,
            r@ == tree_folds(d.chars@, d.tree@, i as int),
        decreases n - i,
    {
        if let Some(f) = node_fold_exec(d, i) {
            r.push(f);
        }
        i = i + 1;
    }
    r
}

fn fold_before_exec(a: FoldingRangeResult, b: FoldingRangeResult) -> (r: bool)
    ensures
        r == fold_before(a, b),
{
    a.start_line < b.start_line || (a.start_line == b.start_line && a.end_line < b.end_line)
}

fn sort_folds_exec(rs: &Vec<FoldingRangeResult>) -> (r: Vec<FoldingRangeResult>)
    ensures
        r@ == sort_folds(rs@),
{
    let mut r: Vec<FoldingRangeResult> = Vec::new();
    let mut i: usize = 0;
    while i < rs.len()
        invariant
            i <= rs@.len(),
            r@ == sort_folds(rs@.take(i as int)),
            r@.len() == i,
        decreases rs@.len() - i,
    {
        assert(rs@.take(i + 1).drop_last() =~= rs@.take(i as int));
        let x = rs[i];
        let mut k: usize = 0;
        while k < r.len() && !fold_before_exec(x, r[k])
            invariant
                k <= r@.len(),
                fold_insert_point(r@, x, 0) == fold_insert_point(r@, x, k as int),
            decreases r@.len() - k,
        {
            k = k + 1;
        }
        let ghost before = r@;
        r.insert(k, x);
        assert(r@ =~= before.take(k as int).push(x) + before.skip(k as int));
        i = i + 1;
    }
    assert(rs@.take(i as int) =~= rs@);
    r
}

fn dedup_folds_exec(rs: &Vec<FoldingRangeResult>) -> (r: Vec<FoldingRangeResult>)
    ensures
        r@ == dedup_folds(rs@),
{
    let mut r: Vec<FoldingRangeResult> = Vec::new();
    let mut i: usize = 0;
    while i < rs.len()
        invariant
            i <= rs@.len(),
            r@ == dedup_folds(rs@.take(i as int)),
        decreases rs@.len() - i,
    {
        assert(rs@.take(i + 1).drop_last() =~= rs@.take(i as int));
        let n = r.len();
        if !(n > 0 && r[n - 1].start_line == rs[i].start_line && r[n - 1].end_line == rs[i].end_line) {
            r.push(rs[i]);
        }
        i = i + 1;
    }
    assert(rs@.take(i as int) =~= rs@);
    r
}

/// The folding ranges of a document (see `folding_ranges`).
pub fn provide_folding_ranges(source: &str, symbols: &SymbolTable) -> (r: Vec<FoldingRangeResult>)
    requires
        source@.len() < usize::MAX,
    ensures
        r@ == folding_ranges(source@, *symbols),
{
    let d = parser::read_doc(source);
    let mut all = function_folds_exec(&symbols.functions);
    let mut tf = tree_folds_exec(&d);
    let ghost a = all@;
    let ghost b = tf@;
    all.append(&mut tf);
    assert(all@ == a + b);
    let sorted = sort_folds_exec(&all);
    dedup_folds_exec(&sorted)
}

} // verus!

verus! {

/// Some range of `d` spans the same lines as `x`.
pub open spec fn has_same_lines(d: Seq<FoldingRangeResult>, x: FoldingRangeResult) -> bool {
    exists|i: int| 0 <= i < d.len() && same_lines(#[trigger] d[i], x)
}

/// The ranges are in order: none comes before one ahead of it.
pub open spec fn folds_sorted(rs: Seq<FoldingRangeResult>) -> bool {
    forall|i: int, j: int| 0 <= i < j < rs.len() ==> !fold_before(#[trigger] rs[j], #[trigger] rs[i])
}

/// The ranges are in strict order: each comes before every one after it.
pub open spec fn folds_increasing(rs: Seq<FoldingRangeResult>) -> bool {
    forall|i: int, j: int| 0 <= i < j < rs.len() ==> fold_before(#[trigger] rs[i], #[trigger] rs[j])
}

proof fn lemma_insert_point(rs: Seq<FoldingRangeResult>, x: FoldingRangeResult, i: int)
    requires
        0 <= i <= rs.len(),
    ensures
        i <= fold_insert_point(rs, x, i) <= rs.len(),
        forall|m: int| i <= m < fold_insert_point(rs, x, i) ==> !fold_before(x, #[trigger] rs[m]),
        fold_insert_point(rs, x, i) < rs.len() ==> fold_before(x, rs[fold_insert_point(rs, x, i)]),
    decreases rs.len() - i,
{
    if i < rs.len() && !fold_before(x, rs[i]) {
        lemma_insert_point(rs, x, i + 1);
    }
}

proof fn lemma_sort_folds(rs: Seq<FoldingRangeResult>)
    ensures
        sort_folds(rs).len() == rs.len(),
        folds_sorted(sort_folds(rs)),
        forall|y: FoldingRangeResult| #[trigger] sort_folds(rs).contains(y) <==> rs.contains(y),
    decreases rs.len(),
{
    if rs.len() > 0 {
        let p = rs.drop_last();
        lemma_sort_folds(p);
        let sorted = sort_folds(p);
        let x = rs.last();
        let k = fold_insert_point(sorted, x, 0);
        lemma_insert_point(sorted, x, 0);
        let out = sorted.take(k).push(x) + sorted.skip(k);
        assert(out == sort_folds(rs));
        assert forall|i: int| 0 <= i < out.len() implies #[trigger] out[i] == (if i < k {
            sorted[i]
        } else if i == k {
            x
        } else {
            sorted[i - 1]
        }) by {}
        assert forall|i: int, j: int| 0 <= i < j < out.len() implies !fold_before(#[trigger] out[j], #[trigger] out[i]) by {
            if j < k {
                assert(!fold_before(sorted[j], sorted[i]));
            } else if j == k {
                assert(!fold_before(x, sorted[i]));
            } else if i < k {
                assert(!fold_before(sorted[j - 1], sorted[i]));
            } else if i == k {
                assert(fold_before(x, sorted[k]));
                if k < j - 1 {
                    assert(!fold_before(sorted[j - 1], sorted[k]));
                }
            } else {
                assert(!fold_before(sorted[j - 1], sorted[i - 1]));
            }
        }
        assert forall|y: FoldingRangeResult| #[trigger] out.contains(y) <==> rs.contains(y) by {
            if out.contains(y) {
                let i = choose|i: int| 0 <= i < out.len() && out[i] == y;
                if i < k {
                    assert(sorted.contains(y));
                    let m = choose|m: int| 0 <= m < p.len() && p[m] == y;
                    assert(rs[m] == y);
                } else if i == k {
                    assert(rs[rs.len() - 1] == y);
                } else {
                    assert(sorted[i - 1] == y);
                    assert(sorted.contains(y));
                    let m = choose|m: int| 0 <= m < p.len() && p[m] == y;
                    assert(rs[m] == y);
                }
            }
            if rs.contains(y) {
                let m = choose|m: int| 0 <= m < rs.len() && rs[m] == y;
                if m == rs.len() - 1 {
                    assert(out[k] == y);
                } else {
                    assert(p[m] == y);
                    assert(p.contains(y));
                    assert(sorted.contains(y));
                    let i = choose|i: int| 0 <= i < sorted.len() && sorted[i] == y;
                    if i < k {
                        assert(out[i] == y);
                    } else {
                        assert(out[i + 1] == y);
                    }
                }
            }
        }
    }
}

proof fn lemma_dedup_folds(rs: Seq<FoldingRangeResult>)
    requires
        folds_sorted(rs),
    ensures
        folds_increasing(dedup_folds(rs)),
        forall|y: FoldingRangeResult| #[trigger] dedup_folds(rs).contains(y) ==> rs.contains(y),
        forall|m: int| 0 <= m < rs.len() ==> has_same_lines(dedup_folds(rs), #[trigger] rs[m]),
    decreases rs.len(),
{
    if rs.len() > 0 {
        let p = rs.drop_last();
        assert(folds_sorted(p)) by {
            assert forall|i: int, j: int| 0 <= i < j < p.len() implies !fold_before(#[trigger] p[j], #[trigger] p[i]) by {
                assert(p[i] == rs[i] && p[j] == rs[j]);
            }
        }
        lemma_dedup_folds(p);
        let d = dedup_folds(p);
        let x = rs.last();
        assert forall|i: int| 0 <= i < d.len() implies !fold_before(x, #[trigger] d[i]) by {
            assert(d.contains(d[i]));
            let m = choose|m: int| 0 <= m < p.len() && p[m] == d[i];
            assert(rs[m] == d[i]);
            assert(!fold_before(rs[rs.len() - 1], rs[m]));
        }
        if d.len() > 0 && same_lines(d.last(), x) {
            assert(dedup_folds(rs) == d);
            assert forall|y: FoldingRangeResult| #[trigger] d.contains(y) implies rs.contains(y) by {
                let m = choose|m: int| 0 <= m < p.len() && p[m] == y;
                assert(rs[m] == y);
            }
            assert forall|m: int| 0 <= m < rs.len() implies has_same_lines(d, #[trigger] rs[m]) by {
                if m == rs.len() - 1 {
                    assert(same_lines(d[d.len() - 1], rs[m]));
                } else {
                    assert(rs[m] == p[m]);
                }
            }
        } else {
            let out = d.push(x);
            assert(dedup_folds(rs) == out);
            assert forall|i: int, j: int| 0 <= i < j < out.len() implies fold_before(#[trigger] out[i], #[trigger] out[j]) by {
                if j < d.len() {
                    assert(fold_before(d[i], d[j]));
                } else {
                    let l = d.len() - 1;
                    assert(!fold_before(x, d[l]));
                    assert(!same_lines(d[l], x));
                    if i < l {
                        assert(fold_before(d[i], d[l]));
                    }
                }
            }
            assert forall|y: FoldingRangeResult| #[trigger] out.contains(y) implies rs.contains(y) by {
                let i = choose|i: int| 0 <= i < out.len() && out[i] == y;
                if i == d.len() {
                    assert(rs[rs.len() - 1] == y);
                } else {
                    assert(d[i] == y);
                    assert(d.contains(y));
                    let m = choose|m: int| 0 <= m < p.len() && p[m] == y;
                    assert(rs[m] == y);
                }
            }
            assert forall|m: int| 0 <= m < rs.len() implies has_same_lines(out, #[trigger] rs[m]) by {
                if m == rs.len() - 1 {
                    assert(same_lines(out[d.len() as int], rs[m]));
                } else {
                    assert(rs[m] == p[m]);
                    assert(has_same_lines(d, p[m]));
                    let i = choose|i: int| 0 <= i < d.len() && same_lines(#[trigger] d[i], p[m]);
                    assert(out[i] == d[i]);
                }
            }
        }
    }
}

proof fn lemma_function_folds(fs: Seq<Function>)
    ensures
        forall|y: FoldingRangeResult| #[trigger] function_folds(fs).contains(y) ==> y.start_line < y.end_line,
        forall|j: int|
            0 <= j < fs.len() && fs[j].end_line > fs[j].line ==> function_folds(fs).contains(
                FoldingRangeResult { start_line: #[trigger] fs[j].line, end_line: fs[j].end_line, kind: FoldingRangeKind::Region },
            ),
    decreases fs.len(),
{
    if fs.len() > 0 {
        let p = fs.drop_last();
        lemma_function_folds(p);
        let r = function_folds(p);
        let f = fs.last();
        assert forall|y: FoldingRangeResult| #[trigger] function_folds(fs).contains(y) implies y.start_line
            < y.end_line by {
            let i = choose|i: int| 0 <= i < function_folds(fs).len() && function_folds(fs)[i] == y;
            if i < r.len() {
                assert(r[i] == y);
                assert(r.contains(y));
            }
        }
        assert forall|j: int| 0 <= j < fs.len() && fs[j].end_line > fs[j].line implies function_folds(fs).contains(
            FoldingRangeResult { start_line: #[trigger] fs[j].line, end_line: fs[j].end_line, kind: FoldingRangeKind::Region },
        ) by {
            let x = FoldingRangeResult { start_line: fs[j].line, end_line: fs[j].end_line, kind: FoldingRangeKind::Region };
            if j == fs.len() - 1 {
                assert(function_folds(fs)[r.len() as int] == x);
            } else {
                assert(p[j] == fs[j]);
                assert(r.contains(x));
                let i = choose|i: int| 0 <= i < r.len() && r[i] == x;
                assert(function_folds(fs)[i] == x);
            }
        }
    }
}

proof fn lemma_tree_folds(s: Seq<char>, t: Seq<SyntaxNode>, n: int)
    ensures
        forall|y: FoldingRangeResult| #[trigger] tree_folds(s, t, n).contains(y) ==> y.start_line < y.end_line,
    decreases n,
{
    if n > 0 {
        lemma_tree_folds(s, t, n - 1);
        let r = tree_folds(s, t, n - 1);
        assert forall|y: FoldingRangeResult| #[trigger] tree_folds(s, t, n).contains(y) implies y.start_line
            < y.end_line by {
            let i = choose|i: int| 0 <= i < tree_folds(s, t, n).len() && tree_folds(s, t, n)[i] == y;
            if i < r.len() {
                assert(r[i] == y);
                assert(r.contains(y));
            }
        }
    }
}

proof fn lemma_concat_contains(a: Seq<FoldingRangeResult>, b: Seq<FoldingRangeResult>)
    ensures
        forall|y: FoldingRangeResult| #[trigger] (a + b).contains(y) <==> a.contains(y) || b.contains(y),
{
    assert forall|y: FoldingRangeResult| #[trigger] (a + b).contains(y) <==> a.contains(y) || b.contains(y) by {
        if (a + b).contains(y) {
            let i = choose|i: int| 0 <= i < (a + b).len() && (a + b)[i] == y;
            if i < a.len() {
                assert(a[i] == y);
            } else {
                assert(b[i - a.len()] == y);
            }
        }
        if a.contains(y) {
            let i = choose|i: int| 0 <= i < a.len() && a[i] == y;
            assert((a + b)[i] == y);
        }
        if b.contains(y) {
            let i = choose|i: int| 0 <= i < b.len() && b[i] == y;
            assert((a + b)[a.len() + i] == y);
        }
    }
}

/// The folding ranges come in strict order of start line, then end line:
/// they are sorted, and no two span the same lines.
pub proof fn law_folding_ranges_ordered(s: Seq<char>, st: SymbolTable)
    ensures
        folds_increasing(folding_ranges(s, st)),
{
    let t = syntax::tree_of(s);
    let all = function_folds(st.functions@) + tree_folds(s, t, t.len() as int);
    lemma_sort_folds(all);
    lemma_dedup_folds(sort_folds(all));
}

/// Every folding range spans more than one line.
pub proof fn law_folding_ranges_span_lines(s: Seq<char>, st: SymbolTable)
    ensures
        forall|i: int|
            0 <= i < folding_ranges(s, st).len() ==> #[trigger] folding_ranges(s, st)[i].start_line
                < folding_ranges(s, st)[i].end_line,
{
    let t = syntax::tree_of(s);
    let a = function_folds(st.functions@);
    let b = tree_folds(s, t, t.len() as int);
    let all = a + b;
    lemma_function_folds(st.functions@);
    lemma_tree_folds(s, t, t.len() as int);
    lemma_concat_contains(a, b);
    lemma_sort_folds(all);
    lemma_dedup_folds(sort_folds(all));
    let r = folding_ranges(s, st);
    assert forall|i: int| 0 <= i < r.len() implies #[trigger] r[i].start_line < r[i].end_line by {
        assert(r.contains(r[i]));
        assert(sort_folds(all).contains(r[i]));
        assert(all.contains(r[i]));
    }
}

/// Every function that spans more than one line has a folding range over
/// exactly its lines.
pub proof fn law_functions_fold(s: Seq<char>, st: SymbolTable, j: int)
    requires
        0 <= j < st.functions@.len(),
        st.functions@[j].end_line > st.functions@[j].line,
    ensures
        exists|i: int|
            0 <= i < folding_ranges(s, st).len() && (#[trigger] folding_ranges(s, st)[i]).start_line
                == st.functions@[j].line && folding_ranges(s, st)[i].end_line == st.functions@[j].end_line,
{
    let t = syntax::tree_of(s);
    let a = function_folds(st.functions@);
    let b = tree_folds(s, t, t.len() as int);
    let all = a + b;
    let f = st.functions@[j];
    let x = FoldingRangeResult { start_line: f.line, end_line: f.end_line, kind: FoldingRangeKind::Region };
    lemma_function_folds(st.functions@);
    assert(a.contains(x));
    lemma_concat_contains(a, b);
    assert(all.contains(x));
    lemma_sort_folds(all);
    let sorted = sort_folds(all);
    assert(sorted.contains(x));
    let m = choose|m: int| 0 <= m < sorted.len() && sorted[m] == x;
    lemma_dedup_folds(sorted);
    assert(has_same_lines(dedup_folds(sorted), sorted[m]));
    let r = folding_ranges(s, st);
    let i = choose|i: int| 0 <= i < r.len() && same_lines(#[trigger] r[i], sorted[m]);
    assert(r[i].start_line == f.line && r[i].end_line == f.end_line);
}


proof fn lemma_tree_folds_has(s: Seq<char>, t: Seq<SyntaxNode>, n: int, k: int)
    requires
        0 <= k < n,
        node_fold(s, t, k) is Some,
    ensures
        tree_folds(s, t, n).contains(node_fold(s, t, k).unwrap()),
    decreases n,
{
    let r = tree_folds(s, t, n - 1);
    if k == n - 1 {
        assert(tree_folds(s, t, n)[r.len() as int] == node_fold(s, t, k).unwrap());
    } else {
        lemma_tree_folds_has(s, t, n - 1, k);
        let i = choose|i: int| 0 <= i < r.len() && r[i] == node_fold(s, t, k).unwrap();
        assert(tree_folds(s, t, n)[i] == node_fold(s, t, k).unwrap());
    }
}

/// Every list that spans several lines and is headed by a block keyword
/// (`block`, `loop`, `if`, `try`, `try_table`) or by `struct` or `array` has
/// a folding range over exactly its lines, from its `(` to its `)`.
pub proof fn law_block_lists_fold(s: Seq<char>, st: SymbolTable, k: int, w: Seq<char>)
    requires
        0 <= k < syntax::tree_of(s).len(),
        syntax::tree_of(s)[k].kind == NodeKind::List,
        head_word(s, syntax::tree_of(s), k) == Some(w),
        w == "block"@ || w == "loop"@ || w == "if"@ || w == "try"@ || w == "try_table"@ || w == "struct"@ || w
            == "array"@,
        syntax::row_at(s, syntax::tree_of(s)[k].end as int) as u32 > syntax::row_at(
            s,
            syntax::tree_of(s)[k].start as int,
        ) as u32,
    ensures
        exists|i: int|
            0 <= i < folding_ranges(s, st).len() && (#[trigger] folding_ranges(s, st)[i]).start_line
                == syntax::row_at(s, syntax::tree_of(s)[k].start as int) as u32 && folding_ranges(s, st)[i].end_line
                == syntax::row_at(s, syntax::tree_of(s)[k].end as int) as u32,
{
    let t = syntax::tree_of(s);
    let a = function_folds(st.functions@);
    let b = tree_folds(s, t, t.len() as int);
    let all = a + b;
    assert(foldable_list(s, t, k));
    let x = node_fold(s, t, k).unwrap();
    lemma_tree_folds_has(s, t, t.len() as int, k);
    lemma_concat_contains(a, b);
    assert(all.contains(x));
    lemma_sort_folds(all);
    let sorted = sort_folds(all);
    assert(sorted.contains(x));
    let m = choose|m: int| 0 <= m < sorted.len() && sorted[m] == x;
    lemma_dedup_folds(sorted);
    assert(has_same_lines(dedup_folds(sorted), sorted[m]));
    let r = folding_ranges(s, st);
    let i = choose|i: int| 0 <= i < r.len() && same_lines(#[trigger] r[i], sorted[m]);
    assert(r[i].start_line == x.start_line && r[i].end_line == x.end_line);
}


/// Every module field headed by `type`, `global`, `table`, `memory`,
/// `import`, `export`, `data`, `elem`, `tag`, `start` or `rec`, and every
/// comment, that spans several lines has a folding range over exactly its
/// lines.
pub proof fn law_fields_and_comments_fold(s: Seq<char>, st: SymbolTable, k: int, w: Seq<char>)
    requires
        0 <= k < syntax::tree_of(s).len(),
        syntax::row_at(s, syntax::tree_of(s)[k].end as int) as u32 > syntax::row_at(
            s,
            syntax::tree_of(s)[k].start as int,
        ) as u32,
        (syntax::tree_of(s)[k].kind == NodeKind::LineComment || syntax::tree_of(s)[k].kind == NodeKind::BlockComment)
            || (syntax::tree_of(s)[k].kind == NodeKind::List && is_field(s, syntax::tree_of(s), k) && head_word(
            s,
            syntax::tree_of(s),
            k,
        ) == Some(w) && (w == "type"@ || w == "global"@ || w == "table"@ || w == "memory"@ || w == "import"@
            || w == "export"@ || w == "data"@ || w == "elem"@ || w == "tag"@ || w == "start"@ || w == "rec"@)),
    ensures
        exists|i: int|
            0 <= i < folding_ranges(s, st).len() && (#[trigger] folding_ranges(s, st)[i]).start_line
                == syntax::row_at(s, syntax::tree_of(s)[k].start as int) as u32 && folding_ranges(s, st)[i].end_line
                == syntax::row_at(s, syntax::tree_of(s)[k].end as int) as u32,
{
    let t = syntax::tree_of(s);
    let a = function_folds(st.functions@);
    let b = tree_folds(s, t, t.len() as int);
    let all = a + b;
    let x = node_fold(s, t, k).unwrap();
    lemma_tree_folds_has(s, t, t.len() as int, k);
    lemma_concat_contains(a, b);
    assert(all.contains(x));
    lemma_sort_folds(all);
    let sorted = sort_folds(all);
    assert(sorted.contains(x));
    let m = choose|m: int| 0 <= m < sorted.len() && sorted[m] == x;
    lemma_dedup_folds(sorted);
    assert(has_same_lines(dedup_folds(sorted), sorted[m]));
    let r = folding_ranges(s, st);
    let i = choose|i: int| 0 <= i < r.len() && same_lines(#[trigger] r[i], sorted[m]);
    assert(r[i].start_line == x.start_line && r[i].end_line == x.end_line);
}

} // verus!
