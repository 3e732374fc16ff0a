//! The decisions of a language-server session that do not depend on the
//! protocol: which module a position belongs to, whether an edit of an open
//! document applies, and what a rename changes.
use vstd::prelude::*;
use crate::parser;
use crate::parser::ModuleInfo;
use crate::references::{cursor_node, identify, local_indices_fit, references};
use crate::symbols::SymbolTable;
use crate::syntax;
use crate::syntax::NodeKind;
use crate::text;
use crate::types::{Position, Range};
use crate::utils;
use crate::utils::{edit_applicable, position_to_byte_spec, replace_bytes};

verus! {

/// `pos` lies within `r`, both ends included.
pub open spec fn range_contains(r: Range, pos: Position) -> bool {
    &&& pos.line > r.start.line || (pos.line == r.start.line && pos.character >= r.start.character)
    &&& pos.line < r.end.line || (pos.line == r.end.line && pos.character <= r.end.character)
}

/// The first module, from index `i` on, whose range contains `pos`.
pub open spec fn module_containing(ms: Seq<ModuleInfo>, pos: Position, i: int) -> Option<int>
    decreases ms.len() - i,
{
    if i < 0 || i >= ms.len() {
        None
    } else if range_contains(ms[i].range, pos) {
        Some(i)
    } else {
        module_containing(ms, pos, i + 1)
    }
}

/// The module that a request at `pos` concerns: the first whose range
/// contains it, else the first module.
pub open spec fn module_at(ms: Seq<ModuleInfo>, pos: Position) -> Option<int> {
    match module_containing(ms, pos, 0) {
        Some(i) => Some(i),
        None => if ms.len() > 0 {
            Some(0)
        } else {
            None
        },
    }
}

fn range_contains_exec(r: Range, pos: Position) -> (b: bool)
    ensures
        b == range_contains(r, pos),
{
    (pos.line > r.start.line || (pos.line == r.start.line && pos.character >= r.start.character)) && (pos.line
        < r.end.line || (pos.line == r.end.line && pos.character <= r.end.character))
}

/// The index of the module that a request at `position` concerns (see
/// `module_at`).
pub fn module_for_position(modules: &Vec<ModuleInfo>, position: Position) -> (r: Option<usize>)
    ensures
        match module_at(modules@, position) {
            Some(i) => r == Some(i as usize) && 0 <= i < modules@.len(),
            None => r is None,
        },
{
    let mut i: usize = 0;
    while i < modules.len()
        invariant
            i <= modules@.len(),
            module_containing(modules@, position, 0) == module_containing(modules@, position, i as int),
        decreases modules@.len() - i,
    {
        if range_contains_exec(modules[i].range, position) {
            return Some(i);
        }
        i = i + 1;
    }
    if modules.len() > 0 {
        Some(0)
    } else {
        None
    }
}

/// What to do with an edit of a document.
#[derive(Clone, Copy, Debug, PartialEq, Eq, Structural)]
pub enum ChangeDecision {
    /// The edit is newer than the open text: apply it.
    Apply,
    /// The edit is not newer than the open text: ignore it.
    Stale,
    /// The document is not open: an edit cannot be read.
    Unopened,
}

/// An edit is applied only to an open document, and only when its version
/// is newer than the open text's.
pub fn change_decision(current_version: Option<i32>, version: i32) -> (d: ChangeDecision)
    ensures
        d == match current_version {
            Some(v) => if version > v {
                ChangeDecision::Apply
            } else {
                ChangeDecision::Stale
            },
            None => ChangeDecision::Unopened,
        },
{
    match current_version {
        Some(v) => if version > v {
            ChangeDecision::Apply
        } else {
            ChangeDecision::Stale
        },
        None => ChangeDecision::Unopened,
    }
}

/// A change of a document's text: the range it replaces (the whole text
/// when there is none) and the new text.
pub struct ContentChange {
    pub range: Option<Range>,
    pub text: String,
}

/// The text after one change, if it applies.
pub open spec fn apply_change(t: Seq<char>, c: ContentChange) -> Option<Seq<char>> {
    match c.range {
        Some(r) => if edit_applicable(t, r.start, r.end, c.text@) {
            Some(replace_bytes(t, position_to_byte_spec(t, r.start), position_to_byte_spec(t, r.end), c.text@))
        } else {
            None
        },
        None => Some(c.text@),
    }
}

/// The text after the changes in order, if each applies to the text that
/// the ones before it left.
pub open spec fn apply_changes(t: Seq<char>, cs: Seq<ContentChange>) -> Option<Seq<char>>
    decreases cs.len(),
{
    if cs.len() == 0 {
        Some(t)
    } else {
        match apply_changes(t, cs.drop_last()) {
            Some(u) => apply_change(u, cs.last()),
            None => None,
        }
    }
}

/// Applies the changes in order (see `apply_changes`); false when one of
/// them does not apply.
pub fn apply_content_changes(text: &mut String, changes: &Vec<ContentChange>) -> (ok: bool)
    ensures
        match apply_changes(old(text)@, changes@) {
            Some(t) => ok && final(text)@ == t,
            None => !ok,
        },
{
    let ghost t0 = text@;
    let mut i: usize = 0;
    while i < changes.len()
        invariant
            i <= changes@.len(),
            t0 == old(text)@,
            apply_changes(t0, changes@.take(i as int)) == Some(text@),
        decreases changes@.len() - i,
    {
        assert(changes@.take(i + 1).drop_last() =~= changes@.take(i as int));
        let c = &changes[i];
        match c.range {
            Some(r) => {
                if utils::edit_applies(text.as_str(), r.start, r.end, c.text.as_str()) {
                    utils::apply_text_edit(text, r.start, r.end, c.text.as_str());
                } else {
                    proof {
                        assert(changes@.take(i + 1).last() == changes@[i as int]);
                        lemma_apply_changes_stuck(t0, changes@, i as int);
                    }
                    return false;
                }
            },
            None => {
                *text = text::owned(c.text.as_str());
            },
        }
        i = i + 1;
    }
    assert(changes@.take(i as int) =~= changes@);
    true
}

/// Once a change does not apply, the changes after it do not either.
proof fn lemma_apply_changes_stuck(t: Seq<char>, cs: Seq<ContentChange>, i: int)
    requires
        0 <= i < cs.len(),
        apply_changes(t, cs.take(i + 1)) is None,
    ensures
        apply_changes(t, cs) is None,
    decreases cs.len() - i,
{
    if i + 1 < cs.len() {
        assert(cs.take(i + 2).drop_last() =~= cs.take(i + 1));
        lemma_apply_changes_stuck(t, cs, i + 1);
    } else {
        assert(cs.take(i + 1) =~= cs);
    }
}

/// The range to rename at `pos`: that of the identifier or number under the
/// cursor, when it names a symbol.
pub open spec fn rename_range(s: Seq<char>, st: SymbolTable, pos: Position) -> Option<Range> {
    let t = syntax::tree_of(s);
    if identify(s, st, pos) is Some {
        match cursor_node(s, t, position_to_byte_spec(s, pos)) {
            Some(k) => if t[k].kind == NodeKind::Identifier || t[k].kind == NodeKind::Number {
                Some(parser::range_of(s, t[k]))
            } else {
                None
            },
            None => None,
        }
    } else {
        None
    }
}

/// The range that a rename at `position` replaces (see `rename_range`).
pub fn prepare_rename_range(document: &str, symbols: &SymbolTable, position: Position) -> (r: Option<Range>)
    requires
        text::byte_len(document@) < usize::MAX,
        local_indices_fit(*symbols, position),
    ensures
        r == rename_range(document@, *symbols, position),
{
    if crate::references::identify_symbol_at_position(document, symbols, position).is_none() {
        return None;
    }
    proof {
        text::lemma_byte_len_bound(document@);
    }
    let d = parser::read_doc(document);
    let b = utils::position_to_byte(document, position);
    match crate::references::cursor_node_exec(&d, b) {
        Some(k) => {
            if d.tree[k].kind == NodeKind::Identifier || d.tree[k].kind == NodeKind::Number {
                Some(parser::range_exec(&d, k))
            } else {
                None
            }
        },
        None => None,
    }
}

/// What a rename does.
pub enum RenamePlan {
    /// The new name does not start with `$`.
    InvalidName,
    /// No symbol is under the cursor.
    NoSymbol,
    /// The symbol under the cursor has no name to replace.
    Unnamed,
    /// Replace the new name at each of these ranges.
    Edits(Vec<Range>),
}

/// A rename to `new_name` at `position`: refused for a name without `$`,
/// for no symbol or an unnamed one; else the symbol's references with its
/// declaration (within `module_range`, when given) are replaced.
pub fn rename_plan(
    document: &str,
    symbols: &SymbolTable,
    position: Position,
    new_name: &str,
    module_range: Option<Range>,
) -> (r: RenamePlan)
    requires
        text::byte_len(document@) < usize::MAX,
        local_indices_fit(*symbols, position),
    ensures
        !text::starts_with(new_name@, "$"@) ==> r is InvalidName,
        text::starts_with(new_name@, "$"@) ==> match identify(document@, *symbols, position) {
            None => r is NoSymbol,
            Some(m) => if m.name is Some {
                r matches RenamePlan::Edits(v) && v@ == references(document@, *symbols, position, true, module_range)
            } else {
                r is Unnamed
            },
        },
{
    let nc = text::chars_of(new_name);
    if !text::starts_with_str(nc.as_slice(), "$") {
        return RenamePlan::InvalidName;
    }
    match crate::references::identify_symbol_at_position(document, symbols, position) {
        Some(t) => {
            if !t.has_name() {
                RenamePlan::Unnamed
            } else {
                RenamePlan::Edits(
                    crate::references::provide_references_core_scoped(
                        document,
                        symbols,
                        position,
                        true,
                        module_range,
                    ),
                )
            }
        },
        None => RenamePlan::NoSymbol,
    }
}

} // verus!
