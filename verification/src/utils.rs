//! Text-level helpers shared by the features: instruction context detection
//! from a line, word and line extraction, position conversion and edits.
use vstd::prelude::*;
use vstd::string::StrSliceExecFns;
use crate::symbols::{Function, SymbolTable};
use crate::text;
use crate::text::{byte_len_exec, char_index_at_byte, count_char_exec, chars_of, compute_line_spans, is_alphanumeric, string_from_chars, sub_chars, width_of};
use crate::types::Position;

verus! {

/// The kind of entity an instruction or declaration refers to.
/// Used across hover, definition, references, completion and diagnostics.
#[derive(Debug, PartialEq, Eq, Copy, Clone, Structural)]
pub enum InstructionContext {
    /// call instruction
    Call,
    /// global.get/set
    Global,
    /// local.get/set/tee
    Local,
    /// br/br_if/br_table
    Branch,
    /// block/loop labels
    Block,
    /// table operations
    Table,
    /// memory operations
    Memory,
    /// type definitions/uses
    Type,
    /// throw/try
    Tag,
    /// function definition
    Function,
    /// data segment operations (memory.init, data.drop)
    Data,
    /// elem segment operations (elem, table.init, elem.drop)
    Elem,
    /// fallback
    General,
}

/// Line `n` of `doc`, as `str::lines` numbers them.
pub open spec fn line_at(doc: Seq<char>, n: int) -> Option<Seq<char>> {
    if 0 <= n < text::lines_of(doc).len() {
        Some(text::lines_of(doc)[n])
    } else {
        None
    }
}

/// Get the line at the specified position in a document.
pub fn get_line_at_position(document: &str, line_num: usize) -> (r: Option<&str>)
    ensures
        match line_at(document@, line_num as int) {
            Some(l) => r is Some && r->0@ == l,
            None => r is None,
        },
{
    let chars = chars_of(document);
    let spans = compute_line_spans(chars.as_slice());
    if line_num < spans.len() {
        let (a, b) = spans[line_num];
        proof {
            text::lemma_line_spans_wf(document@);
            assert(line_at(document@, line_num as int) == Some(document@.subrange(a as int, b as int)));
        }
        Some(document.substring_char(a, b))
    } else {
        None
    }
}

} // verus!

verus! {

/// Characters that make up a WAT word: alphanumerics, `_`, `$`, `.` and `-`.
pub open spec fn word_char(c: char) -> bool {
    text::unicode_alphanumeric(c) || c == '_' || c == '$' || c == '.' || c == '-'
}

/// Check if a character is part of a word in WAT (alphanumeric, _, $, ., -).
pub fn is_word_char(c: char) -> (b: bool)
    ensures
        b == word_char(c),
        (c as u32) < 0x80 ==> (b == (text::is_ascii_alnum(c) || c == '_' || c == '$' || c == '.' || c == '-')),
{
    is_alphanumeric(c) || c == '_' || c == '$' || c == '.' || c == '-'
}

/// Start of the run of word characters that ends at `col`.
pub open spec fn word_start(l: Seq<char>, col: int) -> int
    decreases col,
{
    if col <= 0 || col > l.len() || !word_char(l[col - 1]) {
        col
    } else {
        word_start(l, col - 1)
    }
}

/// End of the run of word characters that starts at `col`.
pub open spec fn word_end(l: Seq<char>, col: int) -> int
    decreases l.len() - col,
{
    if col < 0 || col >= l.len() || !word_char(l[col]) {
        col
    } else {
        word_end(l, col + 1)
    }
}

/// The word that covers column `col` of line `l`. The column is compared with
/// the line's length in bytes first and then used as a character index.
pub open spec fn word_in_line(l: Seq<char>, col: int) -> Option<Seq<char>> {
    if col > text::byte_len(l) || col > l.len() {
        None
    } else if word_start(l, col) < word_end(l, col) {
        Some(l.subrange(word_start(l, col), word_end(l, col)))
    } else {
        None
    }
}

/// The word at a position of a document.
pub open spec fn word_at(doc: Seq<char>, pos: Position) -> Option<Seq<char>> {
    match line_at(doc, pos.line as int) {
        Some(l) => word_in_line(l, pos.character as int),
        None => None,
    }
}

proof fn lemma_word_start_bounds(l: Seq<char>, col: int)
    requires
        0 <= col <= l.len(),
    ensures
        0 <= word_start(l, col) <= col,
    decreases col,
{
    if col > 0 && word_char(l[col - 1]) {
        lemma_word_start_bounds(l, col - 1);
    }
}

proof fn lemma_word_end_bounds(l: Seq<char>, col: int)
    requires
        0 <= col <= l.len(),
    ensures
        col <= word_end(l, col) <= l.len(),
    decreases l.len() - col,
{
    if col < l.len() && word_char(l[col]) {
        lemma_word_end_bounds(l, col + 1);
    }
}

proof fn lemma_word_start_run(l: Seq<char>, col: int)
    requires
        0 <= col <= l.len(),
    ensures
        forall|k: int| word_start(l, col) <= k < col ==> word_char(#[trigger] l[k]),
        word_start(l, col) == 0 || !word_char(l[word_start(l, col) - 1]),
    decreases col,
{
    if col > 0 && word_char(l[col - 1]) {
        lemma_word_start_run(l, col - 1);
    }
}

proof fn lemma_word_end_run(l: Seq<char>, col: int)
    requires
        0 <= col <= l.len(),
    ensures
        forall|k: int| col <= k < word_end(l, col) ==> word_char(#[trigger] l[k]),
        word_end(l, col) == l.len() || !word_char(l[word_end(l, col)]),
    decreases l.len() - col,
{
    if col < l.len() && word_char(l[col]) {
        lemma_word_end_run(l, col + 1);
    }
}

/// The word at column `col` is the longest run of word characters around
/// the column: there is none exactly when neither the character before nor
/// the one at the column is a word character (or the column lies past the
/// line), and otherwise it reaches from `word_start` to `word_end`, every
/// character in it a word character and neither neighbour one.
pub proof fn law_word_in_line(l: Seq<char>, col: int)
    requires
        0 <= col,
    ensures
        (word_in_line(l, col) is None) <==> (col > text::byte_len(l) || col > l.len() || (!(col > 0 && word_char(
            l[col - 1],
        )) && !(col < l.len() && word_char(l[col])))),
        word_in_line(l, col) is Some ==> {
            let a = word_start(l, col);
            let b = word_end(l, col);
            &&& 0 <= a <= col <= b <= l.len()
            &&& a < b
            &&& word_in_line(l, col).unwrap() == l.subrange(a, b)
            &&& forall|k: int| a <= k < b ==> word_char(#[trigger] l[k])
            &&& (a == 0 || !word_char(l[a - 1]))
            &&& (b == l.len() || !word_char(l[b]))
        },
{
    if col <= l.len() {
        lemma_word_start_bounds(l, col);
        lemma_word_end_bounds(l, col);
        lemma_word_start_run(l, col);
        lemma_word_end_run(l, col);
        if col > 0 && word_char(l[col - 1]) {
            assert(word_start(l, col) == word_start(l, col - 1));
            lemma_word_start_bounds(l, col - 1);
        }
        if col < l.len() && word_char(l[col]) {
            assert(word_end(l, col) == word_end(l, col + 1));
            lemma_word_end_bounds(l, col + 1);
        }
    }
}

proof fn lemma_span_bytes_nonneg(s: Seq<char>, sp: Seq<(int, int)>, k: int)
    ensures
        text::span_bytes(s, sp, k) >= 0,
    decreases k,
{
    if k > 0 {
        lemma_span_bytes_nonneg(s, sp, k - 1);
    }
}

/// The byte offset of a position always lies within the text: at most the
/// text's length in bytes.
pub proof fn law_position_to_byte_within_text(src: Seq<char>, pos: Position)
    ensures
        0 <= position_to_byte_spec(src, pos) <= text::byte_len(src),
{
    let sp = text::line_spans(src);
    let ln = pos.line as int;
    if ln < sp.len() {
        text::lemma_line_spans_wf(src);
        text::lemma_span_bytes_bound(src, ln);
        lemma_span_bytes_nonneg(src, sp, ln);
        let l = src.subrange(sp[ln].0, sp[ln].1);
        if (pos.character as int) < l.len() {
            lemma_byte_len_take_le(l, pos.character as int);
        }
    }
}

/// Get the word at the specified position in a document.
/// A word includes alphanumerics, underscores, dollar signs, dots, and hyphens.
pub fn get_word_at_position(document: &str, position: Position) -> (r: Option<String>)
    ensures
        match word_at(document@, position) {
            Some(w) => r is Some && r->0@ == w,
            None => r is None,
        },
{
    let line = match get_line_at_position(document, position.line as usize) {
        Some(l) => l,
        None => return None,
    };
    let col = position.character as usize;
    let chars = chars_of(line);
    let line_bytes = byte_len_exec(chars.as_slice());
    if col as u128 > line_bytes {
        return None;
    }
    if col > chars.len() {
        return None;
    }
    let mut start = col;
    let mut end = col;
    while start > 0 && is_word_char(chars[start - 1])
        invariant
            start <= col <= chars@.len(),
            word_start(chars@, start as int) == word_start(chars@, col as int),
        decreases start,
    {
        start -= 1;
    }
    while end < chars.len() && is_word_char(chars[end])
        invariant
            col <= end <= chars@.len(),
            word_end(chars@, end as int) == word_end(chars@, col as int),
        decreases chars@.len() - end,
    {
        end += 1;
    }
    if start < end {
        let w = sub_chars(chars.as_slice(), start, end);
        Some(string_from_chars(w.as_slice()))
    } else {
        None
    }
}

} // verus!

verus! {

/// Byte offset of a position: the bytes of the earlier lines, one newline byte
/// per earlier line, and the bytes of the first `character` characters of the
/// line (the whole line when it is shorter). Past the last line, the end of
/// the text.
pub open spec fn position_to_byte_spec(src: Seq<char>, pos: Position) -> int {
    let sp = text::line_spans(src);
    let ln = pos.line as int;
    if ln < sp.len() {
        let l = src.subrange(sp[ln].0, sp[ln].1);
        let ch = pos.character as int;
        text::span_bytes(src, sp, ln) + if ch < l.len() {
            text::byte_len(l.take(ch))
        } else {
            text::byte_len(l)
        }
    } else {
        text::byte_len(src) as int
    }
}

proof fn lemma_byte_len_take_le(l: Seq<char>, ch: int)
    requires
        0 <= ch <= l.len(),
    ensures
        text::byte_len(l.take(ch)) <= text::byte_len(l),
{
    assert(l =~= l.take(ch) + l.skip(ch));
    text::lemma_byte_len_concat(l.take(ch), l.skip(ch));
}

/// Convert a position to a byte offset in the source text.
pub fn position_to_byte(source: &str, position: Position) -> (r: usize)
    requires
        text::byte_len(source@) + 1 <= usize::MAX,
    ensures
        r == position_to_byte_spec(source@, position),
{
    let chars = chars_of(source);
    let spans = compute_line_spans(chars.as_slice());
    let ghost src = source@;
    let ghost sp = text::line_spans(src);
    proof {
        text::lemma_line_spans_wf(src);
    }
    let mut offset: usize = 0;
    let mut k: usize = 0;
    while k < spans.len()
        invariant
            chars@ == src,
            src == source@,
            sp == text::line_spans(src),
            spans@.len() == sp.len(),
            forall|j: int|
                0 <= j < spans@.len() ==> spans@[j].0 as int == sp[j].0 && spans@[j].1 as int
                    == sp[j].1,
            forall|j: int| 0 <= j < sp.len() ==> 0 <= #[trigger] sp[j].0 <= sp[j].1 <= src.len(),
            text::byte_len(src) + 1 <= usize::MAX,
            k <= spans@.len(),
            k <= position.line,
            offset == text::span_bytes(src, sp, k as int),
        decreases spans@.len() - k,
    {
        let (a, b) = spans[k];
        assert(0 <= sp[k as int].0 <= sp[k as int].1 <= src.len());
        let line = sub_chars(chars.as_slice(), a, b);
        let line_bytes = byte_len_exec(line.as_slice());
        proof {
            text::lemma_span_bytes_bound(src, k as int);
        }
        if k == position.line as usize {
            let ch = position.character as usize;
            if ch < line.len() {
                let pre = sub_chars(line.as_slice(), 0, ch);
                let pre_bytes = byte_len_exec(pre.as_slice());
                proof {
                    assert(pre@ =~= line@.take(ch as int));
                    lemma_byte_len_take_le(line@, ch as int);
                }
                return offset + pre_bytes as usize;
            } else {
                return offset + line_bytes as usize;
            }
        }
        offset = offset + line_bytes as usize + 1;
        k = k + 1;
    }
    text::str_byte_len(source)
}

} // verus!

verus! {

/// The text of `s` after its last newline (all of `s` when it has none;
/// empty when it ends with one).
pub open spec fn last_line(s: Seq<char>) -> Seq<char> {
    s.subrange(crate::syntax::line_start(s, s.len() as int), s.len() as int)
}

/// Where the cursor ends after `ins` is inserted at `start`: on the same line
/// moved right by the byte length of `ins`, or, when `ins` holds newlines, on
/// the line one per newline further down, at the byte length of the last line
/// of `ins`.
pub open spec fn position_after_insert(start: Position, ins: Seq<char>) -> Position {
    if ins.len() == 0 {
        start
    } else if text::count_char(ins, '\n') == 0 {
        Position { line: start.line, character: (start.character + (text::byte_len(ins) as u32)) as u32 }
    } else {
        Position {
            line: (start.line + (text::count_char(ins, '\n') as u32)) as u32,
            character: text::byte_len(last_line(ins)) as u32,
        }
    }
}

/// The arithmetic of `position_after_insert` stays within `u32`.
pub open spec fn insert_fits(start: Position, ins: Seq<char>) -> bool {
    &&& text::count_char(ins, '\n') == 0 ==> start.character + (text::byte_len(ins) as u32) <= u32::MAX
    &&& start.line + (text::count_char(ins, '\n') as u32) <= u32::MAX
}

/// After an insertion the end position is the start when nothing was
/// inserted; on the same line, moved right by the inserted byte length (as a
/// `u32`), when no newline was inserted; and otherwise one line further down
/// per newline, at the byte length of the text after the last inserted
/// newline.
pub proof fn law_position_after_insert(start: Position, ins: Seq<char>)
    requires
        insert_fits(start, ins),
    ensures
        ins.len() == 0 ==> position_after_insert(start, ins) == start,
        ins.len() > 0 && text::count_char(ins, '\n') == 0 ==> position_after_insert(start, ins).line == start.line
            && position_after_insert(start, ins).character == start.character + (text::byte_len(ins) as u32),
        text::count_char(ins, '\n') > 0 ==> position_after_insert(start, ins).line == start.line + (text::count_char(
            ins,
            '\n',
        ) as u32) && position_after_insert(start, ins).character == (text::byte_len(last_line(ins)) as u32),
{
    if ins.len() == 0 {
        assert(ins =~= Seq::<char>::empty());
    }
}

/// Calculate the position after inserting text at a given position.
fn calculate_position_after_edit(_text: &str, start: Position, inserted_text: &str) -> (p: Position)
    requires
        insert_fits(start, inserted_text@),
    ensures
        p == position_after_insert(start, inserted_text@),
{
    let ins = chars_of(inserted_text);
    if ins.len() == 0 {
        return start;
    }
    let newline_count = count_char_exec(ins.as_slice(), '\n');
    if newline_count == 0 {
        let len = byte_len_exec(ins.as_slice());
        Position { line: start.line, character: start.character + len as u32 }
    } else {
        let n = ins.len();
        let mut i = n;
        while i > 0 && ins[i - 1] != '\n'
            invariant
                i <= n == ins@.len(),
                crate::syntax::line_start(ins@, n as int) == crate::syntax::line_start(ins@, i as int),
            decreases i,
        {
            i = i - 1;
        }
        proof {
            crate::syntax::lemma_line_start_bound(ins@, n as int);
        }
        let last = sub_chars(ins.as_slice(), i, n);
        let last_len = byte_len_exec(last.as_slice());
        Position { line: start.line + newline_count as u32, character: last_len as u32 }
    }
}

/// The text after replacing the characters between byte offsets `start_byte`
/// and `end_byte` of `text` by `new_text`.
pub open spec fn replace_bytes(text: Seq<char>, start_byte: int, end_byte: int, new_text: Seq<char>) -> Seq<char> {
    text.take(text::char_index_of_byte(text, start_byte)) + new_text + text.skip(
        text::char_index_of_byte(text, end_byte),
    )
}

/// `apply_text_edit` can replace the range: both ends convert to character
/// boundaries, in order, and the position arithmetic fits (else it panics).
pub open spec fn edit_applicable(text: Seq<char>, start: Position, end: Position, new_text: Seq<char>) -> bool {
    &&& text::byte_len(text) + 1 <= usize::MAX
    &&& text::is_char_boundary(text, position_to_byte_spec(text, start))
    &&& text::is_char_boundary(text, position_to_byte_spec(text, end))
    &&& position_to_byte_spec(text, start) <= position_to_byte_spec(text, end)
    &&& insert_fits(start, new_text)
}

/// Whether `apply_text_edit` can apply this edit (`edit_applicable`): the
/// text's length leaves room, both positions fall between characters in
/// order, and the new end position fits in `u32`.
pub fn edit_applies(text: &str, start: Position, end: Position, new_text: &str) -> (b: bool)
    ensures
        b == edit_applicable(text@, start, end, new_text@),
{
    let n = text::str_byte_len(text);
    if n == usize::MAX {
        return false;
    }
    let chars = chars_of(text);
    let sb = position_to_byte(text, start);
    let eb = position_to_byte(text, end);
    if !(text::is_char_boundary_exec(chars.as_slice(), sb) && text::is_char_boundary_exec(chars.as_slice(), eb)
        && sb <= eb) {
        return false;
    }
    let ins = chars_of(new_text);
    let nl = count_char_exec(ins.as_slice(), '\n');
    let bl = text::str_byte_len(new_text);
    (nl != 0 || start.character as u64 + (bl as u32) as u64 <= u32::MAX as u64) && start.line as u64 + (nl as u32)
        as u64 <= u32::MAX as u64
}

/// Apply a text edit to a string in place; returns the new end position.
pub fn apply_text_edit(text: &mut String, start: Position, end: Position, new_text: &str) -> (p: Position)
    requires
        edit_applicable(old(text)@, start, end, new_text@),
    ensures
        final(text)@ == replace_bytes(
            old(text)@,
            position_to_byte_spec(old(text)@, start),
            position_to_byte_spec(old(text)@, end),
            new_text@,
        ),
        p == position_after_insert(start, new_text@),
{
    let start_byte = position_to_byte(text.as_str(), start);
    let end_byte = position_to_byte(text.as_str(), end);
    let chars = chars_of(text.as_str());
    let cs = char_index_at_byte(chars.as_slice(), start_byte);
    let ce = char_index_at_byte(chars.as_slice(), end_byte);
    proof {
        if ce < cs {
            text::lemma_byte_len_take_strict_pub(chars@, ce as int, cs as int);
        }
    }
    let ins = chars_of(new_text);
    let mut out: Vec<char> = Vec::new();
    let mut i: usize = 0;
    while i < cs
        invariant
            cs <= chars@.len(),
            i <= cs,
            out@ == chars@.take(i as int),
        decreases cs - i,
    {
        out.push(chars[i]);
        assert(out@ =~= chars@.take(i + 1));
        i = i + 1;
    }
    let mut j: usize = 0;
    while j < ins.len()
        invariant
            j <= ins@.len(),
            out@ == chars@.take(cs as int) + ins@.take(j as int),
        decreases ins@.len() - j,
    {
        out.push(ins[j]);
        assert(out@ =~= chars@.take(cs as int) + ins@.take(j + 1));
        j = j + 1;
    }
    let mut k: usize = ce;
    assert(ins@.take(j as int) =~= ins@);
    assert(chars@.skip(ce as int).take(0) =~= Seq::<char>::empty());
    while k < chars.len()
        invariant
            ce <= k <= chars@.len(),
            out@ == chars@.take(cs as int) + ins@ + chars@.skip(ce as int).take(k - ce),
        decreases chars@.len() - k,
    {
        out.push(chars[k]);
        assert(out@ =~= chars@.take(cs as int) + ins@ + chars@.skip(ce as int).take(k + 1 - ce));
        k = k + 1;
    }
    assert(chars@.skip(ce as int).take(k - ce) =~= chars@.skip(ce as int));
    *text = text::string_from_chars(out.as_slice());
    calculate_position_after_edit("", start, new_text)
}

} // verus!

verus! {

/// The character at index `k`, if any.
pub open spec fn nth_char(s: Seq<char>, k: int) -> Option<char> {
    if 0 <= k < s.len() {
        Some(s[k])
    } else {
        None
    }
}

/// The occurrence of `kw` at character `i` of `line` stands as a keyword: the
/// character before it is absent, `(`, a space or a tab, and the character
/// after it is absent, a space, `.`, `)`, `$`, a digit, or `_` after `br`.
/// The neighbours are looked up at the occurrence's byte offset, taken as a
/// character index.
pub open spec fn keyword_match_ok(line: Seq<char>, kw: Seq<char>, i: int) -> bool {
    let b = text::byte_len(line.take(i)) as int;
    let before = if b > 0 {
        nth_char(line, b - 1)
    } else {
        None
    };
    let after = nth_char(line, b + text::byte_len(kw));
    let valid_before = match before {
        None => true,
        Some(c) => c == '(' || c == ' ' || c == '\t',
    };
    let valid_after = match after {
        None => true,
        Some(c) => c == ' ' || c == '.' || (c == '_' && kw == "br"@) || c == ')' || c == '$'
            || text::is_ascii_digit(c),
    };
    valid_before && valid_after
}

/// `line` contains `kw` as an instruction or declaration keyword.
pub open spec fn line_has_keyword(line: Seq<char>, kw: Seq<char>) -> bool {
    exists|i: int| text::occurs_at(line, kw, i) && keyword_match_ok(line, kw, i)
}

fn nth_char_exec(s: &[char], k: u128) -> (r: Option<char>)
    ensures
        r == nth_char(s@, k as int),
{
    if k < s.len() as u128 {
        Some(s[k as usize])
    } else {
        None
    }
}

/// Check if a line contains a keyword as an instruction or declaration (not
/// as part of an identifier). Every occurrence of the keyword is examined.
fn line_contains_keyword(line: &[char], keyword: &str) -> (b: bool)
    ensures
        b == line_has_keyword(line@, keyword@),
{
    let kw = chars_of(keyword);
    let kw_bytes = byte_len_exec(kw.as_slice());
    proof {
        text::lemma_byte_len_bound(kw@);
    }
    let _kw_len = kw.len();
    let _line_len = line.len();
    let mut i: usize = 0;
    let mut b: u128 = 0;
    loop
        invariant
            kw@ == keyword@,
            kw_bytes == text::byte_len(keyword@),
            kw_bytes <= 4 * kw@.len(),
            kw@.len() <= usize::MAX,
            line@.len() <= usize::MAX,
            i <= line@.len(),
            b == text::byte_len(line@.take(i as int)),
            b <= 4 * i,
            forall|j: int| 0 <= j < i ==> !(text::occurs_at(line@, keyword@, j) && keyword_match_ok(line@, keyword@, j)),
        decreases line@.len() + 1 - i,
    {
        if text::occurs_at_exec(line, kw.as_slice(), i) {
            let before = if b > 0 {
                nth_char_exec(line, b - 1)
            } else {
                None
            };
            let after = nth_char_exec(line, b + kw_bytes);
            let valid_before = match before {
                None => true,
                Some(c) => c == '(' || c == ' ' || c == '\t',
            };
            let is_br = text::chars_eq_str(kw.as_slice(), "br");
            let valid_after = match after {
                None => true,
                Some(c) => c == ' ' || c == '.' || (c == '_' && is_br) || c == ')' || c == '$'
                    || text::is_ascii_digit_exec(c),
            };
            if valid_before && valid_after {
                return true;
            }
        }
        if i == line.len() {
            proof {
                assert forall|j: int| !(text::occurs_at(line@, keyword@, j) && keyword_match_ok(line@, keyword@, j)) by {
                    if j > line@.len() {
                    }
                }
            }
            return false;
        }
        proof {
            text::lemma_byte_len_take_step(line@, i as int);
        }
        b = b + width_of(line[i]) as u128;
        i = i + 1;
    }
}

} // verus!

verus! {

/// The context that a line's keywords suggest, in order of precedence.
pub open spec fn context_from_line(line: Seq<char>) -> InstructionContext {
    if line_has_keyword(line, "call"@) {
        InstructionContext::Call
    } else if line_has_keyword(line, "global"@) {
        InstructionContext::Global
    } else if line_has_keyword(line, "local"@) {
        InstructionContext::Local
    } else if line_has_keyword(line, "br"@) {
        InstructionContext::Branch
    } else if line_has_keyword(line, "block"@) || line_has_keyword(line, "loop"@) {
        InstructionContext::Block
    } else if text::contains(line, "memory.init"@) || text::contains(line, "data.drop"@)
        || line_has_keyword(line, "data"@) {
        InstructionContext::Data
    } else if text::contains(line, "table.init"@) || text::contains(line, "elem.drop"@)
        || line_has_keyword(line, "elem"@) {
        InstructionContext::Elem
    } else if line_has_keyword(line, "table"@) {
        InstructionContext::Table
    } else if line_has_keyword(line, "memory"@) {
        InstructionContext::Memory
    } else if line_has_keyword(line, "type"@) || line_has_keyword(line, "struct"@)
        || line_has_keyword(line, "array"@) || text::contains(line, "ref."@) {
        InstructionContext::Type
    } else if line_has_keyword(line, "throw"@) || line_has_keyword(line, "tag"@)
        || line_has_keyword(line, "catch"@) {
        InstructionContext::Tag
    } else if line_has_keyword(line, "func"@) {
        InstructionContext::Function
    } else {
        InstructionContext::General
    }
}

/// Determine context from line text (fallback for incomplete code).
pub fn determine_context_from_line(line: &str) -> (c: InstructionContext)
    ensures
        c == context_from_line(line@),
{
    let lv = chars_of(line);
    let l = lv.as_slice();
    if line_contains_keyword(l, "call") {
        InstructionContext::Call
    } else if line_contains_keyword(l, "global") {
        InstructionContext::Global
    } else if line_contains_keyword(l, "local") {
        InstructionContext::Local
    } else if line_contains_keyword(l, "br") {
        InstructionContext::Branch
    } else if line_contains_keyword(l, "block") || line_contains_keyword(l, "loop") {
        InstructionContext::Block
    } else if text::contains_str(l, "memory.init") || text::contains_str(l, "data.drop")
        || line_contains_keyword(l, "data") {
        InstructionContext::Data
    } else if text::contains_str(l, "table.init") || text::contains_str(l, "elem.drop")
        || line_contains_keyword(l, "elem") {
        InstructionContext::Elem
    } else if line_contains_keyword(l, "table") {
        InstructionContext::Table
    } else if line_contains_keyword(l, "memory") {
        InstructionContext::Memory
    } else if line_contains_keyword(l, "type") || line_contains_keyword(l, "struct")
        || line_contains_keyword(l, "array") || text::contains_str(l, "ref.") {
        InstructionContext::Type
    } else if line_contains_keyword(l, "throw") || line_contains_keyword(l, "tag")
        || line_contains_keyword(l, "catch") {
        InstructionContext::Tag
    } else if line_contains_keyword(l, "func") {
        InstructionContext::Function
    } else {
        InstructionContext::General
    }
}

/// Index of the last function that starts at or before `line`.
pub open spec fn containing_function_index(funcs: Seq<Function>, line: u32) -> Option<int>
    decreases funcs.len(),
{
    if funcs.len() == 0 {
        None
    } else if funcs.last().line <= line {
        Some(funcs.len() - 1)
    } else {
        containing_function_index(funcs.drop_last(), line)
    }
}

pub proof fn lemma_containing_function_index(funcs: Seq<Function>, line: u32)
    ensures
        containing_function_index(funcs, line) matches Some(i) ==> 0 <= i < funcs.len()
            && funcs[i].line <= line && forall|j: int| i < j < funcs.len() ==> funcs[j].line > line,
        containing_function_index(funcs, line) is None ==> forall|j: int|
            0 <= j < funcs.len() ==> funcs[j].line > line,
    decreases funcs.len(),
{
    if funcs.len() > 0 && funcs.last().line > line {
        lemma_containing_function_index(funcs.drop_last(), line);
        assert forall|j: int| 0 <= j < funcs.len() - 1 implies funcs.drop_last()[j] == funcs[j] by {}
    }
}

/// The function that contains a position: the last function whose start line
/// is at or before the position's line.
pub fn find_containing_function(symbols: &SymbolTable, position: Position) -> (r: Option<&Function>)
    ensures
        match containing_function_index(symbols.functions@, position.line) {
            Some(i) => r == Some(&symbols.functions@[i]),
            None => r is None,
        },
{
    let funcs = &symbols.functions;
    let mut i = funcs.len();
    assert(funcs@.take(i as int) =~= funcs@);
    while i > 0
        invariant
            i <= funcs@.len(),
            funcs@ == symbols.functions@,
            containing_function_index(funcs@, position.line) == containing_function_index(
                funcs@.take(i as int),
                position.line,
            ),
        decreases i,
    {
        let ghost pre = funcs@.take(i as int);
        assert(pre.last() == funcs@[i - 1]);
        if funcs[i - 1].line <= position.line {
            assert(pre.len() == i);
            assert(containing_function_index(pre, position.line) == Some(i - 1));
            return Some(&funcs[i - 1]);
        }
        assert(pre.drop_last() =~= funcs@.take(i - 1));
        i = i - 1;
    }
    None
}

/// Whether a position lies inside a comment (see `inside_comment`).
pub fn is_inside_comment(source: &str, position: Position) -> (b: bool)
    requires
        text::byte_len(source@) < usize::MAX,
    ensures
        b == crate::hover_core::inside_comment(
            source@,
            crate::syntax::tree_of(source@),
            position_to_byte_spec(source@, position),
        ),
{
    proof {
        text::lemma_byte_len_bound(source@);
    }
    let d = crate::parser::read_doc(source);
    let b = position_to_byte(source, position);
    crate::hover_core::inside_comment_exec(&d, b)
}

/// The syntax node under the cursor (see `cursor_node`).
pub fn node_at_position(source: &str, position: Position) -> (r: Option<crate::syntax::SyntaxNode>)
    requires
        text::byte_len(source@) < usize::MAX,
    ensures
        match crate::references::cursor_node(
            source@,
            crate::syntax::tree_of(source@),
            position_to_byte_spec(source@, position),
        ) {
            Some(k) => r == Some(crate::syntax::tree_of(source@)[k]),
            None => r is None,
        },
{
    proof {
        text::lemma_byte_len_bound(source@);
    }
    let d = crate::parser::read_doc(source);
    let b = position_to_byte(source, position);
    match crate::references::cursor_node_exec(&d, b) {
        Some(k) => Some(d.tree[k]),
        None => None,
    }
}

} // verus!
