//! Character-level text utilities shared by every feature: conversion between
//! `str` and character vectors, UTF-8 widths, and the line structure of a
//! document.
use vstd::prelude::*;
use vstd::string::StringExecFns;

verus! {

/// Number of bytes that the UTF-8 encoding of `c` occupies.
pub open spec fn char_width(c: char) -> nat {
    if (c as u32) < 0x80 {
        1
    } else if (c as u32) < 0x800 {
        2
    } else if (c as u32) < 0x10000 {
        3
    } else {
        4
    }
}

/// Number of bytes of the UTF-8 encoding of a character sequence.
pub open spec fn byte_len(s: Seq<char>) -> nat
    decreases s.len(),
{
    if s.len() == 0 {
        0
    } else {
        byte_len(s.drop_last()) + char_width(s.last())
    }
}

pub proof fn lemma_byte_len_take_step(s: Seq<char>, i: int)
    requires
        0 <= i < s.len(),
    ensures
        byte_len(s.take(i + 1)) == byte_len(s.take(i)) + char_width(s[i]),
{
    assert(s.take(i + 1).drop_last() =~= s.take(i));
}

pub proof fn lemma_byte_len_bound(s: Seq<char>)
    ensures
        s.len() <= byte_len(s) <= 4 * s.len(),
    decreases s.len(),
{
    if s.len() > 0 {
        lemma_byte_len_bound(s.drop_last());
    }
}

pub proof fn lemma_byte_len_concat(a: Seq<char>, b: Seq<char>)
    ensures
        byte_len(a + b) == byte_len(a) + byte_len(b),
    decreases b.len(),
{
    if b.len() > 0 {
        assert((a + b).drop_last() =~= a + b.drop_last());
        lemma_byte_len_concat(a, b.drop_last());
    } else {
        assert(a + b =~= a);
    }
}

/// UTF-8 width of one character.
pub fn width_of(c: char) -> (w: usize)
    ensures
        w == char_width(c),
{
    let u = c as u32;
    if u < 0x80 {
        1
    } else if u < 0x800 {
        2
    } else if u < 0x10000 {
        3
    } else {
        4
    }
}

/// The characters of a string slice, in order.
pub fn chars_of(s: &str) -> (v: Vec<char>)
    ensures
        v@ == s@,
{
    let mut v: Vec<char> = Vec::new();
    for c in it: s.chars()
        invariant
            v@ == it.seq().take(it.index() as int),
    {
        v.push(c);
    }
    v
}

/// Builds a `String` holding exactly the given characters.
pub(crate) fn string_from_chars(v: &[char]) -> (s: String)
    ensures
        s@ == v@,
{
    let mut s = String::new();
    let mut i: usize = 0;
    while i < v.len()
        invariant
            i <= v@.len(),
            s@ == v@.take(i as int),
        decreases v@.len() - i,
    {
        push_char(&mut s, v[i]);
        assert(v@.take(i + 1) =~= v@.take(i as int).push(v@[i as int]));
        i = i + 1;
    }
    assert(v@.take(i as int) =~= v@);
    s
}

/// Appends one character to a `String`.
#[verifier::external_body]
pub(crate) fn push_char(s: &mut String, c: char)
    ensures
        final(s)@ == old(s)@.push(c),
{
    s.push(c);
}

/// Appends a string slice to a `String`.
pub(crate) fn push_str(s: &mut String, t: &str)
    ensures
        final(s)@ == old(s)@ + t@,
{
    s.append(t);
}

/// A new `String` with the contents of `t`.
pub(crate) fn owned(t: &str) -> (s: String)
    ensures
        s@ == t@,
{
    t.to_owned()
}

/// Index of the first `'\n'` at or after `from`, or the length of `s`.
pub open spec fn next_newline(s: Seq<char>, from: int) -> int
    decreases s.len() - from,
{
    if from >= s.len() {
        s.len() as int
    } else if s[from] == '\n' {
        from
    } else {
        next_newline(s, from + 1)
    }
}

/// The character spans `[start, end)` of the lines of `s`, starting at `from`,
/// following `str::lines`: lines end at `'\n'`, a `'\r'` just before a `'\n'`
/// is not part of the line, and a final line ending yields no empty line.
pub open spec fn line_spans_from(s: Seq<char>, from: int) -> Seq<(int, int)>
    decreases s.len() - from,
{
    if from < 0 || from >= s.len() {
        Seq::empty()
    } else {
        let nl = next_newline(s, from);
        proof {
            lemma_next_newline_bounds(s, from);
        }
        if nl >= s.len() {
            seq![(from, s.len() as int)]
        } else {
            let end = if nl > from && s[nl - 1] == '\r' {
                nl - 1
            } else {
                nl
            };
            seq![(from, end)] + line_spans_from(s, nl + 1)
        }
    }
}

pub open spec fn line_spans(s: Seq<char>) -> Seq<(int, int)> {
    line_spans_from(s, 0)
}

/// The lines of `s`, as `str::lines` yields them.
pub open spec fn lines_of(s: Seq<char>) -> Seq<Seq<char>> {
    line_spans(s).map_values(|p: (int, int)| s.subrange(p.0, p.1))
}

pub proof fn lemma_next_newline_bounds(s: Seq<char>, from: int)
    requires
        0 <= from <= s.len(),
    ensures
        from <= next_newline(s, from) <= s.len(),
        next_newline(s, from) < s.len() ==> s[next_newline(s, from)] == '\n',
        forall|j: int| from <= j < next_newline(s, from) ==> s[j] != '\n',
    decreases s.len() - from,
{
    if from < s.len() && s[from] != '\n' {
        lemma_next_newline_bounds(s, from + 1);
    }
}

pub proof fn lemma_line_spans_from_wf(s: Seq<char>, from: int)
    requires
        0 <= from,
    ensures
        forall|k: int|
            0 <= k < line_spans_from(s, from).len() ==> from <= #[trigger] line_spans_from(s, from)[k].0
                <= line_spans_from(s, from)[k].1 <= s.len(),
    decreases s.len() - from,
{
    if from < s.len() {
        lemma_next_newline_bounds(s, from);
        let nl = next_newline(s, from);
        if nl < s.len() {
            lemma_line_spans_from_wf(s, nl + 1);
            let end = if nl > from && s[nl - 1] == '\r' {
                nl - 1
            } else {
                nl
            };
            let rest = line_spans_from(s, nl + 1);
            assert(line_spans_from(s, from) == seq![(from, end)] + rest);
            assert forall|k: int| 0 <= k < line_spans_from(s, from).len() implies from
                <= #[trigger] line_spans_from(s, from)[k].0 <= line_spans_from(s, from)[k].1
                <= s.len() by {
                if k > 0 {
                    assert(line_spans_from(s, from)[k] == rest[k - 1]);
                }
            }
        }
    }
}

pub proof fn lemma_line_spans_wf(s: Seq<char>)
    ensures
        forall|k: int|
            0 <= k < line_spans(s).len() ==> 0 <= #[trigger] line_spans(s)[k].0 <= line_spans(s)[k].1
                <= s.len(),
{
    lemma_line_spans_from_wf(s, 0);
}

/// Character spans of the lines of `s` (see `line_spans`).
pub fn compute_line_spans(s: &[char]) -> (v: Vec<(usize, usize)>)
    ensures
        v@.len() == line_spans(s@).len(),
        forall|k: int|
            0 <= k < v@.len() ==> v@[k].0 as int == line_spans(s@)[k].0 && v@[k].1 as int
                == line_spans(s@)[k].1,
{
    let ghost sq = s@;
    let mut v: Vec<(usize, usize)> = Vec::new();
    let mut start: usize = 0;
    let mut i: usize = 0;
    let n = s.len();
    while i < n
        invariant
            n == s@.len(),
            sq == s@,
            start <= i <= n,
            forall|j: int| start <= j < i ==> sq[j] != '\n',
            next_newline(sq, start as int) == next_newline(sq, i as int),
            v@.len() + line_spans_from(sq, start as int).len() == line_spans(sq).len(),
            forall|k: int|
                0 <= k < v@.len() ==> v@[k].0 as int == line_spans(sq)[k].0 && v@[k].1 as int
                    == line_spans(sq)[k].1,
            forall|k: int|
                0 <= k < line_spans_from(sq, start as int).len() ==> line_spans(sq)[v@.len() + k]
                    == line_spans_from(sq, start as int)[k],
        decreases n - i,
    {
        if s[i] == '\n' {
            let end = if i > start && s[i - 1] == '\r' {
                i - 1
            } else {
                i
            };
            let ghost old_v = v@;
            let ghost old_start = start as int;
            proof {
                assert(next_newline(sq, i as int) == i);
                let rest = line_spans_from(sq, i + 1);
                assert(line_spans_from(sq, start as int) == seq![(start as int, end as int)] + rest);
                assert(line_spans_from(sq, start as int)[0] == (start as int, end as int));
                assert(line_spans(sq)[old_v.len() + 0int] == line_spans_from(sq, start as int)[0]);
            }
            v.push((start, end));
            start = i + 1;
            i = i + 1;
            proof {
                let rest = line_spans_from(sq, start as int);
                assert forall|k: int| 0 <= k < rest.len() implies line_spans(sq)[v@.len() + k]
                    == rest[k] by {
                    assert(line_spans_from(sq, old_start)[k + 1] == rest[k]);
                }
                assert forall|k: int| 0 <= k < v@.len() implies v@[k].0 as int == line_spans(sq)[k].0
                    && v@[k].1 as int == line_spans(sq)[k].1 by {
                    if k < old_v.len() {
                        assert(v@[k] == old_v[k]);
                    }
                }
            }
        } else {
            proof {
                assert(next_newline(sq, i as int) == next_newline(sq, i + 1));
            }
            i = i + 1;
        }
    }
    if start < n {
        proof {
            assert(next_newline(sq, i as int) == n);
            assert(line_spans_from(sq, start as int) == seq![(start as int, n as int)]);
            assert(line_spans_from(sq, start as int)[0] == (start as int, n as int));
            assert(line_spans(sq)[v@.len() + 0int] == line_spans_from(sq, start as int)[0]);
        }
        let ghost old_v = v@;
        v.push((start, n));
        proof {
            assert forall|k: int| 0 <= k < v@.len() implies v@[k].0 as int == line_spans(sq)[k].0
                && v@[k].1 as int == line_spans(sq)[k].1 by {
                if k < old_v.len() {
                    assert(v@[k] == old_v[k]);
                }
            }
        }
    } else {
        assert(line_spans_from(sq, start as int).len() == 0);
    }
    v
}

} // verus!

verus! {

/// The decimal digit character for `d` (0..=9).
pub open spec fn digit_char_spec(d: int) -> char {
    if d == 0 {
        '0'
    } else if d == 1 {
        '1'
    } else if d == 2 {
        '2'
    } else if d == 3 {
        '3'
    } else if d == 4 {
        '4'
    } else if d == 5 {
        '5'
    } else if d == 6 {
        '6'
    } else if d == 7 {
        '7'
    } else if d == 8 {
        '8'
    } else {
        '9'
    }
}

/// Decimal representation of a natural number, without leading zeros.
pub open spec fn decimal(n: nat) -> Seq<char>
    decreases n,
{
    if n < 10 {
        seq![digit_char_spec(n as int)]
    } else {
        decimal(n / 10).push(digit_char_spec((n % 10) as int))
    }
}

fn digit_char(d: u64) -> (c: char)
    requires
        d < 10,
    ensures
        c == digit_char_spec(d as int),
{
    if d == 0 {
        '0'
    } else if d == 1 {
        '1'
    } else if d == 2 {
        '2'
    } else if d == 3 {
        '3'
    } else if d == 4 {
        '4'
    } else if d == 5 {
        '5'
    } else if d == 6 {
        '6'
    } else if d == 7 {
        '7'
    } else if d == 8 {
        '8'
    } else {
        '9'
    }
}

/// Appends the decimal representation of `n`.
pub fn push_decimal(s: &mut String, n: u64)
    ensures
        final(s)@ == old(s)@ + decimal(n as nat),
    decreases n,
{
    if n >= 10 {
        push_decimal(s, n / 10);
    }
    push_char(s, digit_char(n % 10));
    proof {
        if n < 10 {
            assert(old(s)@ + decimal(n as nat) =~= old(s)@.push(digit_char_spec(n as int)));
        } else {
            assert(old(s)@ + decimal(n as nat) =~= (old(s)@ + decimal((n / 10) as nat)).push(
                digit_char_spec((n % 10) as int),
            ));
        }
    }
}

/// The decimal representation of `n` as a new `String`.
pub fn decimal_string(n: u64) -> (s: String)
    ensures
        s@ == decimal(n as nat),
{
    let mut s = String::new();
    push_decimal(&mut s, n);
    assert(s@ =~= decimal(n as nat));
    s
}

/// Whether two character sequences are equal.
pub fn chars_eq(a: &[char], b: &[char]) -> (r: bool)
    ensures
        r == (a@ == b@),
{
    if a.len() != b.len() {
        return false;
    }
    let mut i: usize = 0;
    while i < a.len()
        invariant
            a@.len() == b@.len(),
            i <= a@.len(),
            forall|j: int| 0 <= j < i ==> a@[j] == b@[j],
        decreases a@.len() - i,
    {
        if a[i] != b[i] {
            return false;
        }
        i = i + 1;
    }
    assert(a@ =~= b@);
    true
}

/// Whether a character sequence equals a string slice.
pub fn chars_eq_str(a: &[char], b: &str) -> (r: bool)
    ensures
        r == (a@ == b@),
{
    let bv = chars_of(b);
    chars_eq(a, bv.as_slice())
}

/// Whether two string slices are equal.
pub fn str_eq(a: &str, b: &str) -> (r: bool)
    ensures
        r == (a@ == b@),
{
    let av = chars_of(a);
    chars_eq_str(av.as_slice(), b)
}

/// The view of an optional `String`.
pub open spec fn opt_view(o: Option<String>) -> Option<Seq<char>> {
    match o {
        Some(s) => Some(s@),
        None => None,
    }
}

/// Whether an optional name is present and equal to `name`.
pub fn opt_name_is(o: &Option<String>, name: &str) -> (r: bool)
    ensures
        r == (opt_view(*o) == Some(name@)),
{
    match o {
        Some(s) => str_eq(s.as_str(), name),
        None => false,
    }
}

/// A copy of an optional `String`.
pub fn clone_opt_string(o: &Option<String>) -> (r: Option<String>)
    ensures
        opt_view(r) == opt_view(*o),
{
    match o {
        Some(s) => Some(s.clone()),
        None => None,
    }
}

} // verus!

verus! {

pub open spec fn starts_with(s: Seq<char>, p: Seq<char>) -> bool {
    p.len() <= s.len() && s.take(p.len() as int) == p
}

pub open spec fn ends_with(s: Seq<char>, p: Seq<char>) -> bool {
    p.len() <= s.len() && s.skip(s.len() - p.len()) == p
}

/// `p` occurs in `s` starting at position `i`.
pub open spec fn occurs_at(s: Seq<char>, p: Seq<char>, i: int) -> bool {
    0 <= i && i + p.len() <= s.len() && s.subrange(i, i + p.len()) == p
}

pub open spec fn contains(s: Seq<char>, p: Seq<char>) -> bool {
    exists|i: int| occurs_at(s, p, i)
}

/// Position of the first occurrence of `p` in `s`.
pub open spec fn find_first(s: Seq<char>, p: Seq<char>) -> Option<int> {
    if contains(s, p) {
        Some(choose|i: int| occurs_at(s, p, i) && forall|j: int| 0 <= j < i ==> !occurs_at(s, p, j))
    } else {
        None
    }
}

/// Position of the last occurrence of `p` in `s`.
pub open spec fn find_last(s: Seq<char>, p: Seq<char>) -> Option<int> {
    if contains(s, p) {
        Some(choose|i: int| occurs_at(s, p, i) && forall|j: int| i < j ==> !occurs_at(s, p, j))
    } else {
        None
    }
}

/// Whether `p` occurs at position `i` of `s`.
pub fn occurs_at_exec(s: &[char], p: &[char], i: usize) -> (r: bool)
    ensures
        r == occurs_at(s@, p@, i as int),
{
    if i > s.len() || p.len() > s.len() - i {
        return false;
    }
    let mut k: usize = 0;
    while k < p.len()
        invariant
            i + p@.len() <= s@.len(),
            s@.len() <= usize::MAX,
            k <= p@.len(),
            forall|j: int| 0 <= j < k ==> s@[i + j] == p@[j],
        decreases p@.len() - k,
    {
        if s[i + k] != p[k] {
            assert(s@.subrange(i as int, i + p@.len())[k as int] != p@[k as int]);
            return false;
        }
        k = k + 1;
    }
    assert(s@.subrange(i as int, i + p@.len()) =~= p@);
    true
}

/// Whether `s` starts with the string `p`.
pub fn starts_with_str(s: &[char], p: &str) -> (r: bool)
    ensures
        r == starts_with(s@, p@),
{
    let pv = chars_of(p);
    let r = occurs_at_exec(s, pv.as_slice(), 0);
    proof {
        if r {
            assert(s@.take(p@.len() as int) =~= s@.subrange(0, p@.len() as int));
        } else if p@.len() <= s@.len() {
            assert(s@.take(p@.len() as int) =~= s@.subrange(0, p@.len() as int));
        }
    }
    r
}

/// Whether `s` ends with the string `p`.
pub fn ends_with_str(s: &[char], p: &str) -> (r: bool)
    ensures
        r == ends_with(s@, p@),
{
    let pv = chars_of(p);
    if pv.len() > s.len() {
        return false;
    }
    let r = occurs_at_exec(s, pv.as_slice(), s.len() - pv.len());
    proof {
        assert(s@.skip(s@.len() - p@.len()) =~= s@.subrange(s@.len() - p@.len(), s@.len() as int));
    }
    r
}

/// Position of the first occurrence of `p` in `s` at or after `from`.
pub fn find_from(s: &[char], p: &[char], from: usize) -> (r: Option<usize>)
    ensures
        match r {
            Some(i) => from <= i && occurs_at(s@, p@, i as int) && forall|j: int|
                from <= j < i ==> !occurs_at(s@, p@, j),
            None => forall|j: int| from <= j ==> !occurs_at(s@, p@, j),
        },
{
    if from > s.len() {
        return None;
    }
    let mut i = from;
    while i < s.len()
        invariant
            from <= i <= s@.len(),
            forall|j: int| from <= j < i ==> !occurs_at(s@, p@, j),
        decreases s@.len() - i,
    {
        if occurs_at_exec(s, p, i) {
            return Some(i);
        }
        i = i + 1;
    }
    if occurs_at_exec(s, p, i) {
        return Some(i);
    }
    None
}

/// Position of the first occurrence of `p` in `s`.
pub fn find_first_exec(s: &[char], p: &[char]) -> (r: Option<usize>)
    ensures
        r matches Some(i) ==> find_first(s@, p@) == Some(i as int),
        r is None ==> find_first(s@, p@) is None,
{
    let r = find_from(s, p, 0);
    proof {
        match r {
            Some(i) => {
                assert(contains(s@, p@));
                let c = choose|k: int| occurs_at(s@, p@, k) && forall|j: int| 0 <= j < k ==> !occurs_at(s@, p@, j);
                assert(occurs_at(s@, p@, c) && forall|j: int| 0 <= j < c ==> !occurs_at(s@, p@, j));
                if c < i {
                } else if c > i {
                    assert(!occurs_at(s@, p@, i as int));
                }
            },
            None => {
                assert forall|k: int| !occurs_at(s@, p@, k) by {
                    if 0 <= k {
                    }
                }
            },
        }
    }
    r
}

/// Whether the string `p` occurs in `s`.
pub fn contains_str(s: &[char], p: &str) -> (r: bool)
    ensures
        r == contains(s@, p@),
{
    let pv = chars_of(p);
    let r = find_from(s, pv.as_slice(), 0);
    proof {
        if r.is_none() {
            assert forall|k: int| !occurs_at(s@, p@, k) by {
                if 0 <= k {
                }
            }
        }
    }
    r.is_some()
}

/// Position of the last occurrence of `p` in `s`.
pub fn find_last_exec(s: &[char], p: &[char]) -> (r: Option<usize>)
    ensures
        r matches Some(i) ==> find_last(s@, p@) == Some(i as int),
        r is None ==> find_last(s@, p@) is None,
{
    if occurs_at_exec(s, p, s.len()) {
        proof {
            let k = s@.len() as int;
            assert(contains(s@, p@));
            let c = choose|m: int| occurs_at(s@, p@, m) && forall|j: int| m < j ==> !occurs_at(s@, p@, j);
            assert(occurs_at(s@, p@, c) && forall|j: int| c < j ==> !occurs_at(s@, p@, j));
            if c < k {
            } else if c > k {
            }
        }
        return Some(s.len());
    }
    let mut i = s.len();
    while i > 0
        invariant
            i <= s@.len(),
            forall|j: int| i <= j ==> !occurs_at(s@, p@, j),
        decreases i,
    {
        if occurs_at_exec(s, p, i - 1) {
            proof {
                let k = (i - 1) as int;
                assert(contains(s@, p@));
                let c = choose|m: int| occurs_at(s@, p@, m) && forall|j: int| m < j ==> !occurs_at(s@, p@, j);
                assert(occurs_at(s@, p@, c) && forall|j: int| c < j ==> !occurs_at(s@, p@, j));
                if c < k {
                } else if c > k {
                }
            }
            return Some(i - 1);
        }
        i = i - 1;
    }
    proof {
        assert forall|k: int| !occurs_at(s@, p@, k) by {
            if 0 <= k {
            }
        }
    }
    None
}

} // verus!

verus! {

pub proof fn lemma_find_last_bound(s: Seq<char>, p: Seq<char>)
    ensures
        find_last(s, p) matches Some(i) ==> occurs_at(s, p, i) && forall|j: int|
            i < j ==> !occurs_at(s, p, j),
        find_last(s, p) is None ==> forall|j: int| !occurs_at(s, p, j),
{
    if contains(s, p) {
        let w = choose|i: int| occurs_at(s, p, i);
        assert(occurs_at(s, p, w));
        // the last occurrence exists: occurrences are bounded by s.len()
        lemma_last_occurrence_exists(s, p, w);
    }
}

proof fn lemma_last_occurrence_exists(s: Seq<char>, p: Seq<char>, w: int)
    requires
        occurs_at(s, p, w),
    ensures
        exists|i: int| occurs_at(s, p, i) && forall|j: int| i < j ==> !occurs_at(s, p, j),
    decreases s.len() - w,
{
    if exists|k: int| w < k && occurs_at(s, p, k) {
        let k = choose|k: int| w < k && occurs_at(s, p, k);
        lemma_last_occurrence_exists(s, p, k);
    } else {
        assert(forall|j: int| w < j ==> !occurs_at(s, p, j));
    }
}

pub proof fn lemma_find_first_bound(s: Seq<char>, p: Seq<char>)
    ensures
        find_first(s, p) matches Some(i) ==> occurs_at(s, p, i) && forall|j: int|
            0 <= j < i ==> !occurs_at(s, p, j),
        find_first(s, p) is None ==> forall|j: int| !occurs_at(s, p, j),
{
    if contains(s, p) {
        let w = choose|i: int| occurs_at(s, p, i);
        lemma_first_occurrence_exists(s, p, w);
    }
}

proof fn lemma_first_occurrence_exists(s: Seq<char>, p: Seq<char>, w: int)
    requires
        occurs_at(s, p, w),
    ensures
        exists|i: int| occurs_at(s, p, i) && forall|j: int| 0 <= j < i ==> !occurs_at(s, p, j),
    decreases w,
{
    if exists|k: int| 0 <= k < w && occurs_at(s, p, k) {
        let k = choose|k: int| 0 <= k < w && occurs_at(s, p, k);
        lemma_first_occurrence_exists(s, p, k);
    } else {
        assert(forall|j: int| 0 <= j < w ==> !occurs_at(s, p, j));
    }
}

} // verus!

verus! {

/// A copy of `s[from..to]`.
pub fn sub_chars(s: &[char], from: usize, to: usize) -> (v: Vec<char>)
    requires
        from <= to <= s@.len(),
    ensures
        v@ == s@.subrange(from as int, to as int),
{
    let mut v: Vec<char> = Vec::new();
    let mut i = from;
    while i < to
        invariant
            from <= i <= to <= s@.len(),
            v@ == s@.subrange(from as int, i as int),
        decreases to - i,
    {
        v.push(s[i]);
        assert(v@ =~= s@.subrange(from as int, i + 1));
        i = i + 1;
    }
    v
}

} // verus!

verus! {

/// The answer of `char::is_alphanumeric` (Unicode Alphabetic or Numeric).
pub uninterp spec fn unicode_alphanumeric(c: char) -> bool;

pub open spec fn is_ascii_digit(c: char) -> bool {
    '0' <= c && c <= '9'
}

pub open spec fn is_ascii_alnum(c: char) -> bool {
    is_ascii_digit(c) || ('a' <= c && c <= 'z') || ('A' <= c && c <= 'Z')
}

/// Calls `char::is_alphanumeric`. Its result is named `unicode_alphanumeric`;
/// for ASCII characters the documentation fixes it to the letters and digits.
#[verifier::external_body]
pub(crate) fn is_alphanumeric(c: char) -> (b: bool)
    ensures
        b == unicode_alphanumeric(c),
        (c as u32) < 0x80 ==> (b == is_ascii_alnum(c)),
{
    c.is_alphanumeric()
}

/// Whether `c` is an ASCII decimal digit.
pub fn is_ascii_digit_exec(c: char) -> (b: bool)
    ensures
        b == is_ascii_digit(c),
{
    '0' <= c && c <= '9'
}

/// Byte length of the UTF-8 encoding of `s`.
pub fn byte_len_exec(s: &[char]) -> (n: u128)
    ensures
        n == byte_len(s@),
{
    let mut n: u128 = 0;
    let mut i: usize = 0;
    while i < s.len()
        invariant
            i <= s@.len(),
            n == byte_len(s@.take(i as int)),
            n <= 4 * i,
        decreases s@.len() - i,
    {
        proof {
            lemma_byte_len_take_step(s@, i as int);
        }
        n = n + width_of(s[i]) as u128;
        i = i + 1;
    }
    assert(s@.take(i as int) =~= s@);
    n
}

} // verus!

verus! {

/// Sum over the first `k` spans of their byte length plus one (a newline).
pub open spec fn span_bytes(s: Seq<char>, spans: Seq<(int, int)>, k: int) -> int
    decreases k,
{
    if k <= 0 {
        0
    } else {
        span_bytes(s, spans, k - 1) + byte_len(s.subrange(spans[k - 1].0, spans[k - 1].1)) + 1
    }
}

proof fn lemma_span_bytes_cons(s: Seq<char>, x: (int, int), rest: Seq<(int, int)>, k: int)
    requires
        1 <= k <= rest.len() + 1,
    ensures
        span_bytes(s, seq![x] + rest, k) == byte_len(s.subrange(x.0, x.1)) + 1 + span_bytes(
            s,
            rest,
            k - 1,
        ),
    decreases k,
{
    let xs = seq![x] + rest;
    if k > 1 {
        lemma_span_bytes_cons(s, x, rest, k - 1);
        assert(xs[k - 1] == rest[k - 2]);
        assert(span_bytes(s, xs, k) == span_bytes(s, xs, k - 1) + byte_len(
            s.subrange(xs[k - 1].0, xs[k - 1].1),
        ) + 1);
        assert(span_bytes(s, rest, k - 1) == span_bytes(s, rest, k - 2) + byte_len(
            s.subrange(rest[k - 2].0, rest[k - 2].1),
        ) + 1);
    } else {
        assert(xs[0] == x);
        assert(span_bytes(s, xs, 1) == span_bytes(s, xs, 0) + byte_len(s.subrange(xs[0].0, xs[0].1))
            + 1);
    }
}

pub proof fn lemma_byte_len_subrange_split(s: Seq<char>, a: int, m: int, b: int)
    requires
        0 <= a <= m <= b <= s.len(),
    ensures
        byte_len(s.subrange(a, b)) == byte_len(s.subrange(a, m)) + byte_len(s.subrange(m, b)),
{
    assert(s.subrange(a, b) =~= s.subrange(a, m) + s.subrange(m, b));
    lemma_byte_len_concat(s.subrange(a, m), s.subrange(m, b));
}

proof fn lemma_span_bytes_from(s: Seq<char>, from: int, k: int)
    requires
        0 <= from <= s.len(),
        0 <= k <= line_spans_from(s, from).len(),
    ensures
        span_bytes(s, line_spans_from(s, from), k) <= byte_len(s.subrange(from, s.len() as int)) + 1,
    decreases s.len() - from,
{
    if k > 0 && from < s.len() {
        lemma_next_newline_bounds(s, from);
        let nl = next_newline(s, from);
        if nl >= s.len() {
            let sp = line_spans_from(s, from);
            assert(sp == seq![(from, s.len() as int)]);
            assert(span_bytes(s, sp, 1) == span_bytes(s, sp, 0) + byte_len(s.subrange(sp[0].0, sp[0].1))
                + 1);
        } else {
            let end = if nl > from && s[nl - 1] == '\r' {
                nl - 1
            } else {
                nl
            };
            let rest = line_spans_from(s, nl + 1);
            assert(line_spans_from(s, from) == seq![(from, end)] + rest);
            lemma_span_bytes_cons(s, (from, end), rest, k);
            lemma_span_bytes_from(s, nl + 1, k - 1);
            lemma_byte_len_subrange_split(s, from, end, nl);
            lemma_byte_len_subrange_split(s, from, nl, nl + 1);
            lemma_byte_len_subrange_split(s, from, nl + 1, s.len() as int);
            assert(s.subrange(nl, nl + 1) =~= seq!['\n']);
            assert(seq!['\n'].drop_last() =~= Seq::<char>::empty());
            assert(char_width('\n') == 1);
            assert(seq!['\n'].last() == '\n');
            assert(byte_len(Seq::<char>::empty()) == 0);
            assert(byte_len(seq!['\n']) == byte_len(seq!['\n'].drop_last()) + char_width(
                seq!['\n'].last(),
            ));
            assert(byte_len(seq!['\n']) == 1);
        }
    }
}

/// The spans of all lines, with their newlines, take at most one byte more
/// than the text.
pub proof fn lemma_span_bytes_bound(s: Seq<char>, k: int)
    requires
        0 <= k <= line_spans(s).len(),
    ensures
        span_bytes(s, line_spans(s), k) <= byte_len(s) + 1,
        k < line_spans(s).len() ==> span_bytes(s, line_spans(s), k) + byte_len(
            s.subrange(line_spans(s)[k].0, line_spans(s)[k].1),
        ) <= byte_len(s),
{
    lemma_span_bytes_from(s, 0, k);
    assert(s.subrange(0, s.len() as int) =~= s);
    if k < line_spans(s).len() {
        lemma_span_bytes_from(s, 0, k + 1);
    }
}

} // verus!

verus! {

/// Number of occurrences of `c` in `s`.
pub open spec fn count_char(s: Seq<char>, c: char) -> nat
    decreases s.len(),
{
    if s.len() == 0 {
        0
    } else {
        count_char(s.drop_last(), c) + if s.last() == c {
            1nat
        } else {
            0nat
        }
    }
}

/// Number of occurrences of `c` in `s`.
pub fn count_char_exec(s: &[char], c: char) -> (n: usize)
    ensures
        n == count_char(s@, c),
{
    let mut n: usize = 0;
    let mut i: usize = 0;
    while i < s.len()
        invariant
            i <= s@.len(),
            n == count_char(s@.take(i as int), c),
            n <= i,
        decreases s@.len() - i,
    {
        assert(s@.take(i + 1).drop_last() =~= s@.take(i as int));
        if s[i] == c {
            n = n + 1;
        }
        i = i + 1;
    }
    assert(s@.take(i as int) =~= s@);
    n
}

/// `c` is the character index at which byte offset `b` of `s` falls.
pub open spec fn is_boundary_index(s: Seq<char>, b: int, c: int) -> bool {
    0 <= c <= s.len() && byte_len(s.take(c)) == b
}

/// Byte offset `b` of `s` falls between two characters (or at an end).
pub open spec fn is_char_boundary(s: Seq<char>, b: int) -> bool {
    exists|c: int| is_boundary_index(s, b, c)
}

/// The character index at which byte offset `b` falls.
pub open spec fn char_index_of_byte(s: Seq<char>, b: int) -> int {
    choose|c: int| is_boundary_index(s, b, c)
}

proof fn lemma_byte_len_take_strict(s: Seq<char>, c1: int, c2: int)
    requires
        0 <= c1 < c2 <= s.len(),
    ensures
        byte_len(s.take(c1)) < byte_len(s.take(c2)),
    decreases c2 - c1,
{
    lemma_byte_len_take_step(s, c2 - 1);
    if c1 < c2 - 1 {
        lemma_byte_len_take_strict(s, c1, c2 - 1);
    }
}

pub proof fn lemma_boundary_index_unique(s: Seq<char>, b: int, c: int)
    requires
        is_boundary_index(s, b, c),
    ensures
        char_index_of_byte(s, b) == c,
{
    let d = char_index_of_byte(s, b);
    assert(is_boundary_index(s, b, d));
    if d < c {
        lemma_byte_len_take_strict(s, d, c);
    } else if c < d {
        lemma_byte_len_take_strict(s, c, d);
    }
}

/// Whether byte offset `b` of `s` falls between two characters.
pub fn is_char_boundary_exec(s: &[char], b: usize) -> (r: bool)
    ensures
        r == is_char_boundary(s@, b as int),
{
    let mut c: usize = 0;
    let mut acc: u128 = 0;
    while c < s.len() && acc < b as u128
        invariant
            0 <= c <= s@.len(),
            acc == byte_len(s@.take(c as int)),
            acc <= 4 * c,
            forall|d: int| 0 <= d < c ==> byte_len(#[trigger] s@.take(d)) < b,
        decreases s@.len() - c,
    {
        proof {
            lemma_byte_len_take_step(s@, c as int);
        }
        acc = acc + width_of(s[c]) as u128;
        c = c + 1;
    }
    if acc == b as u128 {
        assert(is_boundary_index(s@, b as int, c as int));
        true
    } else {
        assert forall|d: int| !is_boundary_index(s@, b as int, d) by {
            if 0 <= d <= s@.len() {
                if d > c {
                    lemma_byte_len_take_strict(s@, c as int, d);
                }
            }
        }
        false
    }
}

/// The character index at which byte offset `b` falls.
pub fn char_index_at_byte(s: &[char], b: usize) -> (c: usize)
    requires
        is_char_boundary(s@, b as int),
    ensures
        c == char_index_of_byte(s@, b as int),
        is_boundary_index(s@, b as int, c as int),
{
    let ghost target = char_index_of_byte(s@, b as int);
    proof {
        assert(is_boundary_index(s@, b as int, target));
    }
    let mut c: usize = 0;
    let mut acc: u128 = 0;
    while acc < b as u128
        invariant
            0 <= c <= target <= s@.len(),
            is_boundary_index(s@, b as int, target),
            acc == byte_len(s@.take(c as int)),
            acc <= 4 * c,
        decreases target - c,
    {
        proof {
            if c as int == target {
                assert(acc == b);
                assert(false);
            }
            lemma_byte_len_take_step(s@, c as int);
        }
        acc = acc + width_of(s[c]) as u128;
        c = c + 1;
    }
    proof {
        if c < target {
            lemma_byte_len_take_strict(s@, c as int, target);
        }
        lemma_boundary_index_unique(s@, b as int, c as int);
    }
    c
}

} // verus!

verus! {

pub proof fn lemma_byte_len_take_strict_pub(s: Seq<char>, c1: int, c2: int)
    requires
        0 <= c1 < c2 <= s.len(),
    ensures
        byte_len(s.take(c1)) < byte_len(s.take(c2)),
{
    lemma_byte_len_take_strict(s, c1, c2);
}

} // verus!

verus! {

/// The answer of `char::is_whitespace` (Unicode White_Space).
pub uninterp spec fn unicode_whitespace(c: char) -> bool;

/// Calls `char::is_whitespace`. Its result is named `unicode_whitespace`; for
/// ASCII characters the documentation fixes it to space, tab, line feed,
/// vertical tab, form feed and carriage return.
#[verifier::external_body]
pub(crate) fn is_whitespace(c: char) -> (b: bool)
    ensures
        b == unicode_whitespace(c),
        (c as u32) < 0x80 ==> (b == (c == ' ' || c == '\t' || c == '\n' || c == '\u{0B}'
            || c == '\u{0C}' || c == '\r')),
{
    c.is_whitespace()
}

/// Index of the first non-whitespace character at or after `i`.
pub open spec fn skip_ws(s: Seq<char>, i: int) -> int
    decreases s.len() - i,
{
    if 0 <= i < s.len() && unicode_whitespace(s[i]) {
        skip_ws(s, i + 1)
    } else {
        i
    }
}

/// End of `s[..j]` with trailing whitespace removed, not going below `lo`.
pub open spec fn back_ws(s: Seq<char>, j: int, lo: int) -> int
    decreases j - lo,
{
    if lo < j && unicode_whitespace(s[j - 1]) {
        back_ws(s, j - 1, lo)
    } else {
        j
    }
}

/// `s` without leading and trailing whitespace, as `str::trim` gives it.
pub open spec fn trimmed(s: Seq<char>) -> Seq<char> {
    let a = skip_ws(s, 0);
    s.subrange(a, back_ws(s, s.len() as int, a))
}

proof fn lemma_skip_ws(s: Seq<char>, i: int)
    requires
        0 <= i <= s.len(),
    ensures
        i <= skip_ws(s, i) <= s.len(),
    decreases s.len() - i,
{
    if i < s.len() && unicode_whitespace(s[i]) {
        lemma_skip_ws(s, i + 1);
    }
}

proof fn lemma_back_ws(s: Seq<char>, j: int, lo: int)
    requires
        0 <= lo <= j <= s.len(),
    ensures
        lo <= back_ws(s, j, lo) <= j,
    decreases j - lo,
{
    if lo < j && unicode_whitespace(s[j - 1]) {
        lemma_back_ws(s, j - 1, lo);
    }
}

/// The characters of `s` without leading and trailing whitespace.
pub fn trim_chars(s: &[char]) -> (r: Vec<char>)
    ensures
        r@ == trimmed(s@),
{
    let n = s.len();
    let mut a: usize = 0;
    while a < n && is_whitespace(s[a])
        invariant
            a <= n == s@.len(),
            skip_ws(s@, 0) == skip_ws(s@, a as int),
        decreases n - a,
    {
        a = a + 1;
    }
    let mut b: usize = n;
    while a < b && is_whitespace(s[b - 1])
        invariant
            a <= b <= n == s@.len(),
            skip_ws(s@, 0) == a,
            back_ws(s@, n as int, a as int) == back_ws(s@, b as int, a as int),
        decreases b - a,
    {
        b = b - 1;
    }
    sub_chars(s, a, b)
}

} // verus!

verus! {

/// The UTF-8 encoding that `str` gives a character sequence has `byte_len` bytes.
pub proof fn lemma_encode_utf8_len(s: Seq<char>)
    ensures
        vstd::utf8::encode_utf8(s).len() == byte_len(s),
    decreases s.len(),
{
    if s.len() > 0 {
        lemma_encode_utf8_len(s.drop_first());
        lemma_byte_len_concat(seq![s[0]], s.drop_first());
        assert(seq![s[0]] + s.drop_first() =~= s);
        assert(seq![s[0]].drop_last() =~= Seq::<char>::empty());
        let c = s[0];
        vstd::utf8::char_is_scalar(c);
        assert(vstd::utf8::encode_scalar(c as u32).len() == char_width(c));
        assert(seq![c].last() == c);
        assert(byte_len(Seq::<char>::empty()) == 0);
        assert(seq![c].drop_last() == Seq::<char>::empty());
        assert(byte_len(seq![c]) == byte_len(seq![c].drop_last()) + char_width(c));
        assert(byte_len(seq![c]) == char_width(c));
        assert(vstd::utf8::encode_utf8(s) == vstd::utf8::encode_scalar(s[0] as u32)
            + vstd::utf8::encode_utf8(s.drop_first()));
    }
}

/// Byte length of the UTF-8 encoding of a string slice.
pub fn str_byte_len(t: &str) -> (n: usize)
    ensures
        n == byte_len(t@),
{
    let b = t.as_bytes();
    proof {
        lemma_encode_utf8_len(t@);
    }
    b.len()
}

} // verus!

verus! {

/// The lines of `s`, as `str::lines` yields them.
pub fn lines_exec(s: &[char]) -> (r: Vec<Vec<char>>)
    ensures
        r.deep_view() == lines_of(s@),
{
    let spans = compute_line_spans(s);
    proof {
        lemma_line_spans_wf(s@);
    }
    let mut r: Vec<Vec<char>> = Vec::new();
    let mut i: usize = 0;
    while i < spans.len()
        invariant
            i <= spans@.len(),
            spans@.len() == line_spans(s@).len(),
            forall|k: int|
                0 <= k < spans@.len() ==> spans@[k].0 as int == line_spans(s@)[k].0 && spans@[k].1 as int
                    == line_spans(s@)[k].1,
            forall|k: int|
                0 <= k < line_spans(s@).len() ==> 0 <= #[trigger] line_spans(s@)[k].0 <= line_spans(s@)[k].1
                    <= s@.len(),
            r.deep_view() =~= lines_of(s@).take(i as int),
        decreases spans@.len() - i,
    {
        let (a, b) = spans[i];
        assert(0 <= line_spans(s@)[i as int].0 <= line_spans(s@)[i as int].1 <= s@.len());
        let line = sub_chars(s, a, b);
        let ghost old_r = r.deep_view();
        let ghost old_v = r@;
        assert(line.deep_view() =~= line@);
        r.push(line);
        assert(r.deep_view() =~= old_r.push(line@)) by {
            assert forall|k: int| 0 <= k < r.deep_view().len() implies r.deep_view()[k] == old_r.push(line@)[k] by {
                if k < old_r.len() {
                    assert(r@[k] == old_v[k]);
                }
            }
        }
        assert(lines_of(s@).take(i + 1) =~= lines_of(s@).take(i as int).push(lines_of(s@)[i as int]));
        i = i + 1;
    }
    assert(lines_of(s@).take(i as int) =~= lines_of(s@));
    r
}

} // verus!

verus! {

/// The parts, with `sep` between each two neighbours.
pub open spec fn join(parts: Seq<Seq<char>>, sep: Seq<char>) -> Seq<char>
    decreases parts.len(),
{
    if parts.len() == 0 {
        Seq::empty()
    } else if parts.len() == 1 {
        parts[0]
    } else {
        join(parts.drop_last(), sep) + sep + parts.last()
    }
}

/// The strings joined with `sep`.
pub fn join_strings(parts: &Vec<String>, sep: &str) -> (r: String)
    ensures
        r@ == join(parts@.map_values(|s: String| s@), sep@),
{
    let mut r = String::new();
    let mut i: usize = 0;
    while i < parts.len()
        invariant
            i <= parts@.len(),
            r@ == join(parts@.map_values(|s: String| s@).take(i as int), sep@),
        decreases parts@.len() - i,
    {
        let ghost pre = parts@.map_values(|s: String| s@).take(i as int);
        let ghost next = parts@.map_values(|s: String| s@).take(i + 1);
        assert(next.drop_last() =~= pre);
        if i > 0 {
            r.append(sep);
        } else {
            assert(pre =~= Seq::<Seq<char>>::empty());
        }
        r.append(parts[i].as_str());
        proof {
            if i == 0 {
                assert(next.len() == 1);
                assert(r@ =~= next[0]);
            } else {
                assert(r@ =~= join(pre, sep@) + sep@ + next.last());
            }
        }
        i = i + 1;
    }
    assert(parts@.map_values(|s: String| s@).take(i as int) =~= parts@.map_values(|s: String| s@));
    r
}

} // verus!

verus! {

/// `s` without leading whitespace, as `str::trim_start` gives it.
pub open spec fn trim_start(s: Seq<char>) -> Seq<char> {
    s.skip(skip_ws(s, 0))
}

/// `s` without trailing whitespace, as `str::trim_end` gives it.
pub open spec fn trim_end(s: Seq<char>) -> Seq<char> {
    s.take(back_ws(s, s.len() as int, 0))
}

pub fn trim_start_chars(s: &[char]) -> (r: Vec<char>)
    ensures
        r@ == trim_start(s@),
{
    let n = s.len();
    let mut a: usize = 0;
    while a < n && is_whitespace(s[a])
        invariant
            a <= n == s@.len(),
            skip_ws(s@, 0) == skip_ws(s@, a as int),
        decreases n - a,
    {
        a = a + 1;
    }
    let r = sub_chars(s, a, n);
    assert(r@ =~= trim_start(s@));
    r
}

pub fn trim_end_chars(s: &[char]) -> (r: Vec<char>)
    ensures
        r@ == trim_end(s@),
{
    let n = s.len();
    let mut b: usize = n;
    while 0 < b && is_whitespace(s[b - 1])
        invariant
            b <= n == s@.len(),
            back_ws(s@, n as int, 0) == back_ws(s@, b as int, 0),
        decreases b,
    {
        b = b - 1;
    }
    let r = sub_chars(s, 0, b);
    assert(r@ =~= trim_end(s@));
    r
}

} // verus!
