//! The WAT concrete syntax: a lexer that splits a document into tokens and a
//! builder that nests them into a tree of parenthesized lists.
use vstd::prelude::*;
use crate::text;
use crate::text::chars_of;

verus! {

/// Kind of a token or tree node.
#[derive(Debug, Clone, Copy, PartialEq, Eq, Structural)]
pub enum NodeKind {
    /// The whole document.
    Root,
    /// A parenthesized list `( ... )`.
    List,
    /// A keyword or other bare word (`func`, `i32.add`, `@name`, `offset=4`).
    Keyword,
    /// An identifier: a word starting with `$`.
    Identifier,
    /// A numeric literal: a word starting with a decimal digit.
    Number,
    /// A string literal in double quotes.
    Str,
    /// `;;` to the end of the line.
    LineComment,
    /// `(; ... ;)`, possibly nested.
    BlockComment,
    /// `(`
    LParen,
    /// `)`
    RParen,
}

/// A token: its kind and character span `[start, end)`.
#[derive(Debug, Clone, Copy, PartialEq, Eq, Structural)]
pub struct Token {
    pub kind: NodeKind,
    pub start: usize,
    pub end: usize,
}

pub open spec fn is_space(c: char) -> bool {
    c == ' ' || c == '\t' || c == '\n' || c == '\r'
}

/// Characters that end a word.
pub open spec fn is_delim(c: char) -> bool {
    is_space(c) || c == '(' || c == ')' || c == '"' || c == ';'
}

pub open spec fn skip_space(s: Seq<char>, i: int) -> int
    decreases s.len() - i,
{
    if 0 <= i < s.len() && is_space(s[i]) {
        skip_space(s, i + 1)
    } else {
        i
    }
}

/// End of a word starting at `i`.
pub open spec fn word_end(s: Seq<char>, i: int) -> int
    decreases s.len() - i,
{
    if 0 <= i < s.len() && !is_delim(s[i]) {
        word_end(s, i + 1)
    } else {
        i
    }
}

/// End of a string literal whose body starts at `i` (just after the quote).
pub open spec fn string_end(s: Seq<char>, i: int) -> int
    decreases s.len() - i,
{
    if i < 0 || i >= s.len() {
        s.len() as int
    } else if s[i] == '\\' {
        if i + 1 >= s.len() {
            s.len() as int
        } else {
            string_end(s, i + 2)
        }
    } else if s[i] == '"' {
        i + 1
    } else {
        string_end(s, i + 1)
    }
}

/// End of a block comment whose body starts at `i`, inside `depth` open comments.
pub open spec fn block_comment_end(s: Seq<char>, i: int, depth: nat) -> int
    decreases s.len() - i,
{
    if i < 0 || i >= s.len() {
        s.len() as int
    } else if i + 1 < s.len() && s[i] == '(' && s[i + 1] == ';' {
        block_comment_end(s, i + 2, depth + 1)
    } else if i + 1 < s.len() && s[i] == ';' && s[i + 1] == ')' {
        if depth <= 1 {
            i + 2
        } else {
            block_comment_end(s, i + 2, (depth - 1) as nat)
        }
    } else {
        block_comment_end(s, i + 1, depth)
    }
}

/// Kind of a word, by its first character.
pub open spec fn word_kind(c: char) -> NodeKind {
    if c == '$' {
        NodeKind::Identifier
    } else if text::is_ascii_digit(c) {
        NodeKind::Number
    } else {
        NodeKind::Keyword
    }
}

/// The token that starts at `i` (a non-space character): its kind and end.
pub open spec fn token_at(s: Seq<char>, i: int) -> (NodeKind, int) {
    if i + 1 < s.len() && s[i] == '(' && s[i + 1] == ';' {
        (NodeKind::BlockComment, block_comment_end(s, i + 2, 1))
    } else if i + 1 < s.len() && s[i] == ';' && s[i + 1] == ';' {
        (NodeKind::LineComment, text::next_newline(s, i))
    } else if s[i] == '(' {
        (NodeKind::LParen, i + 1)
    } else if s[i] == ')' {
        (NodeKind::RParen, i + 1)
    } else if s[i] == '"' {
        (NodeKind::Str, string_end(s, i + 1))
    } else if s[i] == ';' {
        (NodeKind::Keyword, i + 1)
    } else {
        (word_kind(s[i]), word_end(s, i))
    }
}

pub proof fn lemma_skip_space(s: Seq<char>, i: int)
    requires
        0 <= i <= s.len(),
    ensures
        i <= skip_space(s, i) <= s.len(),
        skip_space(s, i) < s.len() ==> !is_space(s[skip_space(s, i)]),
    decreases s.len() - i,
{
    if i < s.len() && is_space(s[i]) {
        lemma_skip_space(s, i + 1);
    }
}

proof fn lemma_word_end(s: Seq<char>, i: int)
    requires
        0 <= i <= s.len(),
    ensures
        i <= word_end(s, i) <= s.len(),
    decreases s.len() - i,
{
    if i < s.len() && !is_delim(s[i]) {
        lemma_word_end(s, i + 1);
    }
}

proof fn lemma_string_end(s: Seq<char>, i: int)
    requires
        0 <= i <= s.len(),
    ensures
        i <= string_end(s, i) <= s.len(),
    decreases s.len() - i,
{
    if i < s.len() {
        if s[i] == '\\' {
            if i + 1 < s.len() {
                lemma_string_end(s, i + 2);
            }
        } else if s[i] != '"' {
            lemma_string_end(s, i + 1);
        }
    }
}

proof fn lemma_block_comment_end(s: Seq<char>, i: int, depth: nat)
    requires
        0 <= i <= s.len(),
    ensures
        i <= block_comment_end(s, i, depth) <= s.len(),
    decreases s.len() - i,
{
    if i < s.len() {
        if i + 1 < s.len() && s[i] == '(' && s[i + 1] == ';' {
            lemma_block_comment_end(s, i + 2, depth + 1);
        } else if i + 1 < s.len() && s[i] == ';' && s[i + 1] == ')' {
            if depth > 1 {
                lemma_block_comment_end(s, i + 2, (depth - 1) as nat);
            }
        } else {
            lemma_block_comment_end(s, i + 1, depth);
        }
    }
}

/// Every token ends after it starts and within the text.
pub proof fn lemma_token_at(s: Seq<char>, i: int)
    requires
        0 <= i < s.len(),
        !is_space(s[i]),
    ensures
        i < token_at(s, i).1 <= s.len(),
{
    if i + 1 < s.len() && s[i] == '(' && s[i + 1] == ';' {
        lemma_block_comment_end(s, i + 2, 1);
    } else if i + 1 < s.len() && s[i] == ';' && s[i + 1] == ';' {
        text::lemma_next_newline_bounds(s, i);
        assert(s[i] != '\n');
        if text::next_newline(s, i) == i {
        }
    } else if s[i] == '(' || s[i] == ')' {
    } else if s[i] == '"' {
        lemma_string_end(s, i + 1);
    } else if s[i] == ';' {
    } else {
        lemma_word_end(s, i + 1);
        assert(word_end(s, i) == word_end(s, i + 1));
    }
}

/// The tokens of `s` from position `i` on.
pub open spec fn lex_from(s: Seq<char>, i: int) -> Seq<Token>
    decreases s.len() - i,
{
    if i < 0 || i > s.len() {
        Seq::empty()
    } else {
        let j = skip_space(s, i);
        proof {
            lemma_skip_space(s, i);
        }
        if j >= s.len() {
            Seq::empty()
        } else {
            let t = token_at(s, j);
            proof {
                lemma_token_at(s, j);
            }
            seq![Token { kind: t.0, start: j as usize, end: t.1 as usize }] + lex_from(s, t.1)
        }
    }
}

/// The tokens of a document, in order.
pub open spec fn lex(s: Seq<char>) -> Seq<Token> {
    lex_from(s, 0)
}


fn is_space_exec(c: char) -> (b: bool)
    ensures
        b == is_space(c),
{
    c == ' ' || c == '\t' || c == '\n' || c == '\r'
}

fn is_delim_exec(c: char) -> (b: bool)
    ensures
        b == is_delim(c),
{
    is_space_exec(c) || c == '(' || c == ')' || c == '"' || c == ';'
}

fn skip_space_exec(s: &Vec<char>, i: usize) -> (j: usize)
    requires
        i <= s@.len(),
    ensures
        j == skip_space(s@, i as int),
{
    let mut j = i;
    while j < s.len() && is_space_exec(s[j])
        invariant
            i <= j <= s@.len(),
            skip_space(s@, i as int) == skip_space(s@, j as int),
        decreases s@.len() - j,
    {
        j = j + 1;
    }
    j
}

fn word_end_exec(s: &Vec<char>, i: usize) -> (j: usize)
    requires
        i <= s@.len(),
    ensures
        j == word_end(s@, i as int),
{
    let mut j = i;
    while j < s.len() && !is_delim_exec(s[j])
        invariant
            i <= j <= s@.len(),
            word_end(s@, i as int) == word_end(s@, j as int),
        decreases s@.len() - j,
    {
        j = j + 1;
    }
    j
}

fn string_end_exec(s: &Vec<char>, i: usize) -> (j: usize)
    requires
        i <= s@.len(),
    ensures
        j == string_end(s@, i as int),
{
    let n = s.len();
    let mut j = i;
    while j < n
        invariant
            n == s@.len(),
            i <= j <= n,
            string_end(s@, i as int) == string_end(s@, j as int),
        decreases n - j,
    {
        if s[j] == '\\' {
            if j + 1 >= n {
                return n;
            }
            j = j + 2;
        } else if s[j] == '"' {
            return j + 1;
        } else {
            j = j + 1;
        }
    }
    n
}

fn block_comment_end_exec(s: &Vec<char>, i: usize) -> (j: usize)
    requires
        2 <= i <= s@.len(),
    ensures
        j == block_comment_end(s@, i as int, 1),
{
    let n = s.len();
    let mut j = i;
    let mut depth: usize = 1;
    while j < n
        invariant
            n == s@.len(),
            i <= j <= n,
            1 <= depth <= j,
            block_comment_end(s@, i as int, 1) == block_comment_end(s@, j as int, depth as nat),
        decreases n - j,
    {
        if j + 1 < n && s[j] == '(' && s[j + 1] == ';' {
            depth = depth + 1;
            j = j + 2;
        } else if j + 1 < n && s[j] == ';' && s[j + 1] == ')' {
            if depth <= 1 {
                return j + 2;
            }
            depth = depth - 1;
            j = j + 2;
        } else {
            j = j + 1;
        }
    }
    n
}

fn next_newline_exec(s: &Vec<char>, i: usize) -> (j: usize)
    requires
        i <= s@.len(),
    ensures
        j == text::next_newline(s@, i as int),
{
    let mut j = i;
    while j < s.len() && s[j] != '\n'
        invariant
            i <= j <= s@.len(),
            text::next_newline(s@, i as int) == text::next_newline(s@, j as int),
        decreases s@.len() - j,
    {
        j = j + 1;
    }
    j
}

fn word_kind_exec(c: char) -> (k: NodeKind)
    ensures
        k == word_kind(c),
{
    if c == '$' {
        NodeKind::Identifier
    } else if '0' <= c && c <= '9' {
        NodeKind::Number
    } else {
        NodeKind::Keyword
    }
}

fn token_at_exec(s: &Vec<char>, i: usize) -> (r: (NodeKind, usize))
    requires
        i < s@.len(),
        !is_space(s@[i as int]),
    ensures
        r.0 == token_at(s@, i as int).0,
        r.1 == token_at(s@, i as int).1,
{
    proof {
        lemma_token_at(s@, i as int);
    }
    let n = s.len();
    if i + 1 < n && s[i] == '(' && s[i + 1] == ';' {
        (NodeKind::BlockComment, block_comment_end_exec(s, i + 2))
    } else if i + 1 < n && s[i] == ';' && s[i + 1] == ';' {
        (NodeKind::LineComment, next_newline_exec(s, i))
    } else if s[i] == '(' {
        (NodeKind::LParen, i + 1)
    } else if s[i] == ')' {
        (NodeKind::RParen, i + 1)
    } else if s[i] == '"' {
        (NodeKind::Str, string_end_exec(s, i + 1))
    } else if s[i] == ';' {
        (NodeKind::Keyword, i + 1)
    } else {
        (word_kind_exec(s[i]), word_end_exec(s, i))
    }
}

/// Splits a document into its tokens.
pub fn lex_chars(s: &Vec<char>) -> (toks: Vec<Token>)
    ensures
        toks@ == lex(s@),
{
    let n = s.len();
    let mut toks: Vec<Token> = Vec::new();
    let mut i: usize = 0;
    while i < n
        invariant
            n == s@.len(),
            i <= n,
            toks@ + lex_from(s@, i as int) == lex(s@),
        decreases n - i,
    {
        let j = skip_space_exec(s, i);
        proof {
            lemma_skip_space(s@, i as int);
        }
        if j >= n {
            assert(lex_from(s@, i as int) =~= Seq::<Token>::empty());
            assert(toks@ + Seq::<Token>::empty() =~= toks@);
            return toks;
        }
        let (kind, e) = token_at_exec(s, j);
        let ghost old_toks = toks@;
        toks.push(Token { kind, start: j, end: e });
        proof {
            lemma_token_at(s@, j as int);
            assert(lex_from(s@, i as int) == seq![Token { kind, start: j, end: e }] + lex_from(s@, e as int));
            assert(toks@ + lex_from(s@, e as int) =~= old_toks + lex_from(s@, i as int));
        }
        i = e;
    }
    assert(lex_from(s@, i as int) =~= Seq::<Token>::empty());
    assert(toks@ + Seq::<Token>::empty() =~= toks@);
    toks
}


/// Tokens of `lex_from(s, lo)` lie in order inside `[lo, n)`, each non-empty.
pub open spec fn tokens_wf(toks: Seq<Token>, lo: int, n: int) -> bool {
    &&& forall|k: int| 0 <= k < toks.len() ==> lo <= #[trigger] toks[k].start < toks[k].end <= n
    &&& forall|k: int| 0 <= k < toks.len() - 1 ==> #[trigger] toks[k].end <= toks[k + 1].start
}

pub proof fn lemma_lex_from_wf(s: Seq<char>, i: int)
    requires
        0 <= i <= s.len(),
        s.len() <= usize::MAX,
    ensures
        tokens_wf(lex_from(s, i), i, s.len() as int),
        lex_from(s, i).len() <= s.len() - i,
    decreases s.len() - i,
{
    lemma_skip_space(s, i);
    let j = skip_space(s, i);
    if j < s.len() {
        lemma_token_at(s, j);
        let t = token_at(s, j);
        lemma_lex_from_wf(s, t.1);
        let rest = lex_from(s, t.1);
        let head = Token { kind: t.0, start: j as usize, end: t.1 as usize };
        let all = lex_from(s, i);
        assert(all == seq![head] + rest);
        assert forall|k: int| 0 <= k < all.len() implies i <= #[trigger] all[k].start < all[k].end
            <= s.len() by {
            if k > 0 {
                assert(all[k] == rest[k - 1]);
            }
        }
        assert forall|k: int| 0 <= k < all.len() - 1 implies #[trigger] all[k].end <= all[k
            + 1].start by {
            assert(all[k + 1] == rest[k]);
            if k > 0 {
                assert(all[k] == rest[k - 1]);
            }
        }
    }
}

/// A node of the syntax tree. The nodes of a document are stored in preorder:
/// index 0 is the document root, and the subtree of node `k` occupies the
/// indices `k..last`.
#[derive(Debug, Clone, Copy, PartialEq, Eq, Structural)]
pub struct SyntaxNode {
    pub kind: NodeKind,
    /// Character span `[start, end)`; an unclosed list ends with the text.
    pub start: usize,
    pub end: usize,
    /// Index of the enclosing list (the root is its own parent).
    pub parent: usize,
    /// One past the last index of this node's subtree.
    pub last: usize,
}

/// Tree-building state: the nodes so far and the stack of open lists.
pub open spec fn build_step(st: (Seq<SyntaxNode>, Seq<usize>), t: Token, n: int) -> (
    Seq<SyntaxNode>,
    Seq<usize>,
) {
    let nodes = st.0;
    let stack = st.1;
    let top = stack.last();
    let len = nodes.len();
    if t.kind == NodeKind::LParen {
        (
            nodes.push(
                SyntaxNode {
                    kind: NodeKind::List,
                    start: t.start,
                    end: n as usize,
                    parent: top,
                    last: (len + 1) as usize,
                },
            ),
            stack.push(len as usize),
        )
    } else if t.kind == NodeKind::RParen && stack.len() > 1 {
        let open = nodes[top as int];
        (
            nodes.update(
                top as int,
                SyntaxNode {
                    kind: open.kind,
                    start: open.start,
                    end: t.end,
                    parent: open.parent,
                    last: len as usize,
                },
            ),
            stack.drop_last(),
        )
    } else {
        (
            nodes.push(
                SyntaxNode {
                    kind: t.kind,
                    start: t.start,
                    end: t.end,
                    parent: top,
                    last: (len + 1) as usize,
                },
            ),
            stack,
        )
    }
}

pub open spec fn root_node(n: int) -> SyntaxNode {
    SyntaxNode { kind: NodeKind::Root, start: 0, end: n as usize, parent: 0, last: 1 }
}

pub open spec fn build_fold(toks: Seq<Token>, n: int) -> (Seq<SyntaxNode>, Seq<usize>)
    decreases toks.len(),
{
    if toks.len() == 0 {
        (seq![root_node(n)], seq![0usize])
    } else {
        build_step(build_fold(toks.drop_last(), n), toks.last(), n)
    }
}

/// Closes the lists still open at the end of the text: their subtrees end
/// with the last node.
pub open spec fn close_open(nodes: Seq<SyntaxNode>, stack: Seq<usize>) -> Seq<SyntaxNode>
    decreases stack.len(),
{
    if stack.len() == 0 {
        nodes
    } else {
        let k = stack.last() as int;
        let o = nodes[k];
        close_open(
            nodes.update(
                k,
                SyntaxNode {
                    kind: o.kind,
                    start: o.start,
                    end: o.end,
                    parent: o.parent,
                    last: nodes.len() as usize,
                },
            ),
            stack.drop_last(),
        )
    }
}

/// The syntax tree of a document, in preorder.
pub open spec fn tree_of(s: Seq<char>) -> Seq<SyntaxNode> {
    let st = build_fold(lex(s), s.len() as int);
    close_open(st.0, st.1)
}

/// Structural facts about a tree over a text of length `n`.
pub open spec fn tree_wf(nodes: Seq<SyntaxNode>, n: int) -> bool {
    &&& nodes.len() >= 1
    &&& nodes[0].kind == NodeKind::Root
    &&& forall|k: int|
        0 <= k < nodes.len() ==> {
            &&& #[trigger] nodes[k].start <= nodes[k].end <= n
            &&& k < nodes[k].last <= nodes.len()
            &&& nodes[k].parent < nodes.len()
            &&& (k > 0 ==> nodes[k].parent < k)
        }
}

/// The invariant of the building state after the tokens before `pos`.
pub open spec fn build_wf(st: (Seq<SyntaxNode>, Seq<usize>), pos: int, n: int) -> bool {
    let nodes = st.0;
    let stack = st.1;
    &&& nodes.len() >= 1
    &&& nodes[0].kind == NodeKind::Root
    &&& stack.len() >= 1
    &&& stack[0] == 0
    &&& pos <= n
    &&& forall|k: int| 0 <= k < stack.len() ==> #[trigger] stack[k] < nodes.len()
    &&& forall|k: int|
        0 <= k < nodes.len() ==> {
            &&& #[trigger] nodes[k].start <= nodes[k].end <= n
            &&& nodes[k].start <= pos
            &&& k < nodes[k].last <= nodes.len()
            &&& nodes[k].parent < nodes.len()
            &&& (k > 0 ==> nodes[k].parent < k)
        }
}

proof fn lemma_build_step_wf(st: (Seq<SyntaxNode>, Seq<usize>), t: Token, pos: int, n: int)
    requires
        build_wf(st, pos, n),
        pos <= t.start < t.end <= n,
        n <= usize::MAX,
        st.0.len() < usize::MAX,
    ensures
        build_wf(build_step(st, t, n), t.end as int, n),
        build_step(st, t, n).0.len() <= st.0.len() + 1,
{
    let nodes = st.0;
    let stack = st.1;
    let nst = build_step(st, t, n);
    let top = stack.last();
    assert(stack[stack.len() - 1] < nodes.len());
    if t.kind == NodeKind::LParen {
        assert forall|k: int| 0 <= k < nst.1.len() implies #[trigger] nst.1[k] < nst.0.len() by {
            if k < stack.len() {
                assert(nst.1[k] == stack[k]);
            }
        }
        assert forall|k: int| 0 <= k < nst.0.len() implies {
            &&& #[trigger] nst.0[k].start <= nst.0[k].end <= n
            &&& nst.0[k].start <= t.end
            &&& k < nst.0[k].last <= nst.0.len()
            &&& nst.0[k].parent < nst.0.len()
            &&& (k > 0 ==> nst.0[k].parent < k)
        } by {
            if k < nodes.len() {
                assert(nst.0[k] == nodes[k]);
            } else {
                assert(k == nodes.len());
                assert(nst.0[k].start == t.start);
                assert(nst.0[k].end == n);
                assert(nst.0[k].last == k + 1);
                assert(nst.0[k].parent == top);
            }
        }
    } else if t.kind == NodeKind::RParen && stack.len() > 1 {
        assert forall|k: int| 0 <= k < nst.1.len() implies #[trigger] nst.1[k] < nst.0.len() by {
            assert(nst.1[k] == stack[k]);
        }
        assert forall|k: int| 0 <= k < nst.0.len() implies {
            &&& #[trigger] nst.0[k].start <= nst.0[k].end <= n
            &&& nst.0[k].start <= t.end
            &&& k < nst.0[k].last <= nst.0.len()
            &&& nst.0[k].parent < nst.0.len()
            &&& (k > 0 ==> nst.0[k].parent < k)
        } by {
            assert(nodes[k].start <= pos);
        }
        assert(nst.0[0].kind == NodeKind::Root) by {
            if top == 0 {
            }
        }
    } else {
        assert forall|k: int| 0 <= k < nst.1.len() implies #[trigger] nst.1[k] < nst.0.len() by {
            assert(nst.1[k] == stack[k]);
        }
        assert forall|k: int| 0 <= k < nst.0.len() implies {
            &&& #[trigger] nst.0[k].start <= nst.0[k].end <= n
            &&& nst.0[k].start <= t.end
            &&& k < nst.0[k].last <= nst.0.len()
            &&& nst.0[k].parent < nst.0.len()
            &&& (k > 0 ==> nst.0[k].parent < k)
        } by {
            if k < nodes.len() {
                assert(nst.0[k] == nodes[k]);
            }
        }
    }
}



proof fn lemma_build_wf_tree_wf(st: (Seq<SyntaxNode>, Seq<usize>), pos: int, n: int)
    requires
        build_wf(st, pos, n),
    ensures
        tree_wf(st.0, n),
{
    assert forall|k: int| 0 <= k < st.0.len() implies {
        &&& #[trigger] st.0[k].start <= st.0[k].end <= n
        &&& k < st.0[k].last <= st.0.len()
        &&& st.0[k].parent < st.0.len()
        &&& (k > 0 ==> st.0[k].parent < k)
    } by {
        assert(st.0[k].start <= pos);
    }
}

fn close_lists(nodes: &mut Vec<SyntaxNode>, stack: &Vec<usize>, n: usize)
    requires
        tree_wf(old(nodes)@, n as int),
        forall|j: int| 0 <= j < stack@.len() ==> #[trigger] stack@[j] < old(nodes)@.len(),
    ensures
        final(nodes)@ == close_open(old(nodes)@, stack@),
        tree_wf(final(nodes)@, n as int),
{
    let ghost st_nodes = nodes@;
    let total = nodes.len();
    let mut k = stack.len();
    assert(stack@.take(k as int) =~= stack@);
    while k > 0
        invariant
            k <= stack@.len(),
            nodes@.len() == total,
            close_open(st_nodes, stack@) == close_open(nodes@, stack@.take(k as int)),
            tree_wf(nodes@, n as int),
            forall|j: int| 0 <= j < stack@.len() ==> #[trigger] stack@[j] < total,
        decreases k,
    {
        k = k - 1;
        let idx = stack[k];
        let o = nodes[idx];
        let ghost before = nodes@;
        nodes.set(
            idx,
            SyntaxNode { kind: o.kind, start: o.start, end: o.end, parent: o.parent, last: total },
        );
        proof {
            assert(stack@.take(k + 1).drop_last() =~= stack@.take(k as int));
            assert(stack@.take(k + 1).last() == stack@[k as int]);
            assert(stack@[k as int] < total);
            assert forall|j: int| 0 <= j < nodes@.len() implies {
                &&& #[trigger] nodes@[j].start <= nodes@[j].end <= n
                &&& j < nodes@[j].last <= nodes@.len()
                &&& nodes@[j].parent < nodes@.len()
                &&& (j > 0 ==> nodes@[j].parent < j)
            } by {
                assert(before[j].start <= before[j].end <= n);
            }
        }
    }
    assert(stack@.take(0) =~= Seq::<usize>::empty());
}

/// Builds the syntax tree of a document: lists nest by their parentheses, a
/// `)` with no open list is kept as a token of the root, and lists left open
/// at the end of the text extend to it.
pub fn build_tree(s: &Vec<char>) -> (nodes: Vec<SyntaxNode>)
    requires
        s@.len() < usize::MAX,
    ensures
        nodes@ == tree_of(s@),
        tree_wf(nodes@, s@.len() as int),
{
    let toks = lex_chars(s);
    let n = s.len();
    proof {
        lemma_lex_from_wf(s@, 0);
    }
    let mut nodes: Vec<SyntaxNode> = Vec::new();
    nodes.push(SyntaxNode { kind: NodeKind::Root, start: 0, end: n, parent: 0, last: 1 });
    let mut stack: Vec<usize> = Vec::new();
    stack.push(0);
    let mut i: usize = 0;
    let ghost mut pos: int = 0;
    assert(toks@.take(0) =~= Seq::<Token>::empty());
    assert(nodes@ =~= seq![root_node(n as int)]);
    assert(stack@ =~= seq![0usize]);
    while i < toks.len()
        invariant
            n == s@.len(),
            n < usize::MAX,
            toks@ == lex(s@),
            tokens_wf(toks@, 0, n as int),
            toks@.len() <= n,
            i <= toks@.len(),
            (nodes@, stack@) == build_fold(toks@.take(i as int), n as int),
            build_wf((nodes@, stack@), pos, n as int),
            nodes@.len() <= i + 1,
            i > 0 ==> pos == toks@[i - 1].end,
            i == 0 ==> pos == 0,
        decreases toks@.len() - i,
    {
        let t = toks[i];
        let ghost st = (nodes@, stack@);
        proof {
            if i > 0 {
                assert(toks@[i - 1].end <= toks@[i as int].start);
            }
            assert(toks@[i as int].start < toks@[i as int].end);
            lemma_build_step_wf(st, t, pos, n as int);
            assert(toks@.take(i + 1).drop_last() =~= toks@.take(i as int));
            assert(toks@.take(i + 1).last() == t);
            assert(stack@[stack@.len() - 1] < nodes@.len());
        }
        let len = nodes.len();
        let top = stack[stack.len() - 1];
        if t.kind == NodeKind::LParen {
            nodes.push(
                SyntaxNode { kind: NodeKind::List, start: t.start, end: n, parent: top, last: len + 1 },
            );
            stack.push(len);
        } else if t.kind == NodeKind::RParen && stack.len() > 1 {
            let o = nodes[top];
            nodes.set(
                top,
                SyntaxNode { kind: o.kind, start: o.start, end: t.end, parent: o.parent, last: len },
            );
            stack.pop();
        } else {
            nodes.push(
                SyntaxNode { kind: t.kind, start: t.start, end: t.end, parent: top, last: len + 1 },
            );
        }
        proof {
            assert((nodes@, stack@) == build_step(st, t, n as int));
            pos = t.end as int;
        }
        i = i + 1;
    }
    assert(toks@.take(i as int) =~= toks@);
    proof {
        lemma_build_wf_tree_wf((nodes@, stack@), pos, n as int);
    }
    close_lists(&mut nodes, &stack, n);
    nodes
}



/// Index of the first character of the line that contains index `i`.
pub open spec fn line_start(s: Seq<char>, i: int) -> int
    decreases i,
{
    if i <= 0 {
        0
    } else if s[i - 1] == '\n' {
        i
    } else {
        line_start(s, i - 1)
    }
}

/// Zero-based line of character index `i`.
pub open spec fn row_at(s: Seq<char>, i: int) -> nat {
    text::count_char(s.take(i), '\n')
}

/// Byte column of character index `i` within its line.
pub open spec fn col_at(s: Seq<char>, i: int) -> nat {
    text::byte_len(s.subrange(line_start(s, i), i))
}

/// Byte offset of character index `i`.
pub open spec fn byte_at(s: Seq<char>, i: int) -> nat {
    text::byte_len(s.take(i))
}

pub proof fn lemma_line_start_bound(s: Seq<char>, i: int)
    requires
        0 <= i <= s.len(),
    ensures
        0 <= line_start(s, i) <= i,
    decreases i,
{
    if i > 0 && s[i - 1] != '\n' {
        lemma_line_start_bound(s, i - 1);
    }
}

/// Line, byte column and byte offset of one character index.
#[derive(Debug, Clone, Copy, PartialEq, Eq, Structural)]
pub struct TextPos {
    pub row: usize,
    pub col: usize,
    pub byte: usize,
}

pub open spec fn text_pos_ok(s: Seq<char>, i: int, p: TextPos) -> bool {
    &&& p.row == row_at(s, i)
    &&& p.col == col_at(s, i)
    &&& p.byte == byte_at(s, i)
}

/// The line, column and byte offset of every character index `0..=len`.
pub fn compute_positions(s: &Vec<char>, nbytes: usize) -> (ps: Vec<TextPos>)
    requires
        text::byte_len(s@) == nbytes,
    ensures
        ps@.len() == s@.len() + 1,
        forall|i: int| 0 <= i <= s@.len() ==> text_pos_ok(s@, i, #[trigger] ps@[i]),
{
    let n = s.len();
    let mut ps: Vec<TextPos> = Vec::new();
    let mut row: usize = 0;
    let mut col: usize = 0;
    let mut byte: usize = 0;
    let mut i: usize = 0;
    assert(s@.take(0) =~= Seq::<char>::empty());
    assert(s@.subrange(0, 0) =~= Seq::<char>::empty());
    while i < n
        invariant
            n == s@.len(),
            text::byte_len(s@) == nbytes,
            i <= n,
            ps@.len() == i,
            forall|j: int| 0 <= j < i ==> text_pos_ok(s@, j, #[trigger] ps@[j]),
            text_pos_ok(s@, i as int, TextPos { row, col, byte }),
            row <= i,
            col <= byte <= nbytes,
        decreases n - i,
    {
        ps.push(TextPos { row, col, byte });
        let c = s[i];
        let w = text::width_of(c);
        proof {
            text::lemma_byte_len_take_step(s@, i as int);
            assert(s@.take(i + 1).drop_last() =~= s@.take(i as int));
            text::lemma_byte_len_concat(s@.take(i + 1), s@.skip(i + 1));
            assert(s@.take(i + 1) + s@.skip(i + 1) =~= s@);
            lemma_line_start_bound(s@, i as int);
        }
        if c == '\n' {
            proof {
                assert(s@.subrange(i + 1, i + 1) =~= Seq::<char>::empty());
            }
            row = row + 1;
            col = 0;
        } else {
            proof {
                let ls = line_start(s@, i as int);
                assert(line_start(s@, i + 1) == ls);
                assert(s@.subrange(ls, i + 1).drop_last() =~= s@.subrange(ls, i as int));
                text::lemma_byte_len_concat(s@.take(ls), s@.subrange(ls, i + 1));
                assert(s@.take(ls) + s@.subrange(ls, i + 1) =~= s@.take(i + 1));
            }
            col = col + w;
        }
        byte = byte + w;
        i = i + 1;
    }
    ps.push(TextPos { row, col, byte });
    ps
}


pub open spec fn is_comment(k: NodeKind) -> bool {
    k == NodeKind::LineComment || k == NodeKind::BlockComment
}

/// The children of list `k` from index `j` on, comments left out.
pub open spec fn kids_from(t: Seq<SyntaxNode>, k: int, j: int) -> Seq<usize>
    decreases t[k].last - j,
{
    if 0 <= j < t[k].last {
        let rest = kids_from(t, k, j + 1);
        if t[j].parent == k && !is_comment(t[j].kind) {
            seq![j as usize] + rest
        } else {
            rest
        }
    } else {
        Seq::empty()
    }
}

/// The children of node `k` other than comments, in document order.
pub open spec fn kids(t: Seq<SyntaxNode>, k: int) -> Seq<usize> {
    kids_from(t, k, k + 1)
}

/// The elements of `ks` from position `n` on (none when `n` is past the end).
pub open spec fn after(ks: Seq<usize>, n: int) -> Seq<usize> {
    if 0 <= n <= ks.len() {
        ks.skip(n)
    } else {
        Seq::empty()
    }
}

/// The text of a node.
pub open spec fn text_of(s: Seq<char>, n: SyntaxNode) -> Seq<char> {
    s.subrange(n.start as int, n.end as int)
}

/// Node `j` is the keyword `w`.
pub open spec fn is_kw(s: Seq<char>, t: Seq<SyntaxNode>, j: int, w: Seq<char>) -> bool {
    t[j].kind == NodeKind::Keyword && text_of(s, t[j]) == w
}

/// Node `k` is a list whose first child is the keyword `w`.
pub open spec fn head_is(s: Seq<char>, t: Seq<SyntaxNode>, k: int, w: Seq<char>) -> bool {
    &&& t[k].kind == NodeKind::List
    &&& kids(t, k).len() > 0
    &&& is_kw(s, t, kids(t, k)[0] as int, w)
}

/// The identifier that follows the head keyword of list `k`, if any.
pub open spec fn name_node(t: Seq<SyntaxNode>, k: int) -> Option<usize> {
    if kids(t, k).len() > 1 && t[kids(t, k)[1] as int].kind == NodeKind::Identifier {
        Some(kids(t, k)[1])
    } else {
        None
    }
}

proof fn lemma_kids_from_bounds(t: Seq<SyntaxNode>, n: int, k: int, j: int)
    requires
        tree_wf(t, n),
        0 <= k < t.len(),
        k < j,
    ensures
        forall|i: int|
            0 <= i < kids_from(t, k, j).len() ==> j <= #[trigger] kids_from(t, k, j)[i] < t[k].last
                && t[kids_from(t, k, j)[i] as int].parent == k,
    decreases t[k].last - j,
{
    if j < t[k].last {
        lemma_kids_from_bounds(t, n, k, j + 1);
        let rest = kids_from(t, k, j + 1);
        if t[j].parent == k && !is_comment(t[j].kind) {
            assert forall|i: int| 0 <= i < kids_from(t, k, j).len() implies j
                <= #[trigger] kids_from(t, k, j)[i] < t[k].last && t[kids_from(
                t,
                k,
                j,
            )[i] as int].parent == k by {
                if i > 0 {
                    assert(kids_from(t, k, j)[i] == rest[i - 1]);
                }
            }
        }
    }
}

/// Every child of `k` is a node of the tree after `k` whose parent is `k`.
pub proof fn lemma_kids_bounds(t: Seq<SyntaxNode>, n: int, k: int)
    requires
        tree_wf(t, n),
        0 <= k < t.len(),
    ensures
        forall|i: int|
            0 <= i < kids(t, k).len() ==> k < #[trigger] kids(t, k)[i] < t[k].last <= t.len()
                && t[kids(t, k)[i] as int].parent == k,
{
    assert(t[k].start <= t[k].end);
    lemma_kids_from_bounds(t, n, k, k + 1);
}

/// The children of node `k`, comments left out.
pub fn kids_exec(t: &Vec<SyntaxNode>, k: usize, Ghost(n): Ghost<int>) -> (r: Vec<usize>)
    requires
        tree_wf(t@, n),
        k < t@.len(),
    ensures
        r@ == kids(t@, k as int),
        forall|i: int|
            0 <= i < r@.len() ==> k < #[trigger] r@[i] < t@[k as int].last <= t@.len() && t@[r@[i] as int].parent
                == k,
{
    proof {
        lemma_kids_bounds(t@, n, k as int);
        assert(t@[k as int].start <= t@[k as int].end);
    }
    let mut r: Vec<usize> = Vec::new();
    let last = t[k].last;
    let mut j = k + 1;
    while j < last
        invariant
            tree_wf(t@, n),
            k < t@.len(),
            last == t@[k as int].last,
            k < j <= last,
            last <= t@.len(),
            r@ + kids_from(t@, k as int, j as int) == kids(t@, k as int),
        decreases last - j,
    {
        let ghost old_r = r@;
        if t[j].parent == k && !(t[j].kind == NodeKind::LineComment || t[j].kind == NodeKind::BlockComment) {
            r.push(j);
            assert(r@ + kids_from(t@, k as int, j + 1) =~= old_r + kids_from(t@, k as int, j as int));
        }
        j = j + 1;
    }
    assert(r@ + Seq::<usize>::empty() =~= r@);
    r
}

/// Whether characters `a..b` of `s` spell `w`.
pub fn range_is(s: &Vec<char>, a: usize, b: usize, w: &str) -> (r: bool)
    requires
        a <= b <= s@.len(),
    ensures
        r == (s@.subrange(a as int, b as int) == w@),
{
    let wc = text::chars_of(w);
    if b - a != wc.len() {
        assert(s@.subrange(a as int, b as int).len() != w@.len());
        return false;
    }
    let mut i: usize = 0;
    while i < wc.len()
        invariant
            a <= b <= s@.len(),
            b - a == wc@.len(),
            wc@ == w@,
            i <= wc@.len(),
            forall|j: int| 0 <= j < i ==> s@[a + j] == wc@[j],
        decreases wc@.len() - i,
    {
        if s[a + i] != wc[i] {
            assert(s@.subrange(a as int, b as int)[i as int] != w@[i as int]);
            return false;
        }
        i = i + 1;
    }
    assert(s@.subrange(a as int, b as int) =~= w@);
    true
}


/// Byte offsets grow with character indices.
pub proof fn lemma_byte_at_mono(s: Seq<char>, i: int, j: int)
    requires
        0 <= i <= j <= s.len(),
    ensures
        byte_at(s, i) <= byte_at(s, j),
{
    text::lemma_byte_len_concat(s.take(i), s.subrange(i, j));
    assert(s.take(i) + s.subrange(i, j) =~= s.take(j));
}

} // verus!

verus! {

/// A node made from a single token: neither the root nor a list.
pub open spec fn is_atom(n: SyntaxNode) -> bool {
    n.kind != NodeKind::Root && n.kind != NodeKind::List
}

/// The atoms among `nodes` are non-empty, end by `pos`, and follow each
/// other in node order without overlapping.
pub open spec fn atoms_ordered(nodes: Seq<SyntaxNode>, pos: int) -> bool {
    &&& forall|a: int|
        0 <= a < nodes.len() && is_atom(#[trigger] nodes[a]) ==> nodes[a].start < nodes[a].end <= pos
    &&& forall|a: int, b: int|
        #![trigger nodes[a], nodes[b]]
        0 <= a < b < nodes.len() && is_atom(nodes[a]) && is_atom(nodes[b]) ==> nodes[a].end <= nodes[b].start
}

/// The open lists of a building state are list nodes of the state.
pub open spec fn stack_of_lists(st: (Seq<SyntaxNode>, Seq<usize>)) -> bool {
    &&& st.1.len() >= 1
    &&& forall|k: int| 0 <= k < st.1.len() ==> #[trigger] st.1[k] < st.0.len()
    &&& forall|k: int| 1 <= k < st.1.len() ==> st.0[#[trigger] st.1[k] as int].kind == NodeKind::List
    &&& st.0.len() >= 1
    &&& st.0[0].kind == NodeKind::Root
}

/// End of the last token, or 0.
pub open spec fn tokens_end(toks: Seq<Token>) -> int {
    if toks.len() == 0 {
        0
    } else {
        toks.last().end as int
    }
}

proof fn lemma_build_fold_order(toks: Seq<Token>, n: int)
    requires
        tokens_wf(toks, 0, n),
        toks.len() < usize::MAX,
    ensures
        atoms_ordered(build_fold(toks, n).0, tokens_end(toks)),
        stack_of_lists(build_fold(toks, n)),
        build_fold(toks, n).0.len() <= toks.len() + 1,
    decreases toks.len(),
{
    if toks.len() > 0 {
        let pre = toks.drop_last();
        assert(tokens_wf(pre, 0, n)) by {
            assert forall|k: int| 0 <= k < pre.len() implies 0 <= #[trigger] pre[k].start < pre[k].end <= n by {
                assert(pre[k] == toks[k]);
            }
            assert forall|k: int| 0 <= k < pre.len() - 1 implies #[trigger] pre[k].end <= pre[k + 1].start by {
                assert(pre[k] == toks[k]);
                assert(pre[k + 1] == toks[k + 1]);
            }
        }
        lemma_build_fold_order(pre, n);
        let st = build_fold(pre, n);
        let t = toks.last();
        assert(toks[toks.len() - 1] == t);
        let p0 = tokens_end(pre);
        assert(p0 <= t.start) by {
            if pre.len() > 0 {
                assert(pre.last() == toks[toks.len() - 2]);
            }
        }
        assert(t.start < t.end);
        let nodes = st.0;
        let stack = st.1;
        let nst = build_step(st, t, n);
        assert(nst == build_fold(toks, n));
        let top = stack.last();
        assert(stack[stack.len() - 1] < nodes.len());
        if t.kind == NodeKind::LParen {
            assert forall|a: int| 0 <= a < nst.0.len() && is_atom(#[trigger] nst.0[a]) implies nst.0[a].start
                < nst.0[a].end <= t.end by {
                assert(a < nodes.len());
                assert(nst.0[a] == nodes[a]);
            }
            assert forall|a: int, b: int|
                #![trigger nst.0[a], nst.0[b]]
                0 <= a < b < nst.0.len() && is_atom(nst.0[a]) && is_atom(nst.0[b]) implies nst.0[a].end
                <= nst.0[b].start by {
                assert(b < nodes.len());
                assert(nst.0[a] == nodes[a]);
                assert(nst.0[b] == nodes[b]);
            }
            assert forall|k: int| 1 <= k < nst.1.len() implies nst.0[#[trigger] nst.1[k] as int].kind
                == NodeKind::List by {
                if k < stack.len() {
                    assert(nst.1[k] == stack[k]);
                    assert(nst.0[stack[k] as int] == nodes[stack[k] as int]);
                } else {
                    assert(nst.1[k] == nodes.len());
                    assert(nst.0[nodes.len() as int].kind == NodeKind::List);
                }
            }
            assert forall|k: int| 0 <= k < nst.1.len() implies #[trigger] nst.1[k] < nst.0.len() by {
                if k < stack.len() {
                    assert(nst.1[k] == stack[k]);
                }
            }
        } else if t.kind == NodeKind::RParen && stack.len() > 1 {
            assert(nodes[top as int].kind == NodeKind::List);
            assert forall|a: int| 0 <= a < nst.0.len() && is_atom(#[trigger] nst.0[a]) implies nst.0[a].start
                < nst.0[a].end <= t.end by {
                assert(a != top);
                assert(nst.0[a] == nodes[a]);
            }
            assert forall|a: int, b: int|
                #![trigger nst.0[a], nst.0[b]]
                0 <= a < b < nst.0.len() && is_atom(nst.0[a]) && is_atom(nst.0[b]) implies nst.0[a].end
                <= nst.0[b].start by {
                assert(a != top && b != top);
                assert(nst.0[a] == nodes[a]);
                assert(nst.0[b] == nodes[b]);
            }
            assert forall|k: int| 1 <= k < nst.1.len() implies nst.0[#[trigger] nst.1[k] as int].kind
                == NodeKind::List by {
                assert(nst.1[k] == stack[k]);
                assert(stack[k] < nodes.len());
                assert(nodes[stack[k] as int].kind == NodeKind::List);
            }
            assert forall|k: int| 0 <= k < nst.1.len() implies #[trigger] nst.1[k] < nst.0.len() by {
                assert(nst.1[k] == stack[k]);
            }
            assert(nst.0[0].kind == NodeKind::Root);
        } else {
            assert forall|a: int| 0 <= a < nst.0.len() && is_atom(#[trigger] nst.0[a]) implies nst.0[a].start
                < nst.0[a].end <= t.end by {
                if a < nodes.len() {
                    assert(nst.0[a] == nodes[a]);
                }
            }
            assert forall|a: int, b: int|
                #![trigger nst.0[a], nst.0[b]]
                0 <= a < b < nst.0.len() && is_atom(nst.0[a]) && is_atom(nst.0[b]) implies nst.0[a].end
                <= nst.0[b].start by {
                assert(nst.0[a] == nodes[a]);
                if b < nodes.len() {
                    assert(nst.0[b] == nodes[b]);
                } else {
                    assert(nodes[a].end <= p0);
                }
            }
            assert forall|k: int| 1 <= k < nst.1.len() implies nst.0[#[trigger] nst.1[k] as int].kind
                == NodeKind::List by {
                assert(nst.1[k] == stack[k]);
                assert(nst.0[stack[k] as int] == nodes[stack[k] as int]);
            }
            assert forall|k: int| 0 <= k < nst.1.len() implies #[trigger] nst.1[k] < nst.0.len() by {
                assert(nst.1[k] == stack[k]);
            }
        }
    } else {
        assert(build_fold(toks, n).0 == seq![root_node(n)]);
    }
}

proof fn lemma_close_open_keeps(nodes: Seq<SyntaxNode>, stack: Seq<usize>)
    requires
        forall|k: int| 0 <= k < stack.len() ==> #[trigger] stack[k] < nodes.len(),
    ensures
        close_open(nodes, stack).len() == nodes.len(),
        forall|k: int|
            0 <= k < nodes.len() ==> (#[trigger] close_open(nodes, stack)[k]).kind == nodes[k].kind
                && close_open(nodes, stack)[k].start == nodes[k].start && close_open(nodes, stack)[k].end
                == nodes[k].end,
    decreases stack.len(),
{
    if stack.len() > 0 {
        let k0 = stack.last() as int;
        assert(stack[stack.len() - 1] < nodes.len());
        let o = nodes[k0];
        let nn = nodes.update(
            k0,
            SyntaxNode { kind: o.kind, start: o.start, end: o.end, parent: o.parent, last: nodes.len() as usize },
        );
        assert forall|k: int| 0 <= k < stack.drop_last().len() implies #[trigger] stack.drop_last()[k]
            < nn.len() by {
            assert(stack.drop_last()[k] == stack[k]);
        }
        lemma_close_open_keeps(nn, stack.drop_last());
        assert forall|k: int| 0 <= k < nodes.len() implies (#[trigger] close_open(nodes, stack)[k]).kind
            == nodes[k].kind && close_open(nodes, stack)[k].start == nodes[k].start && close_open(
            nodes,
            stack,
        )[k].end == nodes[k].end by {
            assert(close_open(nodes, stack)[k] == close_open(nn, stack.drop_last())[k]);
            assert(nn[k].kind == nodes[k].kind);
        }
    }
}

/// In the tree of a text, the atoms are non-empty and lie in node order,
/// each ending before the next one starts.
pub proof fn lemma_tree_atoms_ordered(s: Seq<char>)
    requires
        s.len() < usize::MAX,
    ensures
        forall|a: int|
            0 <= a < tree_of(s).len() && is_atom(#[trigger] tree_of(s)[a]) ==> tree_of(s)[a].start
                < tree_of(s)[a].end <= s.len(),
        forall|a: int, b: int|
            #![trigger tree_of(s)[a], tree_of(s)[b]]
            0 <= a < b < tree_of(s).len() && is_atom(tree_of(s)[a]) && is_atom(tree_of(s)[b]) ==> tree_of(
                s,
            )[a].end <= tree_of(s)[b].start,
{
    lemma_lex_from_wf(s, 0);
    let toks = lex(s);
    lemma_build_fold_order(toks, s.len() as int);
    let st = build_fold(toks, s.len() as int);
    lemma_close_open_keeps(st.0, st.1);
    let t = tree_of(s);
    assert(tokens_end(toks) <= s.len()) by {
        if toks.len() > 0 {
            assert(toks[toks.len() - 1] == toks.last());
        }
    }
    assert forall|a: int| 0 <= a < t.len() && is_atom(#[trigger] t[a]) implies t[a].start < t[a].end
        <= s.len() by {
        assert(t[a].kind == st.0[a].kind);
        assert(is_atom(st.0[a]));
    }
    assert forall|a: int, b: int|
        #![trigger t[a], t[b]]
        0 <= a < b < t.len() && is_atom(t[a]) && is_atom(t[b]) implies t[a].end <= t[b].start by {
        assert(t[a].kind == st.0[a].kind);
        assert(t[b].kind == st.0[b].kind);
        assert(is_atom(st.0[a]) && is_atom(st.0[b]));
    }
}

} // verus!

verus! {

proof fn lemma_position_step(s: Seq<char>, i: int)
    requires
        0 <= i < s.len(),
    ensures
        row_at(s, i) < row_at(s, i + 1) || (row_at(s, i) == row_at(s, i + 1) && col_at(s, i) < col_at(
            s,
            i + 1,
        )),
{
    assert(s.take(i + 1).drop_last() =~= s.take(i));
    assert(s.take(i + 1).last() == s[i]);
    if s[i] != '\n' {
        assert(line_start(s, i + 1) == line_start(s, i));
        lemma_line_start_bound(s, i);
        let ls = line_start(s, i);
        assert(s.subrange(ls, i + 1).drop_last() =~= s.subrange(ls, i));
        assert(s.subrange(ls, i + 1).last() == s[i]);
    }
}

/// Character positions in increasing order have increasing (line, column)
/// positions.
pub proof fn lemma_positions_ordered(s: Seq<char>, p: int, q: int)
    requires
        0 <= p < q <= s.len(),
    ensures
        row_at(s, p) < row_at(s, q) || (row_at(s, p) == row_at(s, q) && col_at(s, p) < col_at(s, q)),
    decreases q - p,
{
    lemma_position_step(s, q - 1);
    if p < q - 1 {
        lemma_positions_ordered(s, p, q - 1);
    }
}

} // verus!
