//! Protocol-independent value types shared by all features: positions,
//! ranges, hover results, completion items and document symbols.
use vstd::prelude::*;
use crate::text;

verus! {

/// A position in a document: zero-based line and column.
#[derive(Clone, Copy, Debug, PartialEq, Eq, Structural)]
pub struct Position {
    pub line: u32,
    pub character: u32,
}

impl Position {
    pub fn new(line: u32, character: u32) -> (p: Position)
        ensures
            p.line == line,
            p.character == character,
    {
        Position { line, character }
    }
}

/// A range in a document, from `start` up to `end`.
#[derive(Clone, Copy, Debug, PartialEq, Eq, Structural)]
pub struct Range {
    pub start: Position,
    pub end: Position,
}

impl Range {
    pub fn new(start: Position, end: Position) -> (r: Range)
        ensures
            r.start == start,
            r.end == end,
    {
        Range { start, end }
    }

    pub fn from_coords(start_line: u32, start_char: u32, end_line: u32, end_char: u32) -> (r: Range)
        ensures
            r.start == (Position { line: start_line, character: start_char }),
            r.end == (Position { line: end_line, character: end_char }),
    {
        Range {
            start: Position { line: start_line, character: start_char },
            end: Position { line: end_line, character: end_char },
        }
    }
}

/// Markdown hover contents with an optional range.
#[derive(Clone, Debug)]
pub struct HoverResult {
    pub contents: String,
    pub range: Option<Range>,
}

impl HoverResult {
    pub fn new(contents: String) -> (h: HoverResult)
        ensures
            h.contents@ == contents@,
            h.range.is_none(),
    {
        HoverResult { contents, range: None }
    }
}

/// Kind of a completion item.
#[derive(Clone, Copy, Debug, PartialEq, Eq, Structural)]
pub enum CompletionItemKind {
    Text,
    Function,
    Variable,
    Constant,
    Keyword,
    Snippet,
    Property,
}

/// How the insert text of a completion item is interpreted.
#[derive(Clone, Copy, Debug, PartialEq, Eq, Structural)]
pub enum InsertTextFormat {
    PlainText,
    Snippet,
}

/// One completion suggestion.
#[derive(Clone, Debug)]
pub struct CompletionItem {
    pub label: String,
    pub kind: Option<CompletionItemKind>,
    pub detail: Option<String>,
    pub documentation: Option<String>,
    pub insert_text: Option<String>,
    pub insert_text_format: Option<InsertTextFormat>,
}

impl CompletionItem {
    pub fn new(label: String) -> (c: CompletionItem)
        ensures
            c.label@ == label@,
            c.kind.is_none(),
            c.detail.is_none(),
            c.documentation.is_none(),
            c.insert_text.is_none(),
            c.insert_text_format.is_none(),
    {
        CompletionItem {
            label,
            kind: None,
            detail: None,
            documentation: None,
            insert_text: None,
            insert_text_format: None,
        }
    }

    pub fn with_kind(self, kind: CompletionItemKind) -> (c: CompletionItem)
        ensures
            c == (CompletionItem { kind: Some(kind), ..self }),
    {
        CompletionItem { kind: Some(kind), ..self }
    }

    pub fn with_detail(self, detail: String) -> (c: CompletionItem)
        ensures
            c == (CompletionItem { detail: Some(detail), ..self }),
    {
        CompletionItem { detail: Some(detail), ..self }
    }

    pub fn with_documentation(self, documentation: String) -> (c: CompletionItem)
        ensures
            c == (CompletionItem { documentation: Some(documentation), ..self }),
    {
        CompletionItem { documentation: Some(documentation), ..self }
    }

    pub fn with_insert_text(self, insert_text: String) -> (c: CompletionItem)
        ensures
            c == (CompletionItem { insert_text: Some(insert_text), ..self }),
    {
        CompletionItem { insert_text: Some(insert_text), ..self }
    }

    pub fn with_insert_text_format(self, format: InsertTextFormat) -> (c: CompletionItem)
        ensures
            c == (CompletionItem { insert_text_format: Some(format), ..self }),
    {
        CompletionItem { insert_text_format: Some(format), ..self }
    }
}

/// The mathematical content of a `CompletionItem`.
pub struct CompletionModel {
    pub label: Seq<char>,
    pub kind: Option<CompletionItemKind>,
    pub detail: Option<Seq<char>>,
    pub documentation: Option<Seq<char>>,
    pub insert_text: Option<Seq<char>>,
    pub insert_text_format: Option<InsertTextFormat>,
}

impl DeepView for CompletionItem {
    type V = CompletionModel;

    open spec fn deep_view(&self) -> CompletionModel {
        CompletionModel {
            label: self.label@,
            kind: self.kind,
            detail: text::opt_view(self.detail),
            documentation: text::opt_view(self.documentation),
            insert_text: text::opt_view(self.insert_text),
            insert_text_format: self.insert_text_format,
        }
    }
}

/// Kind of an entry in the document outline.
#[derive(Clone, Copy, Debug, PartialEq, Eq, Structural)]
pub enum SymbolKindCore {
    Function,
    Variable,
    Constant,
    Interface,
    Array,
    Object,
    Event,
    String,
    Key,
}

/// An entry of the document outline, with nested children.
#[derive(Debug)]
pub struct DocumentSymbolInfo {
    pub name: String,
    pub detail: Option<String>,
    pub kind: SymbolKindCore,
    pub range: Range,
    pub children: Option<Vec<DocumentSymbolInfo>>,
}

} // verus!

verus! {

/// An outline entry seen as a child: its fields, and whether it has
/// children of its own.
pub struct OutlineLeaf {
    pub name: Seq<char>,
    pub detail: Option<Seq<char>>,
    pub kind: SymbolKindCore,
    pub range: Range,
    pub has_children: bool,
}

/// The mathematical content of a `DocumentSymbolInfo`, with its children
/// seen as leaves.
pub struct OutlineEntry {
    pub name: Seq<char>,
    pub detail: Option<Seq<char>>,
    pub kind: SymbolKindCore,
    pub range: Range,
    pub children: Option<Seq<OutlineLeaf>>,
}

pub open spec fn leaf_view(d: DocumentSymbolInfo) -> OutlineLeaf {
    OutlineLeaf {
        name: d.name@,
        detail: text::opt_view(d.detail),
        kind: d.kind,
        range: d.range,
        has_children: d.children is Some,
    }
}

impl DeepView for DocumentSymbolInfo {
    type V = OutlineEntry;

    open spec fn deep_view(&self) -> OutlineEntry {
        OutlineEntry {
            name: self.name@,
            detail: text::opt_view(self.detail),
            kind: self.kind,
            range: self.range,
            children: match self.children {
                Some(c) => Some(c@.map_values(|x: DocumentSymbolInfo| leaf_view(x))),
                None => None,
            },
        }
    }
}

} // verus!
