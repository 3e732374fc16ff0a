//! The symbol model of a WAT module: value types, the declared entities and
//! the symbol table that indexes them by position and by name.
use vstd::prelude::*;
use crate::text;
use crate::text::{chars_eq_str, chars_of, opt_name_is, push_decimal, str_eq};
use crate::types::Range;

verus! {

/// A WebAssembly value type.
#[derive(Clone, Copy, Debug, PartialEq, Eq, Structural)]
pub enum ValueType {
    I32,
    I64,
    F32,
    F64,
    V128,
    I8,
    I16,
    Funcref,
    Externref,
    Structref,
    Arrayref,
    I31ref,
    Anyref,
    Eqref,
    Nullref,
    NullFuncref,
    NullExternref,
    /// Typed reference to a type index
    Ref(u32),
    /// Nullable typed reference
    RefNull(u32),
    Unknown,
}

/// The value type that a keyword names, if it names one.
pub open spec fn value_type_of(s: Seq<char>) -> Option<ValueType> {
    if s == "i32"@ {
        Some(ValueType::I32)
    } else if s == "i64"@ {
        Some(ValueType::I64)
    } else if s == "f32"@ {
        Some(ValueType::F32)
    } else if s == "f64"@ {
        Some(ValueType::F64)
    } else if s == "v128"@ {
        Some(ValueType::V128)
    } else if s == "i8"@ {
        Some(ValueType::I8)
    } else if s == "i16"@ {
        Some(ValueType::I16)
    } else if s == "funcref"@ {
        Some(ValueType::Funcref)
    } else if s == "externref"@ {
        Some(ValueType::Externref)
    } else if s == "structref"@ {
        Some(ValueType::Structref)
    } else if s == "arrayref"@ {
        Some(ValueType::Arrayref)
    } else if s == "i31ref"@ {
        Some(ValueType::I31ref)
    } else if s == "anyref"@ {
        Some(ValueType::Anyref)
    } else if s == "eqref"@ {
        Some(ValueType::Eqref)
    } else if s == "nullref"@ {
        Some(ValueType::Nullref)
    } else if s == "nullfuncref"@ {
        Some(ValueType::NullFuncref)
    } else if s == "nullexternref"@ {
        Some(ValueType::NullExternref)
    } else {
        None
    }
}

/// The text form of a value type.
pub open spec fn value_type_name(v: ValueType) -> Seq<char> {
    match v {
        ValueType::I32 => "i32"@,
        ValueType::I64 => "i64"@,
        ValueType::F32 => "f32"@,
        ValueType::F64 => "f64"@,
        ValueType::V128 => "v128"@,
        ValueType::I8 => "i8"@,
        ValueType::I16 => "i16"@,
        ValueType::Funcref => "funcref"@,
        ValueType::Externref => "externref"@,
        ValueType::Structref => "structref"@,
        ValueType::Arrayref => "arrayref"@,
        ValueType::I31ref => "i31ref"@,
        ValueType::Anyref => "anyref"@,
        ValueType::Eqref => "eqref"@,
        ValueType::Nullref => "nullref"@,
        ValueType::NullFuncref => "nullfuncref"@,
        ValueType::NullExternref => "nullexternref"@,
        ValueType::Ref(idx) => "(ref "@ + text::decimal(idx as nat) + ")"@,
        ValueType::RefNull(idx) => "(ref null "@ + text::decimal(idx as nat) + ")"@,
        ValueType::Unknown => "unknown"@,
    }
}

impl ValueType {
    /// The value type named by `s`, if `s` is one of the value type keywords.
    pub fn try_parse(s: &str) -> (r: Option<ValueType>)
        ensures
            r == value_type_of(s@),
    {
        let c = chars_of(s);
        ValueType::try_parse_chars(c.as_slice())
    }

    /// The value type named by the characters `c`, if any.
    pub fn try_parse_chars(c: &[char]) -> (r: Option<ValueType>)
        ensures
            r == value_type_of(c@),
    {
        if chars_eq_str(c, "i32") {
            Some(ValueType::I32)
        } else if chars_eq_str(c, "i64") {
            Some(ValueType::I64)
        } else if chars_eq_str(c, "f32") {
            Some(ValueType::F32)
        } else if chars_eq_str(c, "f64") {
            Some(ValueType::F64)
        } else if chars_eq_str(c, "v128") {
            Some(ValueType::V128)
        } else if chars_eq_str(c, "i8") {
            Some(ValueType::I8)
        } else if chars_eq_str(c, "i16") {
            Some(ValueType::I16)
        } else if chars_eq_str(c, "funcref") {
            Some(ValueType::Funcref)
        } else if chars_eq_str(c, "externref") {
            Some(ValueType::Externref)
        } else if chars_eq_str(c, "structref") {
            Some(ValueType::Structref)
        } else if chars_eq_str(c, "arrayref") {
            Some(ValueType::Arrayref)
        } else if chars_eq_str(c, "i31ref") {
            Some(ValueType::I31ref)
        } else if chars_eq_str(c, "anyref") {
            Some(ValueType::Anyref)
        } else if chars_eq_str(c, "eqref") {
            Some(ValueType::Eqref)
        } else if chars_eq_str(c, "nullref") {
            Some(ValueType::Nullref)
        } else if chars_eq_str(c, "nullfuncref") {
            Some(ValueType::NullFuncref)
        } else if chars_eq_str(c, "nullexternref") {
            Some(ValueType::NullExternref)
        } else {
            None
        }
    }

    /// The value type named by `s`, or `Unknown`.
    pub fn parse(s: &str) -> (r: ValueType)
        ensures
            r == (match value_type_of(s@) {
                Some(v) => v,
                None => ValueType::Unknown,
            }),
    {
        match ValueType::try_parse(s) {
            Some(v) => v,
            None => ValueType::Unknown,
        }
    }

    /// The text form of this value type (`i32`, `(ref 3)`, ...).
    pub fn to_str(&self) -> (s: String)
        ensures
            s@ == value_type_name(*self),
    {
        match self {
            ValueType::I32 => "i32".to_owned(),
            ValueType::I64 => "i64".to_owned(),
            ValueType::F32 => "f32".to_owned(),
            ValueType::F64 => "f64".to_owned(),
            ValueType::V128 => "v128".to_owned(),
            ValueType::I8 => "i8".to_owned(),
            ValueType::I16 => "i16".to_owned(),
            ValueType::Funcref => "funcref".to_owned(),
            ValueType::Externref => "externref".to_owned(),
            ValueType::Structref => "structref".to_owned(),
            ValueType::Arrayref => "arrayref".to_owned(),
            ValueType::I31ref => "i31ref".to_owned(),
            ValueType::Anyref => "anyref".to_owned(),
            ValueType::Eqref => "eqref".to_owned(),
            ValueType::Nullref => "nullref".to_owned(),
            ValueType::NullFuncref => "nullfuncref".to_owned(),
            ValueType::NullExternref => "nullexternref".to_owned(),
            ValueType::Ref(idx) => {
                let mut s = "(ref ".to_owned();
                push_decimal(&mut s, *idx as u64);
                s.append(")");
                s
            },
            ValueType::RefNull(idx) => {
                let mut s = "(ref null ".to_owned();
                push_decimal(&mut s, *idx as u64);
                s.append(")");
                s
            },
            ValueType::Unknown => "unknown".to_owned(),
        }
    }
}

} // verus!

verus! {

/// A local variable of a function.
#[derive(Clone, Debug)]
pub struct Variable {
    pub name: Option<String>,
    pub var_type: ValueType,
    pub is_mutable: bool,
    pub initial_value: Option<String>,
    pub index: usize,
    pub range: Option<Range>,
}

/// A parameter of a function.
#[derive(Clone, Debug)]
pub struct Parameter {
    pub name: Option<String>,
    pub param_type: ValueType,
    pub index: usize,
    pub range: Option<Range>,
}

/// A labelled `block`, `loop`, `if`, `try` or `try_table`.
#[derive(Clone, Debug)]
pub struct BlockLabel {
    pub label: String,
    /// "block", "loop", "if", "try", "try_table"
    pub block_type: String,
    pub line: u32,
    pub range: Option<Range>,
}

/// A function, defined in the module or imported.
#[derive(Clone, Debug)]
pub struct Function {
    pub name: Option<String>,
    pub index: usize,
    pub parameters: Vec<Parameter>,
    pub results: Vec<ValueType>,
    pub locals: Vec<Variable>,
    pub blocks: Vec<BlockLabel>,
    pub line: u32,
    /// Line where the function ends
    pub end_line: u32,
    /// Byte offset where the function starts
    pub start_byte: usize,
    /// Byte offset where the function ends
    pub end_byte: usize,
    pub range: Option<Range>,
    /// Text of the comments directly above the function
    pub doc_comment: Option<String>,
    /// Whether the signature is given by a `(type ...)` reference
    pub has_type_use: bool,
}

/// A global variable.
#[derive(Clone, Debug)]
pub struct Global {
    pub name: Option<String>,
    pub index: usize,
    pub var_type: ValueType,
    pub is_mutable: bool,
    pub initial_value: Option<String>,
    pub line: u32,
    pub range: Option<Range>,
}

/// Size limits of a table or memory: minimum and optional maximum.
#[derive(Clone, Copy, Debug)]
pub struct Limits(pub u64, pub Option<u64>);

/// A table.
#[derive(Clone, Debug)]
pub struct Table {
    pub name: Option<String>,
    pub index: usize,
    pub ref_type: ValueType,
    /// (min, max)
    pub limits: Limits,
    pub line: u32,
    pub range: Option<Range>,
}

/// A linear memory.
#[derive(Clone, Debug)]
pub struct Memory {
    pub name: Option<String>,
    pub index: usize,
    /// (min, max)
    pub limits: Limits,
    pub line: u32,
    pub range: Option<Range>,
}

/// The shape of a type definition.
#[derive(Clone, Debug)]
pub enum TypeKind {
    Func { params: Vec<ValueType>, results: Vec<ValueType> },
    /// (name, type, mutable) per field
    Struct { fields: Vec<(Option<String>, ValueType, bool)> },
    Array { element_type: ValueType, mutable: bool },
}

/// A type definition.
#[derive(Clone, Debug)]
pub struct TypeDef {
    pub name: Option<String>,
    pub index: usize,
    pub kind: TypeKind,
    pub line: u32,
    pub range: Option<Range>,
}

/// An exception tag.
#[derive(Clone, Debug)]
pub struct Tag {
    pub name: Option<String>,
    pub index: usize,
    pub params: Vec<ValueType>,
    pub line: u32,
    pub range: Option<Range>,
}

/// A data segment.
#[derive(Clone, Debug)]
pub struct DataSegment {
    pub name: Option<String>,
    pub index: usize,
    /// The string content (for display)
    pub content: String,
    /// Length in bytes
    pub byte_length: usize,
    pub line: u32,
    pub range: Option<Range>,
}

/// An element segment.
#[derive(Clone, Debug)]
pub struct ElemSegment {
    pub name: Option<String>,
    pub index: usize,
    /// Function names/indices in this elem
    pub func_names: Vec<String>,
    pub line: u32,
    pub range: Option<Range>,
}

/// Entities that may carry a `$name`.
pub trait Named {
    spec fn spec_name(&self) -> Option<Seq<char>>;

    fn name_is(&self, name: &str) -> (b: bool)
        ensures
            b == (self.spec_name() == Some(name@)),
    ;
}

impl Named for Parameter {
    open spec fn spec_name(&self) -> Option<Seq<char>> {
        text::opt_view(self.name)
    }

    fn name_is(&self, name: &str) -> (b: bool) {
        opt_name_is(&self.name, name)
    }
}

impl Named for Variable {
    open spec fn spec_name(&self) -> Option<Seq<char>> {
        text::opt_view(self.name)
    }

    fn name_is(&self, name: &str) -> (b: bool) {
        opt_name_is(&self.name, name)
    }
}

impl Named for BlockLabel {
    open spec fn spec_name(&self) -> Option<Seq<char>> {
        Some(self.label@)
    }

    fn name_is(&self, name: &str) -> (b: bool) {
        str_eq(self.label.as_str(), name)
    }
}

impl Named for Function {
    open spec fn spec_name(&self) -> Option<Seq<char>> {
        text::opt_view(self.name)
    }

    fn name_is(&self, name: &str) -> (b: bool) {
        opt_name_is(&self.name, name)
    }
}

impl Named for Global {
    open spec fn spec_name(&self) -> Option<Seq<char>> {
        text::opt_view(self.name)
    }

    fn name_is(&self, name: &str) -> (b: bool) {
        opt_name_is(&self.name, name)
    }
}

impl Named for Table {
    open spec fn spec_name(&self) -> Option<Seq<char>> {
        text::opt_view(self.name)
    }

    fn name_is(&self, name: &str) -> (b: bool) {
        opt_name_is(&self.name, name)
    }
}

impl Named for Memory {
    open spec fn spec_name(&self) -> Option<Seq<char>> {
        text::opt_view(self.name)
    }

    fn name_is(&self, name: &str) -> (b: bool) {
        opt_name_is(&self.name, name)
    }
}

impl Named for TypeDef {
    open spec fn spec_name(&self) -> Option<Seq<char>> {
        text::opt_view(self.name)
    }

    fn name_is(&self, name: &str) -> (b: bool) {
        opt_name_is(&self.name, name)
    }
}

impl Named for Tag {
    open spec fn spec_name(&self) -> Option<Seq<char>> {
        text::opt_view(self.name)
    }

    fn name_is(&self, name: &str) -> (b: bool) {
        opt_name_is(&self.name, name)
    }
}

impl Named for DataSegment {
    open spec fn spec_name(&self) -> Option<Seq<char>> {
        text::opt_view(self.name)
    }

    fn name_is(&self, name: &str) -> (b: bool) {
        opt_name_is(&self.name, name)
    }
}

impl Named for ElemSegment {
    open spec fn spec_name(&self) -> Option<Seq<char>> {
        text::opt_view(self.name)
    }

    fn name_is(&self, name: &str) -> (b: bool) {
        opt_name_is(&self.name, name)
    }
}

/// Index of the last entry named `n`: a later definition of a name shadows
/// an earlier one.
pub open spec fn last_named<T: Named>(items: Seq<T>, n: Seq<char>) -> Option<int>
    decreases items.len(),
{
    if items.len() == 0 {
        None
    } else if items.last().spec_name() == Some(n) {
        Some(items.len() - 1)
    } else {
        last_named(items.drop_last(), n)
    }
}

/// The entry that the name `n` resolves to.
pub open spec fn lookup_named<T: Named>(items: Seq<T>, n: Seq<char>) -> Option<T> {
    match last_named(items, n) {
        Some(i) => Some(items[i]),
        None => None,
    }
}

/// The entry at position `i`.
pub open spec fn lookup_index<T>(items: Seq<T>, i: int) -> Option<T> {
    if 0 <= i < items.len() {
        Some(items[i])
    } else {
        None
    }
}

pub proof fn lemma_last_named_in_bounds<T: Named>(items: Seq<T>, n: Seq<char>)
    ensures
        last_named(items, n) matches Some(i) ==> 0 <= i < items.len() && items[i].spec_name()
            == Some(n),
    decreases items.len(),
{
    if items.len() > 0 && items.last().spec_name() != Some(n) {
        lemma_last_named_in_bounds(items.drop_last(), n);
    }
}

/// Position of the last entry whose name is `name`.
pub fn find_last_named<T: Named>(items: &Vec<T>, name: &str) -> (r: Option<usize>)
    ensures
        match r {
            Some(i) => last_named(items@, name@) == Some(i as int),
            None => last_named(items@, name@) is None,
        },
{
    let mut i = items.len();
    assert(items@.take(i as int) =~= items@);
    while i > 0
        invariant
            i <= items@.len(),
            last_named(items@, name@) == last_named(items@.take(i as int), name@),
        decreases i,
    {
        let ghost pre = items@.take(i as int);
        assert(pre.last() == items@[i - 1]);
        if items[i - 1].name_is(name) {
            return Some(i - 1);
        }
        assert(pre.drop_last() =~= items@.take(i - 1));
        i = i - 1;
    }
    assert(items@.take(0) =~= Seq::<T>::empty());
    None
}

} // verus!

verus! {

/// All symbols of one module, in declaration (index) order.
#[derive(Clone, Debug)]
pub struct SymbolTable {
    pub functions: Vec<Function>,
    pub globals: Vec<Global>,
    pub tables: Vec<Table>,
    pub memories: Vec<Memory>,
    pub types: Vec<TypeDef>,
    pub tags: Vec<Tag>,
    pub data_segments: Vec<DataSegment>,
    pub elem_segments: Vec<ElemSegment>,
}

impl SymbolTable {
    /// An empty symbol table.
    pub fn new() -> (t: SymbolTable)
        ensures
            t.functions@.len() == 0,
            t.globals@.len() == 0,
            t.tables@.len() == 0,
            t.memories@.len() == 0,
            t.types@.len() == 0,
            t.tags@.len() == 0,
            t.data_segments@.len() == 0,
            t.elem_segments@.len() == 0,
    {
        SymbolTable {
            functions: Vec::new(),
            globals: Vec::new(),
            tables: Vec::new(),
            memories: Vec::new(),
            types: Vec::new(),
            tags: Vec::new(),
            data_segments: Vec::new(),
            elem_segments: Vec::new(),
        }
    }

    /// Appends a function entry; its position is its index and its name, if any,
    /// now resolves to it.
    pub fn add_function(&mut self, item: Function)
        ensures
            final(self).functions@ == old(self).functions@.push(item),
            *final(self) == (SymbolTable { functions: final(self).functions, ..*old(self) }),
    {
        self.functions.push(item);
    }

    /// The function entry that `name` resolves to (the last one declared with it).
    pub fn get_function_by_name(&self, name: &str) -> (r: Option<&Function>)
        ensures
            match last_named(self.functions@, name@) {
                Some(i) => r == Some(&self.functions@[i]),
                None => r is None,
            },
    {
        proof {
            lemma_last_named_in_bounds(self.functions@, name@);
        }
        match find_last_named(&self.functions, name) {
            Some(i) => Some(&self.functions[i]),
            None => None,
        }
    }

    /// The function entry at `index`.
    pub fn get_function_by_index(&self, index: usize) -> (r: Option<&Function>)
        ensures
            index < self.functions@.len() ==> r == Some(&self.functions@[index as int]),
            index >= self.functions@.len() ==> r is None,
    {
        if index < self.functions.len() {
            Some(&self.functions[index])
        } else {
            None
        }
    }

    /// Appends a global entry; its position is its index and its name, if any,
    /// now resolves to it.
    pub fn add_global(&mut self, item: Global)
        ensures
            final(self).globals@ == old(self).globals@.push(item),
            *final(self) == (SymbolTable { globals: final(self).globals, ..*old(self) }),
    {
        self.globals.push(item);
    }

    /// The global entry that `name` resolves to (the last one declared with it).
    pub fn get_global_by_name(&self, name: &str) -> (r: Option<&Global>)
        ensures
            match last_named(self.globals@, name@) {
                Some(i) => r == Some(&self.globals@[i]),
                None => r is None,
            },
    {
        proof {
            lemma_last_named_in_bounds(self.globals@, name@);
        }
        match find_last_named(&self.globals, name) {
            Some(i) => Some(&self.globals[i]),
            None => None,
        }
    }

    /// The global entry at `index`.
    pub fn get_global_by_index(&self, index: usize) -> (r: Option<&Global>)
        ensures
            index < self.globals@.len() ==> r == Some(&self.globals@[index as int]),
            index >= self.globals@.len() ==> r is None,
    {
        if index < self.globals.len() {
            Some(&self.globals[index])
        } else {
            None
        }
    }

    /// Appends a table entry; its position is its index and its name, if any,
    /// now resolves to it.
    pub fn add_table(&mut self, item: Table)
        ensures
            final(self).tables@ == old(self).tables@.push(item),
            *final(self) == (SymbolTable { tables: final(self).tables, ..*old(self) }),
    {
        self.tables.push(item);
    }

    /// The table entry that `name` resolves to (the last one declared with it).
    pub fn get_table_by_name(&self, name: &str) -> (r: Option<&Table>)
        ensures
            match last_named(self.tables@, name@) {
                Some(i) => r == Some(&self.tables@[i]),
                None => r is None,
            },
    {
        proof {
            lemma_last_named_in_bounds(self.tables@, name@);
        }
        match find_last_named(&self.tables, name) {
            Some(i) => Some(&self.tables[i]),
            None => None,
        }
    }

    /// The table entry at `index`.
    pub fn get_table_by_index(&self, index: usize) -> (r: Option<&Table>)
        ensures
            index < self.tables@.len() ==> r == Some(&self.tables@[index as int]),
            index >= self.tables@.len() ==> r is None,
    {
        if index < self.tables.len() {
            Some(&self.tables[index])
        } else {
            None
        }
    }

    /// Appends a memory entry; its position is its index and its name, if any,
    /// now resolves to it.
    pub fn add_memory(&mut self, item: Memory)
        ensures
            final(self).memories@ == old(self).memories@.push(item),
            *final(self) == (SymbolTable { memories: final(self).memories, ..*old(self) }),
    {
        self.memories.push(item);
    }

    /// The memory entry that `name` resolves to (the last one declared with it).
    pub fn get_memory_by_name(&self, name: &str) -> (r: Option<&Memory>)
        ensures
            match last_named(self.memories@, name@) {
                Some(i) => r == Some(&self.memories@[i]),
                None => r is None,
            },
    {
        proof {
            lemma_last_named_in_bounds(self.memories@, name@);
        }
        match find_last_named(&self.memories, name) {
            Some(i) => Some(&self.memories[i]),
            None => None,
        }
    }

    /// The memory entry at `index`.
    pub fn get_memory_by_index(&self, index: usize) -> (r: Option<&Memory>)
        ensures
            index < self.memories@.len() ==> r == Some(&self.memories@[index as int]),
            index >= self.memories@.len() ==> r is None,
    {
        if index < self.memories.len() {
            Some(&self.memories[index])
        } else {
            None
        }
    }

    /// Appends a type entry; its position is its index and its name, if any,
    /// now resolves to it.
    pub fn add_type(&mut self, item: TypeDef)
        ensures
            final(self).types@ == old(self).types@.push(item),
            *final(self) == (SymbolTable { types: final(self).types, ..*old(self) }),
    {
        self.types.push(item);
    }

    /// The type entry that `name` resolves to (the last one declared with it).
    pub fn get_type_by_name(&self, name: &str) -> (r: Option<&TypeDef>)
        ensures
            match last_named(self.types@, name@) {
                Some(i) => r == Some(&self.types@[i]),
                None => r is None,
            },
    {
        proof {
            lemma_last_named_in_bounds(self.types@, name@);
        }
        match find_last_named(&self.types, name) {
            Some(i) => Some(&self.types[i]),
            None => None,
        }
    }

    /// The type entry at `index`.
    pub fn get_type_by_index(&self, index: usize) -> (r: Option<&TypeDef>)
        ensures
            index < self.types@.len() ==> r == Some(&self.types@[index as int]),
            index >= self.types@.len() ==> r is None,
    {
        if index < self.types.len() {
            Some(&self.types[index])
        } else {
            None
        }
    }

    /// Appends a tag entry; its position is its index and its name, if any,
    /// now resolves to it.
    pub fn add_tag(&mut self, item: Tag)
        ensures
            final(self).tags@ == old(self).tags@.push(item),
            *final(self) == (SymbolTable { tags: final(self).tags, ..*old(self) }),
    {
        self.tags.push(item);
    }

    /// The tag entry that `name` resolves to (the last one declared with it).
    pub fn get_tag_by_name(&self, name: &str) -> (r: Option<&Tag>)
        ensures
            match last_named(self.tags@, name@) {
                Some(i) => r == Some(&self.tags@[i]),
                None => r is None,
            },
    {
        proof {
            lemma_last_named_in_bounds(self.tags@, name@);
        }
        match find_last_named(&self.tags, name) {
            Some(i) => Some(&self.tags[i]),
            None => None,
        }
    }

    /// The tag entry at `index`.
    pub fn get_tag_by_index(&self, index: usize) -> (r: Option<&Tag>)
        ensures
            index < self.tags@.len() ==> r == Some(&self.tags@[index as int]),
            index >= self.tags@.len() ==> r is None,
    {
        if index < self.tags.len() {
            Some(&self.tags[index])
        } else {
            None
        }
    }

    /// Appends a data entry; its position is its index and its name, if any,
    /// now resolves to it.
    pub fn add_data(&mut self, item: DataSegment)
        ensures
            final(self).data_segments@ == old(self).data_segments@.push(item),
            *final(self) == (SymbolTable { data_segments: final(self).data_segments, ..*old(self) }),
    {
        self.data_segments.push(item);
    }

    /// The data entry that `name` resolves to (the last one declared with it).
    pub fn get_data_by_name(&self, name: &str) -> (r: Option<&DataSegment>)
        ensures
            match last_named(self.data_segments@, name@) {
                Some(i) => r == Some(&self.data_segments@[i]),
                None => r is None,
            },
    {
        proof {
            lemma_last_named_in_bounds(self.data_segments@, name@);
        }
        match find_last_named(&self.data_segments, name) {
            Some(i) => Some(&self.data_segments[i]),
            None => None,
        }
    }

    /// The data entry at `index`.
    pub fn get_data_by_index(&self, index: usize) -> (r: Option<&DataSegment>)
        ensures
            index < self.data_segments@.len() ==> r == Some(&self.data_segments@[index as int]),
            index >= self.data_segments@.len() ==> r is None,
    {
        if index < self.data_segments.len() {
            Some(&self.data_segments[index])
        } else {
            None
        }
    }

    /// Appends an elem entry; its position is its index and its name, if any,
    /// now resolves to it.
    pub fn add_elem(&mut self, item: ElemSegment)
        ensures
            final(self).elem_segments@ == old(self).elem_segments@.push(item),
            *final(self) == (SymbolTable { elem_segments: final(self).elem_segments, ..*old(self) }),
    {
        self.elem_segments.push(item);
    }

    /// The elem entry that `name` resolves to (the last one declared with it).
    pub fn get_elem_by_name(&self, name: &str) -> (r: Option<&ElemSegment>)
        ensures
            match last_named(self.elem_segments@, name@) {
                Some(i) => r == Some(&self.elem_segments@[i]),
                None => r is None,
            },
    {
        proof {
            lemma_last_named_in_bounds(self.elem_segments@, name@);
        }
        match find_last_named(&self.elem_segments, name) {
            Some(i) => Some(&self.elem_segments[i]),
            None => None,
        }
    }

    /// The elem entry at `index`.
    pub fn get_elem_by_index(&self, index: usize) -> (r: Option<&ElemSegment>)
        ensures
            index < self.elem_segments@.len() ==> r == Some(&self.elem_segments@[index as int]),
            index >= self.elem_segments@.len() ==> r is None,
    {
        if index < self.elem_segments.len() {
            Some(&self.elem_segments[index])
        } else {
            None
        }
    }
}

impl Default for SymbolTable {
    fn default() -> (t: SymbolTable)
        ensures
            t.functions@.len() == 0,
            t.globals@.len() == 0,
            t.tables@.len() == 0,
            t.memories@.len() == 0,
            t.types@.len() == 0,
            t.tags@.len() == 0,
            t.data_segments@.len() == 0,
            t.elem_segments@.len() == 0,
    {
        SymbolTable::new()
    }
}

} // verus!

verus! {

/// After an entry named `n` is added, `n` resolves to that entry, which sits
/// at the position the table had as its length.
pub proof fn law_added_name_resolves<T: Named>(items: Seq<T>, item: T, n: Seq<char>)
    requires
        item.spec_name() == Some(n),
    ensures
        last_named(items.push(item), n) == Some(items.len() as int),
        lookup_named(items.push(item), n) == Some(item),
        lookup_index(items.push(item), items.len() as int) == Some(item),
{
    assert(items.push(item).last() == item);
}

/// Adding an entry leaves the resolution of every other name unchanged.
pub proof fn law_add_keeps_other_names<T: Named>(items: Seq<T>, item: T, m: Seq<char>)
    requires
        item.spec_name() != Some(m),
    ensures
        last_named(items.push(item), m) == last_named(items, m),
        lookup_named(items.push(item), m) == lookup_named(items, m),
{
    assert(items.push(item).drop_last() =~= items);
    lemma_last_named_in_bounds(items, m);
    if let Some(i) = last_named(items, m) {
        assert(items.push(item)[i] == items[i]);
    }
}

/// Adding an entry leaves every existing position unchanged.
pub proof fn law_add_keeps_positions<T>(items: Seq<T>, item: T, i: int)
    requires
        i != items.len(),
    ensures
        lookup_index(items.push(item), i) == lookup_index(items, i),
{
}

} // verus!

verus! {

/// Index of the first entry named `n`.
pub open spec fn first_named<T: Named>(items: Seq<T>, n: Seq<char>) -> Option<int>
    decreases items.len(),
{
    if items.len() == 0 {
        None
    } else if items[0].spec_name() == Some(n) {
        Some(0)
    } else {
        match first_named(items.drop_first(), n) {
            Some(i) => Some(i + 1),
            None => None,
        }
    }
}

pub proof fn lemma_first_named<T: Named>(items: Seq<T>, n: Seq<char>)
    ensures
        first_named(items, n) matches Some(i) ==> 0 <= i < items.len() && items[i].spec_name()
            == Some(n) && forall|j: int| 0 <= j < i ==> items[j].spec_name() != Some(n),
        first_named(items, n) is None ==> forall|j: int|
            0 <= j < items.len() ==> items[j].spec_name() != Some(n),
    decreases items.len(),
{
    if items.len() > 0 {
        lemma_first_named(items.drop_first(), n);
        assert forall|j: int| 1 <= j < items.len() implies items.drop_first()[j - 1] == items[j] by {}
    }
}

/// Position of the first entry whose name is `name`.
pub fn find_first_named<T: Named>(items: &Vec<T>, name: &str) -> (r: Option<usize>)
    ensures
        match r {
            Some(i) => first_named(items@, name@) == Some(i as int),
            None => first_named(items@, name@) is None,
        },
{
    proof {
        lemma_first_named(items@, name@);
    }
    let mut i: usize = 0;
    while i < items.len()
        invariant
            i <= items@.len(),
            forall|j: int| 0 <= j < i ==> items@[j].spec_name() != Some(name@),
        decreases items@.len() - i,
    {
        if items[i].name_is(name) {
            proof {
                lemma_first_named(items@, name@);
            }
            return Some(i);
        }
        i = i + 1;
    }
    proof {
        lemma_first_named(items@, name@);
    }
    None
}

} // verus!

verus! {

impl DeepView for ValueType {
    type V = ValueType;

    open spec fn deep_view(&self) -> ValueType {
        *self
    }
}

/// The mathematical content of a `Parameter`.
pub struct ParameterModel {
    pub name: Option<Seq<char>>,
    pub param_type: ValueType,
    pub index: usize,
    pub range: Option<Range>,
}

impl DeepView for Parameter {
    type V = ParameterModel;

    open spec fn deep_view(&self) -> ParameterModel {
        ParameterModel {
            name: text::opt_view(self.name),
            param_type: self.param_type,
            index: self.index,
            range: self.range,
        }
    }
}

/// The mathematical content of a `Variable`.
pub struct VariableModel {
    pub name: Option<Seq<char>>,
    pub var_type: ValueType,
    pub is_mutable: bool,
    pub initial_value: Option<Seq<char>>,
    pub index: usize,
    pub range: Option<Range>,
}

impl DeepView for Variable {
    type V = VariableModel;

    open spec fn deep_view(&self) -> VariableModel {
        VariableModel {
            name: text::opt_view(self.name),
            var_type: self.var_type,
            is_mutable: self.is_mutable,
            initial_value: text::opt_view(self.initial_value),
            index: self.index,
            range: self.range,
        }
    }
}

/// The mathematical content of a `BlockLabel`.
pub struct BlockLabelModel {
    pub label: Seq<char>,
    pub block_type: Seq<char>,
    pub line: u32,
    pub range: Option<Range>,
}

impl DeepView for BlockLabel {
    type V = BlockLabelModel;

    open spec fn deep_view(&self) -> BlockLabelModel {
        BlockLabelModel {
            label: self.label@,
            block_type: self.block_type@,
            line: self.line,
            range: self.range,
        }
    }
}

/// The mathematical content of a `Function`.
pub struct FunctionModel {
    pub name: Option<Seq<char>>,
    pub index: usize,
    pub parameters: Seq<ParameterModel>,
    pub results: Seq<ValueType>,
    pub locals: Seq<VariableModel>,
    pub blocks: Seq<BlockLabelModel>,
    pub line: u32,
    pub end_line: u32,
    pub start_byte: usize,
    pub end_byte: usize,
    pub range: Option<Range>,
    pub doc_comment: Option<Seq<char>>,
    pub has_type_use: bool,
}

impl DeepView for Function {
    type V = FunctionModel;

    open spec fn deep_view(&self) -> FunctionModel {
        FunctionModel {
            name: text::opt_view(self.name),
            index: self.index,
            parameters: self.parameters.deep_view(),
            results: self.results@,
            locals: self.locals.deep_view(),
            blocks: self.blocks.deep_view(),
            line: self.line,
            end_line: self.end_line,
            start_byte: self.start_byte,
            end_byte: self.end_byte,
            range: self.range,
            doc_comment: text::opt_view(self.doc_comment),
            has_type_use: self.has_type_use,
        }
    }
}

/// The mathematical content of a `Global`.
pub struct GlobalModel {
    pub name: Option<Seq<char>>,
    pub index: usize,
    pub var_type: ValueType,
    pub is_mutable: bool,
    pub initial_value: Option<Seq<char>>,
    pub line: u32,
    pub range: Option<Range>,
}

impl DeepView for Global {
    type V = GlobalModel;

    open spec fn deep_view(&self) -> GlobalModel {
        GlobalModel {
            name: text::opt_view(self.name),
            index: self.index,
            var_type: self.var_type,
            is_mutable: self.is_mutable,
            initial_value: text::opt_view(self.initial_value),
            line: self.line,
            range: self.range,
        }
    }
}

/// The mathematical content of a `Table`.
pub struct TableModel {
    pub name: Option<Seq<char>>,
    pub index: usize,
    pub ref_type: ValueType,
    pub limits: Limits,
    pub line: u32,
    pub range: Option<Range>,
}

impl DeepView for Table {
    type V = TableModel;

    open spec fn deep_view(&self) -> TableModel {
        TableModel {
            name: text::opt_view(self.name),
            index: self.index,
            ref_type: self.ref_type,
            limits: self.limits,
            line: self.line,
            range: self.range,
        }
    }
}

/// The mathematical content of a `Memory`.
pub struct MemoryModel {
    pub name: Option<Seq<char>>,
    pub index: usize,
    pub limits: Limits,
    pub line: u32,
    pub range: Option<Range>,
}

impl DeepView for Memory {
    type V = MemoryModel;

    open spec fn deep_view(&self) -> MemoryModel {
        MemoryModel {
            name: text::opt_view(self.name),
            index: self.index,
            limits: self.limits,
            line: self.line,
            range: self.range,
        }
    }
}

/// The mathematical content of a `TypeKind`.
pub enum TypeKindModel {
    Func { params: Seq<ValueType>, results: Seq<ValueType> },
    Struct { fields: Seq<(Option<Seq<char>>, ValueType, bool)> },
    Array { element_type: ValueType, mutable: bool },
}

pub open spec fn field_view(f: (Option<String>, ValueType, bool)) -> (Option<Seq<char>>, ValueType, bool) {
    (text::opt_view(f.0), f.1, f.2)
}

impl DeepView for TypeKind {
    type V = TypeKindModel;

    open spec fn deep_view(&self) -> TypeKindModel {
        match self {
            TypeKind::Func { params, results } => TypeKindModel::Func {
                params: params@,
                results: results@,
            },
            TypeKind::Struct { fields } => TypeKindModel::Struct {
                fields: Seq::new(fields@.len(), |i: int| field_view(fields@[i])),
            },
            TypeKind::Array { element_type, mutable } => TypeKindModel::Array {
                element_type: *element_type,
                mutable: *mutable,
            },
        }
    }
}

/// The mathematical content of a `TypeDef`.
pub struct TypeDefModel {
    pub name: Option<Seq<char>>,
    pub index: usize,
    pub kind: TypeKindModel,
    pub line: u32,
    pub range: Option<Range>,
}

impl DeepView for TypeDef {
    type V = TypeDefModel;

    open spec fn deep_view(&self) -> TypeDefModel {
        TypeDefModel {
            name: text::opt_view(self.name),
            index: self.index,
            kind: self.kind.deep_view(),
            line: self.line,
            range: self.range,
        }
    }
}

/// The mathematical content of a `Tag`.
pub struct TagModel {
    pub name: Option<Seq<char>>,
    pub index: usize,
    pub params: Seq<ValueType>,
    pub line: u32,
    pub range: Option<Range>,
}

impl DeepView for Tag {
    type V = TagModel;

    open spec fn deep_view(&self) -> TagModel {
        TagModel {
            name: text::opt_view(self.name),
            index: self.index,
            params: self.params@,
            line: self.line,
            range: self.range,
        }
    }
}

/// The mathematical content of a `DataSegment`.
pub struct DataModel {
    pub name: Option<Seq<char>>,
    pub index: usize,
    pub content: Seq<char>,
    pub byte_length: usize,
    pub line: u32,
    pub range: Option<Range>,
}

impl DeepView for DataSegment {
    type V = DataModel;

    open spec fn deep_view(&self) -> DataModel {
        DataModel {
            name: text::opt_view(self.name),
            index: self.index,
            content: self.content@,
            byte_length: self.byte_length,
            line: self.line,
            range: self.range,
        }
    }
}

/// The mathematical content of an `ElemSegment`.
pub struct ElemModel {
    pub name: Option<Seq<char>>,
    pub index: usize,
    pub func_names: Seq<Seq<char>>,
    pub line: u32,
    pub range: Option<Range>,
}

impl DeepView for ElemSegment {
    type V = ElemModel;

    open spec fn deep_view(&self) -> ElemModel {
        ElemModel {
            name: text::opt_view(self.name),
            index: self.index,
            func_names: self.func_names.deep_view(),
            line: self.line,
            range: self.range,
        }
    }
}

/// The mathematical content of a `SymbolTable`.
pub struct SymbolTableModel {
    pub functions: Seq<FunctionModel>,
    pub globals: Seq<GlobalModel>,
    pub tables: Seq<TableModel>,
    pub memories: Seq<MemoryModel>,
    pub types: Seq<TypeDefModel>,
    pub tags: Seq<TagModel>,
    pub data_segments: Seq<DataModel>,
    pub elem_segments: Seq<ElemModel>,
}

impl DeepView for SymbolTable {
    type V = SymbolTableModel;

    open spec fn deep_view(&self) -> SymbolTableModel {
        SymbolTableModel {
            functions: self.functions.deep_view(),
            globals: self.globals.deep_view(),
            tables: self.tables.deep_view(),
            memories: self.memories.deep_view(),
            types: self.types.deep_view(),
            tags: self.tags.deep_view(),
            data_segments: self.data_segments.deep_view(),
            elem_segments: self.elem_segments.deep_view(),
        }
    }
}

/// Appends `x` to `v`, keeping track of the deep view.
pub fn push_dv<T: DeepView>(v: &mut Vec<T>, x: T)
    ensures
        final(v)@ == old(v)@.push(x),
        final(v).deep_view() == old(v).deep_view().push(x.deep_view()),
{
    let ghost old_v = v@;
    v.push(x);
    assert(v.deep_view() =~= old(v).deep_view().push(x.deep_view()));
}

} // verus!

verus! {

/// The text form of a value type that a keyword names parses back to the
/// same value type.
pub proof fn law_value_type_name_round_trip(v: ValueType)
    requires
        !(v is Ref || v is RefNull || v is Unknown),
    ensures
        value_type_of(value_type_name(v)) == Some(v),
{
    reveal_strlit("i32");
    reveal_strlit("i64");
    reveal_strlit("f32");
    reveal_strlit("f64");
    reveal_strlit("v128");
    reveal_strlit("i8");
    reveal_strlit("i16");
    reveal_strlit("funcref");
    reveal_strlit("externref");
    reveal_strlit("structref");
    reveal_strlit("arrayref");
    reveal_strlit("i31ref");
    reveal_strlit("anyref");
    reveal_strlit("eqref");
    reveal_strlit("nullref");
    reveal_strlit("nullfuncref");
    reveal_strlit("nullexternref");
    match v {
        ValueType::I32 => {

        },
        ValueType::I64 => {
            assert("i64"@[1] != "i32"@[1]);
        },
        ValueType::F32 => {
            assert("f32"@[0] != "i32"@[0]);
            assert("f32"@[0] != "i64"@[0]);
        },
        ValueType::F64 => {
            assert("f64"@[0] != "i32"@[0]);
            assert("f64"@[0] != "i64"@[0]);
            assert("f64"@[1] != "f32"@[1]);
        },
        ValueType::V128 => {
            assert("v128"@.len() != "i32"@.len());
            assert("v128"@.len() != "i64"@.len());
            assert("v128"@.len() != "f32"@.len());
            assert("v128"@.len() != "f64"@.len());
        },
        ValueType::I8 => {
            assert("i8"@.len() != "i32"@.len());
            assert("i8"@.len() != "i64"@.len());
            assert("i8"@.len() != "f32"@.len());
            assert("i8"@.len() != "f64"@.len());
            assert("i8"@.len() != "v128"@.len());
        },
        ValueType::I16 => {
            assert("i16"@[1] != "i32"@[1]);
            assert("i16"@[1] != "i64"@[1]);
            assert("i16"@[0] != "f32"@[0]);
            assert("i16"@[0] != "f64"@[0]);
            assert("i16"@.len() != "v128"@.len());
            assert("i16"@.len() != "i8"@.len());
        },
        ValueType::Funcref => {
            assert("funcref"@.len() != "i32"@.len());
            assert("funcref"@.len() != "i64"@.len());
            assert("funcref"@.len() != "f32"@.len());
            assert("funcref"@.len() != "f64"@.len());
            assert("funcref"@.len() != "v128"@.len());
            assert("funcref"@.len() != "i8"@.len());
            assert("funcref"@.len() != "i16"@.len());
        },
        ValueType::Externref => {
            assert("externref"@.len() != "i32"@.len());
            assert("externref"@.len() != "i64"@.len());
            assert("externref"@.len() != "f32"@.len());
            assert("externref"@.len() != "f64"@.len());
            assert("externref"@.len() != "v128"@.len());
            assert("externref"@.len() != "i8"@.len());
            assert("externref"@.len() != "i16"@.len());
            assert("externref"@.len() != "funcref"@.len());
        },
        ValueType::Structref => {
            assert("structref"@.len() != "i32"@.len());
            assert("structref"@.len() != "i64"@.len());
            assert("structref"@.len() != "f32"@.len());
            assert("structref"@.len() != "f64"@.len());
            assert("structref"@.len() != "v128"@.len());
            assert("structref"@.len() != "i8"@.len());
            assert("structref"@.len() != "i16"@.len());
            assert("structref"@.len() != "funcref"@.len());
            assert("structref"@[0] != "externref"@[0]);
        },
        ValueType::Arrayref => {
            assert("arrayref"@.len() != "i32"@.len());
            assert("arrayref"@.len() != "i64"@.len());
            assert("arrayref"@.len() != "f32"@.len());
            assert("arrayref"@.len() != "f64"@.len());
            assert("arrayref"@.len() != "v128"@.len());
            assert("arrayref"@.len() != "i8"@.len());
            assert("arrayref"@.len() != "i16"@.len());
            assert("arrayref"@.len() != "funcref"@.len());
            assert("arrayref"@.len() != "externref"@.len());
            assert("arrayref"@.len() != "structref"@.len());
        },
        ValueType::I31ref => {
            assert("i31ref"@.len() != "i32"@.len());
            assert("i31ref"@.len() != "i64"@.len());
            assert("i31ref"@.len() != "f32"@.len());
            assert("i31ref"@.len() != "f64"@.len());
            assert("i31ref"@.len() != "v128"@.len());
            assert("i31ref"@.len() != "i8"@.len());
            assert("i31ref"@.len() != "i16"@.len());
            assert("i31ref"@.len() != "funcref"@.len());
            assert("i31ref"@.len() != "externref"@.len());
            assert("i31ref"@.len() != "structref"@.len());
            assert("i31ref"@.len() != "arrayref"@.len());
        },
        ValueType::Anyref => {
            assert("anyref"@.len() != "i32"@.len());
            assert("anyref"@.len() != "i64"@.len());
            assert("anyref"@.len() != "f32"@.len());
            assert("anyref"@.len() != "f64"@.len());
            assert("anyref"@.len() != "v128"@.len());
            assert("anyref"@.len() != "i8"@.len());
            assert("anyref"@.len() != "i16"@.len());
            assert("anyref"@.len() != "funcref"@.len());
            assert("anyref"@.len() != "externref"@.len());
            assert("anyref"@.len() != "structref"@.len());
            assert("anyref"@.len() != "arrayref"@.len());
            assert("anyref"@[0] != "i31ref"@[0]);
        },
        ValueType::Eqref => {
            assert("eqref"@.len() != "i32"@.len());
            assert("eqref"@.len() != "i64"@.len());
            assert("eqref"@.len() != "f32"@.len());
            assert("eqref"@.len() != "f64"@.len());
            assert("eqref"@.len() != "v128"@.len());
            assert("eqref"@.len() != "i8"@.len());
            assert("eqref"@.len() != "i16"@.len());
            assert("eqref"@.len() != "funcref"@.len());
            assert("eqref"@.len() != "externref"@.len());
            assert("eqref"@.len() != "structref"@.len());
            assert("eqref"@.len() != "arrayref"@.len());
            assert("eqref"@.len() != "i31ref"@.len());
            assert("eqref"@.len() != "anyref"@.len());
        },
        ValueType::Nullref => {
            assert("nullref"@.len() != "i32"@.len());
            assert("nullref"@.len() != "i64"@.len());
            assert("nullref"@.len() != "f32"@.len());
            assert("nullref"@.len() != "f64"@.len());
            assert("nullref"@.len() != "v128"@.len());
            assert("nullref"@.len() != "i8"@.len());
            assert("nullref"@.len() != "i16"@.len());
            assert("nullref"@[0] != "funcref"@[0]);
            assert("nullref"@.len() != "externref"@.len());
            assert("nullref"@.len() != "structref"@.len());
            assert("nullref"@.len() != "arrayref"@.len());
            assert("nullref"@.len() != "i31ref"@.len());
            assert("nullref"@.len() != "anyref"@.len());
            assert("nullref"@.len() != "eqref"@.len());
        },
        ValueType::NullFuncref => {
            assert("nullfuncref"@.len() != "i32"@.len());
            assert("nullfuncref"@.len() != "i64"@.len());
            assert("nullfuncref"@.len() != "f32"@.len());
            assert("nullfuncref"@.len() != "f64"@.len());
            assert("nullfuncref"@.len() != "v128"@.len());
            assert("nullfuncref"@.len() != "i8"@.len());
            assert("nullfuncref"@.len() != "i16"@.len());
            assert("nullfuncref"@.len() != "funcref"@.len());
            assert("nullfuncref"@.len() != "externref"@.len());
            assert("nullfuncref"@.len() != "structref"@.len());
            assert("nullfuncref"@.len() != "arrayref"@.len());
            assert("nullfuncref"@.len() != "i31ref"@.len());
            assert("nullfuncref"@.len() != "anyref"@.len());
            assert("nullfuncref"@.len() != "eqref"@.len());
            assert("nullfuncref"@.len() != "nullref"@.len());
        },
        ValueType::NullExternref => {
            assert("nullexternref"@.len() != "i32"@.len());
            assert("nullexternref"@.len() != "i64"@.len());
            assert("nullexternref"@.len() != "f32"@.len());
            assert("nullexternref"@.len() != "f64"@.len());
            assert("nullexternref"@.len() != "v128"@.len());
            assert("nullexternref"@.len() != "i8"@.len());
            assert("nullexternref"@.len() != "i16"@.len());
            assert("nullexternref"@.len() != "funcref"@.len());
            assert("nullexternref"@.len() != "externref"@.len());
            assert("nullexternref"@.len() != "structref"@.len());
            assert("nullexternref"@.len() != "arrayref"@.len());
            assert("nullexternref"@.len() != "i31ref"@.len());
            assert("nullexternref"@.len() != "anyref"@.len());
            assert("nullexternref"@.len() != "eqref"@.len());
            assert("nullexternref"@.len() != "nullref"@.len());
            assert("nullexternref"@.len() != "nullfuncref"@.len());
        },
        _ => {},
    }
}

} // verus!
