//! Symbol lookup shared by hover, definition, references and semantic tokens.
use vstd::prelude::*;
use crate::symbols;
use crate::symbols::{find_first_named, BlockLabel, Function, Parameter, SymbolTable, Variable};
use crate::types::{Position, Range};
use crate::utils;
use crate::utils::{find_containing_function, InstructionContext};

verus! {

/// Definition range of the first parameter, else of the first local, named `w`.
pub open spec fn local_or_param_range(func: Function, w: Seq<char>) -> Option<Range> {
    match symbols::first_named(func.parameters@, w) {
        Some(i) => func.parameters@[i].range,
        None => match symbols::first_named(func.locals@, w) {
            Some(j) => func.locals@[j].range,
            None => None,
        },
    }
}

/// Definition range of the first block labelled `w`.
pub open spec fn block_label_range(func: Function, w: Seq<char>) -> Option<Range> {
    match symbols::first_named(func.blocks@, w) {
        Some(i) => func.blocks@[i].range,
        None => None,
    }
}

/// The function containing a position.
pub open spec fn containing_function(symbols: SymbolTable, pos: Position) -> Option<Function> {
    match utils::containing_function_index(symbols.functions@, pos.line) {
        Some(i) => Some(symbols.functions@[i]),
        None => None,
    }
}

/// Definition range of a name in the function containing `pos`: a parameter
/// or local (`locals`) or a block label.
pub open spec fn scoped_range(symbols: SymbolTable, pos: Position, w: Seq<char>, locals: bool) -> Option<Range> {
    match containing_function(symbols, pos) {
        Some(f) => if locals {
            local_or_param_range(f, w)
        } else {
            block_label_range(f, w)
        },
        None => None,
    }
}

/// Where a `$name` is defined: the first kind of entity, in the order
/// functions, globals, locals/parameters, block labels, tables, memories,
/// types, tags, data and elem segments, that declares the name. The range of
/// that declaration is the answer, also when it has none.
pub open spec fn symbol_definition_range(symbols: SymbolTable, w: Seq<char>, pos: Position) -> Option<Range> {
    if let Some(f) = symbols::lookup_named(symbols.functions@, w) {
        f.range
    } else if let Some(g) = symbols::lookup_named(symbols.globals@, w) {
        g.range
    } else if let Some(r) = scoped_range(symbols, pos, w, true) {
        Some(r)
    } else if let Some(r) = scoped_range(symbols, pos, w, false) {
        Some(r)
    } else if let Some(t) = symbols::lookup_named(symbols.tables@, w) {
        t.range
    } else if let Some(m) = symbols::lookup_named(symbols.memories@, w) {
        m.range
    } else if let Some(t) = symbols::lookup_named(symbols.types@, w) {
        t.range
    } else if let Some(t) = symbols::lookup_named(symbols.tags@, w) {
        t.range
    } else if let Some(d) = symbols::lookup_named(symbols.data_segments@, w) {
        d.range
    } else if let Some(e) = symbols::lookup_named(symbols.elem_segments@, w) {
        e.range
    } else {
        None
    }
}

/// Find the definition range for a named symbol (starts with $).
/// Searches all global symbol types in a consistent order.
pub fn find_symbol_definition_range(word: &str, symbols: &SymbolTable, position: Position) -> (r: Option<Range>)
    ensures
        r == symbol_definition_range(*symbols, word@, position),
{
    if let Some(func) = symbols.get_function_by_name(word) {
        return func.range;
    }
    if let Some(global) = symbols.get_global_by_name(word) {
        return global.range;
    }
    if let Some(range) = find_local_or_param_range(word, symbols, position) {
        return Some(range);
    }
    if let Some(range) = find_block_label_range(word, symbols, position) {
        return Some(range);
    }
    if let Some(table) = symbols.get_table_by_name(word) {
        return table.range;
    }
    if let Some(memory) = symbols.get_memory_by_name(word) {
        return memory.range;
    }
    if let Some(type_def) = symbols.get_type_by_name(word) {
        return type_def.range;
    }
    if let Some(tag) = symbols.get_tag_by_name(word) {
        return tag.range;
    }
    if let Some(data) = symbols.get_data_by_name(word) {
        return data.range;
    }
    if let Some(elem) = symbols.get_elem_by_name(word) {
        return elem.range;
    }
    None
}

/// Find range for a local variable or parameter within the containing function.
pub fn find_local_or_param_range(word: &str, symbols: &SymbolTable, position: Position) -> (r: Option<Range>)
    ensures
        r == scoped_range(*symbols, position, word@, true),
{
    let func = match find_containing_function(symbols, position) {
        Some(f) => f,
        None => return None,
    };
    find_local_or_param_in_function(word, func)
}

/// Find range for a local variable or parameter within a specific function.
pub fn find_local_or_param_in_function(word: &str, func: &Function) -> (r: Option<Range>)
    ensures
        r == local_or_param_range(*func, word@),
{
    if let Some(param) = find_param_in_function(word, func) {
        return param.range;
    }
    if let Some(local) = find_local_in_function(word, func) {
        return local.range;
    }
    None
}

/// Find a parameter by name within a specific function.
pub fn find_param_in_function<'a>(word: &str, func: &'a Function) -> (r: Option<&'a Parameter>)
    ensures
        match symbols::first_named(func.parameters@, word@) {
            Some(i) => r == Some(&func.parameters@[i]),
            None => r is None,
        },
{
    proof {
        symbols::lemma_first_named(func.parameters@, word@);
    }
    match find_first_named(&func.parameters, word) {
        Some(i) => Some(&func.parameters[i]),
        None => None,
    }
}

/// Find a local variable by name within a specific function.
pub fn find_local_in_function<'a>(word: &str, func: &'a Function) -> (r: Option<&'a Variable>)
    ensures
        match symbols::first_named(func.locals@, word@) {
            Some(i) => r == Some(&func.locals@[i]),
            None => r is None,
        },
{
    proof {
        symbols::lemma_first_named(func.locals@, word@);
    }
    match find_first_named(&func.locals, word) {
        Some(i) => Some(&func.locals[i]),
        None => None,
    }
}

/// Find range for a block label within the containing function.
pub fn find_block_label_range(word: &str, symbols: &SymbolTable, position: Position) -> (r: Option<Range>)
    ensures
        r == scoped_range(*symbols, position, word@, false),
{
    let func = match find_containing_function(symbols, position) {
        Some(f) => f,
        None => return None,
    };
    find_block_label_in_function(word, func)
}

/// Find range for a block label within a specific function.
pub fn find_block_label_in_function(word: &str, func: &Function) -> (r: Option<Range>)
    ensures
        r == block_label_range(*func, word@),
{
    match find_block_in_function(word, func) {
        Some(block) => block.range,
        None => None,
    }
}

/// Find a block label by name within a specific function.
pub fn find_block_in_function<'a>(word: &str, func: &'a Function) -> (r: Option<&'a BlockLabel>)
    ensures
        match symbols::first_named(func.blocks@, word@) {
            Some(i) => r == Some(&func.blocks@[i]),
            None => r is None,
        },
{
    proof {
        symbols::lemma_first_named(func.blocks@, word@);
    }
    match find_first_named(&func.blocks, word) {
        Some(i) => Some(&func.blocks[i]),
        None => None,
    }
}

/// Context for numeric index lookup.
#[derive(Debug, Clone, Copy, PartialEq, Eq, Structural)]
pub enum IndexContext {
    Function,
    Global,
    Type,
    Tag,
    Table,
    Memory,
    Data,
    Elem,
    Local,
}

/// The index space that an instruction context refers to, if any.
pub open spec fn index_context_of(ctx: InstructionContext) -> Option<IndexContext> {
    match ctx {
        InstructionContext::Call | InstructionContext::Function => Some(IndexContext::Function),
        InstructionContext::Global => Some(IndexContext::Global),
        InstructionContext::Local => Some(IndexContext::Local),
        InstructionContext::Type => Some(IndexContext::Type),
        InstructionContext::Tag => Some(IndexContext::Tag),
        InstructionContext::Table => Some(IndexContext::Table),
        InstructionContext::Memory => Some(IndexContext::Memory),
        InstructionContext::Data => Some(IndexContext::Data),
        InstructionContext::Elem => Some(IndexContext::Elem),
        InstructionContext::Branch | InstructionContext::Block | InstructionContext::General => None,
    }
}

impl IndexContext {
    /// Convert from InstructionContext to IndexContext.
    /// Returns None for contexts that don't have numeric indices.
    pub fn from_instruction_context(ctx: InstructionContext) -> (r: Option<IndexContext>)
        ensures
            r == index_context_of(ctx),
    {
        match ctx {
            InstructionContext::Call | InstructionContext::Function => Some(IndexContext::Function),
            InstructionContext::Global => Some(IndexContext::Global),
            InstructionContext::Local => Some(IndexContext::Local),
            InstructionContext::Type => Some(IndexContext::Type),
            InstructionContext::Tag => Some(IndexContext::Tag),
            InstructionContext::Table => Some(IndexContext::Table),
            InstructionContext::Memory => Some(IndexContext::Memory),
            InstructionContext::Data => Some(IndexContext::Data),
            InstructionContext::Elem => Some(IndexContext::Elem),
            InstructionContext::Branch | InstructionContext::Block | InstructionContext::General => None,
        }
    }
}

/// Definition range of the entity at `index` in the given index space. Local
/// indices count the parameters of the containing function first, then its
/// locals.
pub open spec fn index_definition_range(symbols: SymbolTable, index: int, ctx: IndexContext, pos: Position) -> Option<Range> {
    match ctx {
        IndexContext::Function => match symbols::lookup_index(symbols.functions@, index) {
            Some(f) => f.range,
            None => None,
        },
        IndexContext::Global => match symbols::lookup_index(symbols.globals@, index) {
            Some(g) => g.range,
            None => None,
        },
        IndexContext::Type => match symbols::lookup_index(symbols.types@, index) {
            Some(t) => t.range,
            None => None,
        },
        IndexContext::Tag => match symbols::lookup_index(symbols.tags@, index) {
            Some(t) => t.range,
            None => None,
        },
        IndexContext::Table => match symbols::lookup_index(symbols.tables@, index) {
            Some(t) => t.range,
            None => None,
        },
        IndexContext::Memory => match symbols::lookup_index(symbols.memories@, index) {
            Some(m) => m.range,
            None => None,
        },
        IndexContext::Data => match symbols::lookup_index(symbols.data_segments@, index) {
            Some(d) => d.range,
            None => None,
        },
        IndexContext::Elem => match symbols::lookup_index(symbols.elem_segments@, index) {
            Some(e) => e.range,
            None => None,
        },
        IndexContext::Local => match containing_function(symbols, pos) {
            Some(f) => if index < f.parameters@.len() {
                match symbols::lookup_index(f.parameters@, index) {
                    Some(p) => p.range,
                    None => None,
                }
            } else {
                match symbols::lookup_index(f.locals@, index - f.parameters@.len()) {
                    Some(l) => l.range,
                    None => None,
                }
            },
            None => None,
        },
    }
}

/// Find the definition range for a numeric index based on context.
pub fn find_index_definition_range(index: usize, symbols: &SymbolTable, context: IndexContext, position: Position) -> (r: Option<Range>)
    ensures
        r == index_definition_range(*symbols, index as int, context, position),
{
    match context {
        IndexContext::Function => match symbols.get_function_by_index(index) {
            Some(f) => f.range,
            None => None,
        },
        IndexContext::Global => match symbols.get_global_by_index(index) {
            Some(g) => g.range,
            None => None,
        },
        IndexContext::Type => match symbols.get_type_by_index(index) {
            Some(t) => t.range,
            None => None,
        },
        IndexContext::Tag => match symbols.get_tag_by_index(index) {
            Some(t) => t.range,
            None => None,
        },
        IndexContext::Table => match symbols.get_table_by_index(index) {
            Some(t) => t.range,
            None => None,
        },
        IndexContext::Memory => match symbols.get_memory_by_index(index) {
            Some(m) => m.range,
            None => None,
        },
        IndexContext::Data => match symbols.get_data_by_index(index) {
            Some(d) => d.range,
            None => None,
        },
        IndexContext::Elem => match symbols.get_elem_by_index(index) {
            Some(e) => e.range,
            None => None,
        },
        IndexContext::Local => {
            if let Some(func) = find_containing_function(symbols, position) {
                let total_params = func.parameters.len();
                if index < total_params {
                    func.parameters[index].range
                } else if index - total_params < func.locals.len() {
                    func.locals[index - total_params].range
                } else {
                    None
                }
            } else {
                None
            }
        },
    }
}

} // verus!
