pub mod text;
pub mod types;
pub mod symbols;
pub mod instruction_metadata;
pub mod utils;
pub mod symbol_lookup;
pub mod syntax;
pub mod parser;
pub mod semantic_tokens;
pub mod hover;
pub mod completion;
pub mod document_symbols;
pub mod signature;
pub mod references;
pub mod definition;
pub mod docs;
pub mod hover_core;
pub mod folding;
pub mod session;
pub mod wast_parser;
