# wat_lsp_rust

A language server for the WebAssembly text format (`.wat`), whose analysis
is written in Verus: every function of the library carries a contract that
Verus proves.

## What it does

Hover, completions, signature help, go to definition, find references,
rename, document outline, folding ranges and semantic tokens for `.wat`
files, covering WasmGC, SIMD and relaxed SIMD, exception handling and
reference types.

## Layout

- `src/` is the verified library.
  - `text`, `syntax`, `parser`: characters and lines, the syntax tree of a
    document, and the symbol table read from it (functions numbered with
    imports first, duplicate names dropped).
  - `symbols`, `types`, `symbol_lookup`: the symbol table and the LSP value
    types, and resolving a name or an index to its definition.
  - `hover`, `hover_core`, `completion`, `signature`, `definition`,
    `references`, `document_symbols`, `folding`, `semantic_tokens`: the
    editor features, each stated over a specification of its result.
  - `instruction_metadata`: the arity of each instruction, kept sorted by
    name and searched by binary search.
  - `session`: applying edits to an open document.
  - `wast_parser`: the `wast` crate's verdict on a document and the symbols
    read from it.
- `app/` is the server itself: the LSP transport (`tower-lsp`, `tokio`) and
  the store of open documents. It checks each library function's
  preconditions before calling it.
- `tests/` runs the library on concrete documents.

## Instruction reference

Hover on an instruction word (such as `i32.add`) shows that instruction's
entry in a reference table that the caller supplies (`docs` module). The
server reads the table from a directory of Markdown files, one per
instruction and named after it, given by `--instruction-docs <dir>`; without
it, instruction words get no hover.
