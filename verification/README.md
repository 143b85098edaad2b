# kurai

The front end of Kurai, a small compiled language: a lexer, a recursive-descent
parser, a constant folder and an LLVM code generator, written in Verus with their
contracts proved.

- `src/lexer.rs` — the lexical grammar as spec functions, and the tokenizer proved
  against it.
- `src/parser/` — the grammar of statements and expressions as spec functions
  (`grammar.rs`), the parser proved against it (`descent.rs`, `pieces.rs`,
  `sequence.rs`), and the entry points (`entry.rs`, `traits.rs`, `session.rs`).
- `src/parser/fold.rs` — folding constant expressions.
- `src/codegen/` — code generation through inkwell; the calls into inkwell are the
  trusted wrappers of `llvm.rs`. LLVM's objects are opaque to the proofs, so the code
  generator keeps, beside each call that makes something in the module, a ghost record
  of what it asked for (`Emitted` in `gen.rs`: constants, global strings, functions,
  blocks, stack slots, loads, operations, calls, returns); the contracts speak of it.
- `src/laws.rs` — properties of the library as a whole.
- `app/main.rs` — the `kuraic` command: reads the source and the imported module
  files, generates the LLVM IR and drives `llvm-as`, `opt`, `llc` and `clang`.
