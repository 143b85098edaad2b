//! Kurai: the front end of a small compiled language — a lexer, a recursive-descent
//! parser, a constant folder and an LLVM code generator — with verified contracts.

pub mod types;
pub mod value;

pub mod text;
pub mod token;
pub mod lexer;
pub mod ast;
pub mod scope;
pub mod eat;
pub mod same;
pub mod instr;
pub mod parser;
pub mod codegen;
pub mod laws;



