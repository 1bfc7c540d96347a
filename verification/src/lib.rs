//! Front end of the Ku language: a lazy tokenizer with two tokens of
//! lookahead, a recursive-descent parser that records diagnostics instead of
//! failing, the syntax tree it builds, and a symbol table that resolves
//! qualified names through nested scopes.

pub mod ast;
pub mod cache;
pub mod diagnostic;
pub mod mir;
pub mod parse;
pub mod span;
pub mod symbol;
pub mod token;
pub mod tokenizer;
pub mod tokens;
