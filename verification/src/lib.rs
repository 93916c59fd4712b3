//! A lexical scanner for a small expression language: integer literals,
//! identifiers, arithmetic and comparison symbols, grouping symbols and
//! reserved words, each token tagged with the offset of its first
//! character. The scanner is pull-based: each call of `Lexer::next`
//! skips whitespace, classifies the next run of characters and returns
//! one token, never panicking and never reading past the end of input.

pub mod ast;
pub mod laws;
pub mod lexeme;
pub mod lexer;
pub mod scan;
pub mod toke;

pub use lexeme::Lexeme;
pub use lexer::Lexer;
