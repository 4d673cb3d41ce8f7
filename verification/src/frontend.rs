//! From source text to syntax tree.

pub mod ast;
pub mod grammar;
pub mod lexer;
pub mod parser;
pub mod token;
