//! Syntax: the tree and the parser that builds it from tokens.
pub mod ast;
pub mod grammar;
pub mod parser;
