//! Lexical analysis: characters to tokens.
pub mod token;
pub mod lexer;
