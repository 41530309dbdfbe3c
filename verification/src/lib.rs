//! Front end and code generator of the ADAN compiler.
//!
//! Source text is turned into tokens ([`lexer`]), tokens into a syntax tree
//! ([`parser`]), and the tree into a typed intermediate form made of basic
//! blocks ([`code_gen`]). Calls into the runtime go through the module
//! registry of the code generator; [`native`] holds the modules that are known
//! from the start.
pub mod text;
pub mod lexer;
pub mod parser;
pub mod stdlib;
pub mod code_gen;
pub mod native;
