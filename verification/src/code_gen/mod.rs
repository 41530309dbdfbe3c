//! Code generation: from the syntax tree to an intermediate form of typed
//! values, instructions and basic blocks.
pub mod ir;
pub mod table;
pub mod builder;
pub mod registry;
pub mod measure;
pub mod lowering;
pub mod expressions;
pub mod statements;
pub mod laws;
pub mod repeats;
