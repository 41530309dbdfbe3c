//! The parts of the language's standard library that are plain computation.
pub mod math;
pub mod io;
