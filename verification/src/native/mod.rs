//! The modules that the runtime supplies.
pub mod http;
pub mod io;
