//! Builds Java source files and Maven build descriptors from an in-memory model.
//!
//! The `java` module holds the code model, the statement templates, the import
//! rules, the indentation-aware emitter and the build descriptors. `parser`
//! and `parse` hold the descriptions that a project is generated from.
//! Everything here computes text and values; the callers decide where they
//! are read from and where they are stored.

pub mod config;
pub mod error;
pub mod java;
pub mod name_index;
pub mod parse;
pub mod parser;
pub mod text;

pub use error::PGError;
pub use parser::Parser;
