//! Structural source-code simplifier.
//!
//! The crate reduces source files to an architectural outline: declaration
//! headers, imports and field lists are kept, executable bodies are elided,
//! and constructors/initializers are kept verbatim.  A small pipeline layer
//! classifies files by extension, mirrors the simplified text into an output
//! tree and aggregates a summary document plus an error log.

pub mod text;
pub mod syntax;
pub mod parse;
pub mod python;
pub mod java;
pub mod kotlin;
pub mod rust;
pub mod typescript;
pub mod javascript;
pub mod walker;
pub mod lang;
pub mod pipeline;
