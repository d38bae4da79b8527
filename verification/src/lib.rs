//! A verified conversion engine between SIEVE (RFC 5228) filter-script text
//! and a structured, editable rule model.
//!
//! The pipeline has two directions. Parsing: text is tokenized by the lexer,
//! parsed into an abstract syntax tree, and projected onto a simplified rule
//! model. Emission: the model is rebuilt into an AST and printed back to
//! script text. Constructs the model cannot represent are preserved verbatim
//! as raw blocks, so no script content is ever lost.

pub mod strutil;
pub mod enums;
pub mod lexer;
pub mod ast;
pub mod parser;
pub mod model;
pub mod emitter;
pub mod converter;
pub mod laws;
pub mod ui;
pub mod protocol;
