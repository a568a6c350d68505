//! A small programming language with Chinese keywords: a lexer, a
//! recursive-descent parser, a tree-walking interpreter, and a code generator
//! that lowers programs to C source text.
//!
//! Numbers in the language are 64-bit signed integers. Statement execution is
//! modelled by a tagged outcome type (completed / break / continue / return),
//! and every failure condition is a variant of a typed error enum. The
//! interpreter and the spec-level semantics it is verified against both take a
//! fuel budget, so that programs that would run forever end in a dedicated
//! resource-exhaustion error.

pub mod ast;
pub mod codegen;
pub mod env;
pub mod errors;
pub mod fmt;
pub mod interp;
pub mod laws;
pub mod lexer;
pub mod numfmt;
pub mod parser;
pub mod pipeline;
pub mod semantics;
pub mod strutil;
pub mod value;
