//! A translator from a small BASIC-like language to C source text.
//!
//! The pipeline is a pull lexer, a single-pass recursive-descent parser that
//! emits code while it recognises the grammar, and a two-buffer emitter.
//! Every executable function is specified against a mathematical model of
//! the translation and verified with Verus.

pub mod emitter;
pub mod error;
pub mod grammar;
pub mod lexer;
pub mod names;
pub mod order;
pub mod parser;
mod text;
