//! A small expression language: a scanner that turns source text into
//! tokens, a recursive-descent parser with recovery at statement boundaries,
//! and a tree-walking evaluator over an environment of named values.
//!
//! Every function carries a contract over a mathematical model of its data:
//! source text and names are sequences of characters, token streams and
//! statement lists are sequences, and an environment is a map from names to
//! what they are bound to. [`lexical`], [`syntax`] and [`semantics`] say what
//! scanning, parsing and evaluating yield; [`token`], [`parser`] and [`eval`]
//! hold the code that is proved to yield it, and [`interpreter`] runs the
//! three in a row.
//!
//! The library computes with no floating point. A number token carries its
//! numeral as written, and a number value is the arithmetic that yields it:
//! which operations, on which operands, in which order. Nothing in the
//! language decides anything by what an operation yields, so carrying the
//! operations out is left to the caller.

pub mod ast;
pub mod eval;
pub mod interpreter;
pub mod lexical;
pub mod parser;
pub mod runtime;
pub mod semantics;
pub mod syntax;
pub mod text;
pub mod token;
