//! A precedence-climbing parser for expressions.
//!
//! The parser turns a sequence of tokens into a syntax tree. Its behaviour is
//! stated twice: as a recursive function on token sequences, which the
//! executable parser is proved to compute, and as a grammar on trees, with
//! which that function is proved to agree in both directions.
pub mod token;
pub mod ast;
pub mod cursor;
pub mod parser;
pub mod grammar;
pub mod corollaries;
