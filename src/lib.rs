//! Syntactic front end of a small expression language: a Pratt parser over a
//! token stream, a statement driver with error recovery, and structured
//! diagnostics.
pub mod ast;
pub mod error;
pub mod grammar;
pub mod laws;
pub mod lexing;
pub mod parser;
pub mod precedence;
pub mod settled;
pub mod text;
pub mod token;
