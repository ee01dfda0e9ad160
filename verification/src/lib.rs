//! A front end for a small programming language: a scanner that turns source
//! text into tokens, and a statement parser that turns tokens into a syntax
//! tree while collecting diagnostics for malformed input.

pub mod ast;
pub mod grammar;
pub mod lexer;
pub mod parser;
pub mod scan;
pub mod text;
pub mod token;
