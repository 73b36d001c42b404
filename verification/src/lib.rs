//! A scanner for a small imperative language: it turns source text into tokens, one
//! per pull. The grammar is stated as specification functions, and the scanner is
//! proved to yield exactly the tokens that they describe.

pub mod grammar;
pub mod lexer;
pub mod repl;
pub mod token;
