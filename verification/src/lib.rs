//! Lexical front-end for a small interpreted language: a token catalog,
//! an operator-precedence table, and a maximal-munch scanner.

pub mod tokens;
pub mod matching;
pub mod scanner;
