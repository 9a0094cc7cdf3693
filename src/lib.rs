//! Front end of a small C-like language: a scanner that turns source text
//! into located tokens, and a recursive-descent parser that builds a syntax
//! tree from them.
pub mod lexer;
pub mod parser;
pub mod syntax_token;
