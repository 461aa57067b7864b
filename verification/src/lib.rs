//! A verified front end for a small subset of the C language: a tokenizer
//! that turns source text into a positioned token stream, and a recursive
//! descent / precedence climbing parser that turns that stream into a typed
//! abstract syntax tree with full operator precedence and associativity.

pub mod ast;
pub mod error;
pub mod lexer;
pub mod operator;
pub mod parser;
pub mod precedence;
pub mod token;
