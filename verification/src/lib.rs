//! The front end of a small scripting language: a tokenizer that turns source
//! text into tokens, and a recursive-descent parser that turns tokens into a
//! syntax tree.

pub mod ast;
pub mod chars;
pub mod error;
pub mod front;
pub mod grammar;
pub mod laws;
pub mod lexer;
pub mod parser;
pub mod render;
pub mod scan;
pub mod token;
