//! From source text to syntax trees.

pub mod ast;
pub mod chars;
pub mod errors;
pub mod grammar;
pub mod parser;
