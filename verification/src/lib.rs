//! A small S-expression language: parser, typechecker and evaluator over a
//! key-value store.

pub mod db;
pub mod decimal;
pub mod interpreter;
pub mod parser;
pub mod text;
pub mod typechecker;
