//! Evaluation of checked expressions against the store.

pub mod env;
pub mod interpret;
pub mod types;
