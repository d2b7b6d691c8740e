//! Static types of the language and the checks made on them.

pub mod bidirectional_typechecker;
pub mod env;
pub mod errors;
pub mod types;
