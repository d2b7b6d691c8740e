//! The key-value store.

pub mod db;
pub mod order;
