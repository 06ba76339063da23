//! Scope and symbol resolution for a small expression-and-function language.

pub mod ast;
pub mod extract;
pub mod keywords;
pub mod laws;
pub mod model;
pub mod resolution;
pub mod scope;
pub mod symbol_table;
