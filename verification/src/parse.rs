//! The surface syntax tree and its lowering into the typed language.

pub mod desugar;
pub mod expr;
pub mod types;
