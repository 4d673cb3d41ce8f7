//! From syntax tree to Luau text.

pub mod codegen;
pub mod model;
