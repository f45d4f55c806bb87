//! Symbolic expression trees: immutable expressions, incremental builders with
//! holes, downward cursors into builders, and sparse structural patterns.

pub use crate::exprs::Expr;

pub mod exprs;
pub mod nodes;
pub mod patterns;
pub mod tokens;
