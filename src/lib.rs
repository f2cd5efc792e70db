//! A small dynamically typed scripting language: parser, value model and a
//! tree-walking evaluator whose rules are stated and proved with Verus.
pub mod ast;
pub mod env;
pub mod error;
pub mod eval;
pub mod laws;
pub mod ops;
pub mod parser;
pub mod text;
pub mod value;
