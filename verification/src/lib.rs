//! A tree-walking interpreter for Lax, a small dynamically typed scripting
//! language: lexer, parser, resolver and evaluator, each stated against a
//! mathematical model and proved with Verus.
//!
//! Source text goes through `scanner`, `ast::parser`, `resolver` and
//! `interpreter`, in this order. What each of them computes is defined as a
//! function of mathematics in `scanner`, `ast::grammar`, `resolver` and
//! `semantics`; `literals` and `invariants` hold theorems about these
//! functions.

pub mod text;
pub mod number;
pub mod token;
pub mod error;
pub mod scanner;
pub mod ast;
pub mod resolver;
pub mod table;
pub mod enviroment;
pub mod environment;
pub mod callables;
pub mod heap;
pub mod semantics;
pub mod interpreter;
pub mod literals;
pub mod invariants;
