//! An interpreter for a small parenthesised expression language: a lexer, a parser, a value
//! model with persistent environments, and a tree-walking evaluator. The meaning of programs is
//! stated as spec functions in `semantics`, and the evaluator is proved to compute it.
use vstd::prelude::*;

pub mod lexer;
pub mod parser;
pub mod error;
pub mod value;
pub mod environment;
pub mod semantics;
pub mod builtins;
pub mod eval;
pub mod interpreter;
pub mod laws;

verus! {

} // verus!
