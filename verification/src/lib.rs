//! The front end and evaluator of a small expression language: a scanner
//! from source text to tokens, a recursive-descent parser from tokens to a
//! syntax tree, and a tree-walking evaluator. Numbers are exact decimals;
//! every component is specified against a mathematical model and proved to
//! meet it.

pub mod ast;
pub mod decimal;
pub mod error;
pub mod interpreter;
pub mod parser;
pub mod run;
pub mod scanner;
pub mod text;
pub mod token;

use vstd::prelude::*;

verus! {

} // verus!
