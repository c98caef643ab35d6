//! Front end for a small expression language: a scanner, a recursive-descent
//! parser and a tree-walking evaluator, each with a machine-checked contract.
pub mod position;
pub mod lexer;
pub mod expr;
pub mod parser;
pub mod eval;
pub mod round_trip;
