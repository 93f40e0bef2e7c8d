//! A tree-walking interpreter for a small Lisp dialect, with verified
//! contracts for its value model, reader, macro expander and evaluator.
//! The evaluator and the expander are proved to follow the relations of
//! `semantics`, which state each step of evaluation and expansion.

pub mod common;
pub mod cons;
pub mod env;
pub mod error;
pub mod eval;
pub mod lexer;
pub mod macroexpand;
pub mod native;
pub mod object;
pub mod print;
pub mod reader;
pub mod semantics;
pub mod special;
