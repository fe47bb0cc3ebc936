//! Execution core of a small imperative language: an interpreter that walks
//! an already-parsed abstract syntax tree, evaluating expressions and
//! executing statements against a mutable symbol table.
//!
//! The interpreter is fuel-bounded: every public entry point takes a step
//! budget, and a program whose loops outlive the budget is reported as
//! unfinished rather than run forever.  Programs that do not read console
//! input are given an exact semantics by the spec functions in `semantics`,
//! and the executor is proved to agree with it.

pub mod ast;
mod console;
pub mod executor;
pub mod input;
pub mod laws;
pub mod semantics;
pub mod value;
