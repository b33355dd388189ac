//! A tree-walking evaluator for a small prefix-notation scripting language.
//!
//! Every statement is a keyword followed by a fixed number of argument
//! expressions. The state is threaded through each step: bindings, the
//! keyword registry, the control-flow frames that make branches skip, saved
//! scopes, recorded subroutine bodies, the last value and the output.

pub mod value;
pub mod token;
pub mod table;
pub mod expression;
pub mod keywords;
pub mod control_flow;
pub mod interpreter;
pub mod semantics;
pub mod parser;
pub mod laws;
