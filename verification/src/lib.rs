//! An interpreter core for a tape language with byte cells, a circular tape,
//! stacked memory scopes, functions stored in memory and a random draw.
//!
//! The interpreter is modelled as a mathematical state ([`machine::Machine`])
//! with a total step function. The executable [`evaluator::Evaluator`] keeps
//! an explicit control stack and is proved to follow the model step by step,
//! so that nesting is bounded by memory and not by the native stack. Reading
//! a line and printing the output are left to the caller: the evaluator says
//! when it waits for input and hands out what it has put out.

pub mod instruction;
pub mod tape;
pub mod scope;
pub mod machine;
pub mod random;
pub mod text;
pub mod evaluator;
pub mod laws;
pub mod parser;
pub mod update;
