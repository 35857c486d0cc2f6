//! A small language front end: a scanner, a recursive-descent parser and a
//! tree-walking evaluator, each verified against a model of its behaviour.
//!
//! - `scanner`: source bytes to tokens (`scan`).
//! - `parser`: tokens to statements (`parse_program`).
//! - `expressions`: evaluation of expression trees (`eval`).
//! - `interpreter`: execution of statements and the whole pipeline (`run_source`).
//! - `laws`: properties of the language proved over those models.
//!
//! Floating-point values are held as IEEE-754 bit patterns; every operation
//! on them is asked of a floating-point unit that the caller supplies as a
//! closure (see `float`). Each contract states the result for every model
//! that the unit's answers follow, and, unconditionally, for every input whose
//! processing never asks the unit (`settled`, `scan_settled`, `run_settled`).
//! Integers are of any size (`bigint`). Variable declarations bind their value in the
//! interpreter's environment, but expressions do not look variables up yet: a
//! reference to a variable fails as undefined. The falsy conversion `!` is not
//! defined on an identifier value and fails as an invalid unary operation.
pub mod bigint;
pub mod environment;
pub mod errors;
pub mod expressions;
pub mod float;
pub mod interpreter;
pub mod laws;
pub mod parser;
pub mod scanner;
pub mod statements;
pub mod token;
pub mod text;
