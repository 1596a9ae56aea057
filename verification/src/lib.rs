//! A static analyzer and partial evaluator for a synchronous dataflow
//! language of the Lustre family.
//!
//! A program is a list of nodes whose outputs are defined by equations over
//! streams, with the operators `pre` (the value before), `->` (one value
//! at the first instant, another later) and `fby` (`a fby b` is
//! `a -> pre b`). The library parses a program, checks its types, lowers
//! a node to a flat graph of expressions, schedules the graph, evaluates
//! it instant by instant, and folds the constant parts of a program by
//! running that evaluation.
//!
//! Every part has a mathematical model beside it: the models of the data
//! are in the modules of the data, and the modules `grammar`,
//! `check_model`, `compile_model`, `node_model`, `schedule_model` and
//! `propagate_model` say what the parser, the type checker, the compiler,
//! the evaluation, the scheduler and the constant propagator compute. The
//! modules `schedule_order`, `step_laws`, `laws` and `fold_laws` hold what
//! is proved of these models.
//!
//! Values of floating-point type are carried as the text of their
//! literals: the library does no floating-point arithmetic.
use vstd::prelude::*;

pub mod text;
pub mod span;
pub mod diagnostic;
pub mod messages;

pub mod types;
pub mod value;
pub mod instant;
pub mod ops;
pub mod ast;

pub mod grammar;
pub mod parser;
pub mod printer;
pub mod edits;
pub mod shallow_eq;
pub mod tokens;

pub mod function_type;
pub mod check_model;
pub mod checker;

pub mod expr_index;
pub mod compiled_expr;
pub mod node_model;
pub mod schedule_model;
pub mod schedule_order;
pub mod compiled_node;
pub mod step_laws;
pub mod compile_model;
pub mod compiler;

pub mod propagate_model;
pub mod propagate;
pub mod laws;
pub mod fold_laws;

verus! {

} // verus!
