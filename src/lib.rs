//! A small scripting language: a parser from source text to a syntax tree,
//! and a step-wise evaluator over that tree that leaves its outside work
//! (output, pauses, randomness, double arithmetic, exiting) to a host.
//!
//! The parser (`parser`) is verified against the grammar stated in
//! `grammar`. The evaluator (`interpreter`) is verified against the spec
//! functions `spec_eval` and `spec_step`. A host queues a program with
//! `Interpreter::eval` and calls `Interpreter::step` until it reports
//! `Action::Finished`, `Action::Exit` or `Action::Fail`: it performs each
//! step's effects in order, hands in a random draw on every step, and answers
//! an `Action::Compute` request on the next step. `laws` proves properties of
//! the language over those spec functions.

pub mod ast;
pub mod env;
pub mod grammar;
pub mod interpreter;
pub mod laws;
pub mod parser;
pub mod value;

pub use ast::{Atom, BinaryOperation, Expression, HogwartsHouse, Program, Spell, Statement};
pub use grammar::ParseError;
pub use interpreter::{render_value, Action, Effect, Interpreter, Output, Step};
pub use parser::{
    parse_atom, parse_binary_operation, parse_binary_operator, parse_boolean, parse_comment, parse_double,
    parse_expression, parse_expression_statement, parse_hogwarts_house, parse_if_statement, parse_integer,
    parse_program, parse_quidditch_statement, parse_snitch_statement, parse_sorting_hat, parse_spell_cast,
    parse_statement, parse_string, parse_variable, parse_variable_assignment,
};
pub use value::{EvalError, FloatRequest, RuntimeValue, DOUBLE_ONE};
