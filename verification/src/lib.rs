//! A tree-walking interpreter for a small imperative toy language: integer
//! arithmetic and comparisons, variables, blocks, conditionals, loops,
//! function definitions with positional and name-labelled arguments, global
//! variables, and a print statement.
//!
//! The language's runtime semantics are written down once, as a mathematical
//! evaluation function over ghost state (`semantics`), and the executable
//! evaluator (`interpreter`) is proved to follow that function exactly.

pub mod ast;
pub mod env;
pub mod error;
pub mod interpreter;
pub mod laws;
pub mod parser;
pub mod semantics;

use vstd::prelude::*;

use crate::ast::{FunctionDefinitionView, Program};
use crate::error::EvalError;
use crate::interpreter::Interpreter;
use crate::parser::{lines_ast, program_ast};
use crate::semantics::{call_main_spec, initial_state, run_lines_spec};

verus! {

/// Parses a whole program and runs it through the two-phase driver, returning
/// the integer that `main` produces: exactly the result that the semantics
/// assigns to the text's denotation under the surface grammar.  Values
/// printed by `println` are collected inside the driver's `Interpreter`;
/// callers that want them should use `parser::parse` and
/// `Interpreter::call_main` directly.
pub fn execute_program(program: &String) -> (r: Result<i32, EvalError>)
    ensures
        match program_ast(program@) {
            Some(defs) => r == call_main_spec(
                defs,
                initial_state(),
                Map::<Seq<char>, FunctionDefinitionView>::empty(),
            ).result,
            None => r == Err::<i32, EvalError>(EvalError::SyntaxError),
        },
{
    let parsed: Program = match crate::parser::parse(program) {
        Ok(p) => p,
        Err(e) => {
            return Err(e);
        },
    };
    let mut interp = Interpreter::new();
    interp.call_main(parsed)
}

/// Parses a bare sequence of expression lines and evaluates them in order
/// against one shared root frame, returning the last value, or `0` for an
/// empty sequence: exactly the result that the semantics assigns to the
/// text's denotation.
pub fn execute_lines(lines: &String) -> (r: Result<i32, EvalError>)
    ensures
        match lines_ast(lines@) {
            Some(ls) => r == run_lines_spec(
                ls,
                0,
                0,
                initial_state(),
                Map::<Seq<char>, FunctionDefinitionView>::empty(),
            ).result,
            None => r == Err::<i32, EvalError>(EvalError::SyntaxError),
        },
{
    let parsed = match crate::parser::parse_lines(lines) {
        Ok(p) => p,
        Err(e) => {
            return Err(e);
        },
    };
    let mut interp = Interpreter::new();
    interp.interpret_lines(&parsed)
}

} // verus!
