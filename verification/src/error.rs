//! The interpreter's error taxonomy.  Every failure is fatal for the run and
//! propagates to the caller of the engine as a distinguishable variant; no
//! error is ever silently coerced into an integer result.

use vstd::prelude::*;

verus! {

/// Everything that can go wrong while loading or running a program.
#[derive(Clone, Copy, Debug, PartialEq, Eq, Structural)]
pub enum EvalError {
    /// The source text does not follow the surface grammar.
    SyntaxError,
    /// A call or labelled call named a function that was never registered.
    UndefinedFunction,
    /// An identifier had no binding anywhere in the frame chain.
    UnboundVariable,
    /// A labelled call did not supply a label required by a formal parameter.
    UnknownLabel,
    /// The right operand of a division was zero.
    DivisionByZero,
    /// A positional call supplied fewer actual arguments than the callee
    /// declares formal parameters.
    ArityMismatch,
    /// The run phase found no function named `main`.
    MissingMain,
    /// The evaluation budget that stands in for the host's recursion depth
    /// was exhausted.
    StackExhaustion,
}

} // verus!
