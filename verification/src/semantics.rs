//! The mathematical semantics of the language: a total, fuel-bounded
//! evaluation function over ghost state.  The executable evaluator in
//! `interpreter` is proved to return exactly what these functions say, so
//! every rule of the language — evaluation order, scoping, the call-binding
//! protocol, truthiness, and each error condition — is pinned down here.
//!
//! Fuel stands in for the host's bounded call depth: every recursive step of
//! the evaluator consumes one unit, and an exhausted budget is the
//! `StackExhaustion` failure.  The drivers run with `EVAL_FUEL`, a budget far
//! beyond anything a terminating program can consume.

use vstd::prelude::*;

use crate::ast::{
    ExpressionView, FunctionDefinitionView, LabelledParameterView, Operator, TopLevelView,
};
use crate::error::EvalError;

verus! {

/// The evaluation budget used by the drivers.
pub const EVAL_FUEL: u64 = 0xFFFF_FFFF_FFFF_FFFF;

/// One scope frame: its bindings and the index of its parent frame, if any.
/// Frames are addressed by index into the state's frame sequence; a parent
/// index always points at an earlier frame, so chains cannot form cycles.
#[verifier::ext_equal]
pub ghost struct FrameView {
    pub bindings: Map<Seq<char>, i32>,
    pub parent: Option<int>,
}

/// The mutable state an evaluation acts on: the arena of scope frames
/// (index 0 is the root frame) and the trace of values emitted on the print
/// channel.
#[verifier::ext_equal]
pub ghost struct StateView {
    pub frames: Seq<FrameView>,
    pub output: Seq<i32>,
}

/// What one evaluation produces: the state it leaves behind and either the
/// computed value or the error that aborted the run.
#[verifier::ext_equal]
pub ghost struct EvalOutcome {
    pub state: StateView,
    pub result: Result<i32, EvalError>,
}

/// Like `EvalOutcome`, but for evaluating an argument list to a sequence of
/// values.
#[verifier::ext_equal]
pub ghost struct ArgsOutcome {
    pub state: StateView,
    pub result: Result<Seq<i32>, EvalError>,
}

/// Well-formedness of a frame arena: the root exists and has no parent, and
/// every parent link points at a strictly earlier frame.
pub open spec fn frames_wf(frames: Seq<FrameView>) -> bool {
    &&& frames.len() >= 1
    &&& frames[0].parent is None
    &&& forall|i: int|
        0 <= i < frames.len() ==> (#[trigger] frames[i].parent) matches Some(p) && 0 <= p < i
            || frames[i].parent is None
}

/// The frame (by index) in which `name` is bound, walking the parent chain
/// from `frame` toward the root; the first match wins.
pub open spec fn find_frame(frames: Seq<FrameView>, frame: int, name: Seq<char>) -> Option<int>
    decreases frame,
{
    if 0 <= frame < frames.len() {
        if frames[frame].bindings.contains_key(name) {
            Some(frame)
        } else {
            match frames[frame].parent {
                Some(p) => if 0 <= p < frame {
                    find_frame(frames, p, name)
                } else {
                    None
                },
                None => None,
            }
        }
    } else {
        None
    }
}

/// The value bound to `name` on the chain starting at `frame`, if any.
pub open spec fn lookup_frames(frames: Seq<FrameView>, frame: int, name: Seq<char>) -> Option<i32> {
    match find_frame(frames, frame, name) {
        Some(i) => Some(frames[i].bindings[name]),
        None => None,
    }
}

/// Writes `name = value` into exactly the given frame, never an ancestor.
pub open spec fn state_define(st: StateView, frame: int, name: Seq<char>, value: i32) -> StateView {
    StateView {
        frames: st.frames.update(
            frame,
            FrameView {
                bindings: st.frames[frame].bindings.insert(name, value),
                parent: st.frames[frame].parent,
            },
        ),
        output: st.output,
    }
}

/// Truncating 32-bit division.  Division by zero is excluded by the caller;
/// the one overflowing quotient wraps, like the other arithmetic operators.
pub open spec fn div_trunc(lhs: i32, rhs: i32) -> i32 {
    if lhs == i32::MIN && rhs == -1 {
        i32::MIN
    } else {
        let x = lhs as int;
        let d = rhs as int;
        let q = if x == 0 {
            0int
        } else if x > 0 && d > 0 {
            x / d
        } else if x < 0 && d < 0 {
            (x * -1) / (d * -1)
        } else if x < 0 {
            ((x * -1) / d) * -1
        } else {
            (x / (d * -1)) * -1
        };
        q as i32
    }
}

/// Applies a binary operator to two already-computed operands.  Arithmetic
/// wraps on 32 bits; comparisons yield `1` for true and `0` for false; `DIV`
/// truncates toward zero and fails on a zero divisor.
pub open spec fn apply_operator(op: Operator, lhs: i32, rhs: i32) -> Result<i32, EvalError> {
    match op {
        Operator::Add => Ok(lhs.wrapping_add(rhs)),
        Operator::Subtract => Ok(lhs.wrapping_sub(rhs)),
        Operator::Multiply => Ok(lhs.wrapping_mul(rhs)),
        Operator::Divide => if rhs == 0 {
            Err(EvalError::DivisionByZero)
        } else {
            Ok(div_trunc(lhs, rhs))
        },
        Operator::LessThan => Ok(if lhs < rhs { 1 } else { 0 }),
        Operator::LessOrEqual => Ok(if lhs <= rhs { 1 } else { 0 }),
        Operator::GreaterThan => Ok(if lhs > rhs { 1 } else { 0 }),
        Operator::GreaterOrEqual => Ok(if lhs >= rhs { 1 } else { 0 }),
        Operator::EqualEqual => Ok(if lhs == rhs { 1 } else { 0 }),
        Operator::NotEqual => Ok(if lhs != rhs { 1 } else { 0 }),
    }
}

/// The expression supplied for label `name`, taking the first matching pair.
pub open spec fn find_label(args: Seq<LabelledParameterView>, name: Seq<char>) -> Option<
    ExpressionView,
>
    decreases args.len(),
{
    if args.len() == 0 {
        None
    } else if args[0].label == name {
        Some(args[0].expression)
    } else {
        find_label(args.drop_first(), name)
    }
}

/// The state after binding the first `count` formals to their argument
/// values, in declared order, into the caller's frame.
pub open spec fn bind_args(
    st: StateView,
    frame: int,
    formals: Seq<Seq<char>>,
    values: Seq<i32>,
    count: int,
) -> StateView
    decreases count,
{
    if count <= 0 {
        st
    } else {
        state_define(
            bind_args(st, frame, formals, values, count - 1),
            frame,
            formals[count - 1],
            values[count - 1],
        )
    }
}

/// Evaluates expression `e` in frame `frame`.  This is the language's
/// definition: each match arm below is one rule of the semantics.
pub open spec fn eval_expr_spec(
    e: ExpressionView,
    st: StateView,
    frame: int,
    funcs: Map<Seq<char>, FunctionDefinitionView>,
    fuel: nat,
) -> EvalOutcome
    decreases fuel, 0int,
{
    if fuel == 0 {
        EvalOutcome { state: st, result: Err(EvalError::StackExhaustion) }
    } else {
        let f = (fuel - 1) as nat;
        match e {
            ExpressionView::IntegerLiteral(value) => EvalOutcome { state: st, result: Ok(value) },
            ExpressionView::Identifier(name) => match lookup_frames(st.frames, frame, name) {
                Some(v) => EvalOutcome { state: st, result: Ok(v) },
                None => EvalOutcome { state: st, result: Err(EvalError::UnboundVariable) },
            },
            ExpressionView::Binary { operator, lhs, rhs } => {
                let o1 = eval_expr_spec(*lhs, st, frame, funcs, f);
                match o1.result {
                    Ok(lv) => {
                        let o2 = eval_expr_spec(*rhs, o1.state, frame, funcs, f);
                        match o2.result {
                            Ok(rv) => EvalOutcome {
                                state: o2.state,
                                result: apply_operator(operator, lv, rv),
                            },
                            Err(_) => o2,
                        }
                    },
                    Err(_) => o1,
                }
            },
            ExpressionView::Assignment { name, expression } => {
                let o1 = eval_expr_spec(*expression, st, frame, funcs, f);
                match o1.result {
                    Ok(v) => EvalOutcome {
                        state: state_define(o1.state, frame, name, v),
                        result: Ok(v),
                    },
                    Err(_) => o1,
                }
            },
            ExpressionView::Block(elements) => eval_block_spec(elements, 0, 0, st, frame, funcs, f),
            ExpressionView::If { condition, then_clause, else_clause } => {
                let o1 = eval_expr_spec(*condition, st, frame, funcs, f);
                match o1.result {
                    Ok(c) => if c != 0 {
                        eval_expr_spec(*then_clause, o1.state, frame, funcs, f)
                    } else {
                        match else_clause {
                            Some(els) => eval_expr_spec(*els, o1.state, frame, funcs, f),
                            None => EvalOutcome { state: o1.state, result: Ok(1) },
                        }
                    },
                    Err(_) => o1,
                }
            },
            ExpressionView::While { condition, body } => {
                let o1 = eval_expr_spec(*condition, st, frame, funcs, f);
                match o1.result {
                    Ok(c) => if c != 0 {
                        let o2 = eval_expr_spec(*body, o1.state, frame, funcs, f);
                        match o2.result {
                            Ok(_) => eval_expr_spec(e, o2.state, frame, funcs, f),
                            Err(_) => o2,
                        }
                    } else {
                        EvalOutcome { state: o1.state, result: Ok(1) }
                    },
                    Err(_) => o1,
                }
            },
            ExpressionView::FunctionCall { name, args } => if !funcs.contains_key(name) {
                EvalOutcome { state: st, result: Err(EvalError::UndefinedFunction) }
            } else {
                let callee = funcs[name];
                let ao = eval_args_spec(args, 0, Seq::empty(), st, frame, funcs, f);
                match ao.result {
                    Ok(values) => if values.len() < callee.args.len() {
                        EvalOutcome { state: ao.state, result: Err(EvalError::ArityMismatch) }
                    } else {
                        eval_call_body(callee, values, ao.state, frame, funcs, f)
                    },
                    Err(err) => EvalOutcome { state: ao.state, result: Err(err) },
                }
            },
            ExpressionView::LabelledCall { name, args } => if !funcs.contains_key(name) {
                EvalOutcome { state: st, result: Err(EvalError::UndefinedFunction) }
            } else {
                let callee = funcs[name];
                let ao = eval_labelled_args_spec(
                    callee.args,
                    0,
                    args,
                    Seq::empty(),
                    st,
                    frame,
                    funcs,
                    f,
                );
                match ao.result {
                    Ok(values) => eval_call_body(callee, values, ao.state, frame, funcs, f),
                    Err(err) => EvalOutcome { state: ao.state, result: Err(err) },
                }
            },
            ExpressionView::Println(body) => {
                let o1 = eval_expr_spec(*body, st, frame, funcs, f);
                match o1.result {
                    Ok(v) => EvalOutcome {
                        state: StateView {
                            frames: o1.state.frames,
                            output: o1.state.output.push(v),
                        },
                        result: Ok(0),
                    },
                    Err(_) => o1,
                }
            },
        }
    }
}

/// The call protocol, after the argument values are known: each formal is
/// bound to its value in the caller's own frame (the documented quirk — the
/// bindings persist there after the call), then the body runs in a fresh
/// child frame chained to that same caller frame.
pub open spec fn eval_call_body(
    callee: FunctionDefinitionView,
    values: Seq<i32>,
    st: StateView,
    frame: int,
    funcs: Map<Seq<char>, FunctionDefinitionView>,
    fuel: nat,
) -> EvalOutcome
    decreases fuel, 1int,
{
    let bound = bind_args(st, frame, callee.args, values, callee.args.len() as int);
    let child = bound.frames.len() as int;
    let entered = StateView {
        frames: bound.frames.push(FrameView { bindings: Map::empty(), parent: Some(frame) }),
        output: bound.output,
    };
    eval_expr_spec(callee.body, entered, child, funcs, fuel)
}

/// Evaluates the elements of a block from index `i` on, in order, in the
/// enclosing frame; the block's value is the last element's value, `last`
/// carrying `0` for the empty block.
pub open spec fn eval_block_spec(
    exprs: Seq<ExpressionView>,
    i: int,
    last: i32,
    st: StateView,
    frame: int,
    funcs: Map<Seq<char>, FunctionDefinitionView>,
    fuel: nat,
) -> EvalOutcome
    decreases fuel, exprs.len() - i + 1,
{
    if i < 0 || i >= exprs.len() {
        EvalOutcome { state: st, result: Ok(last) }
    } else {
        let o = eval_expr_spec(exprs[i], st, frame, funcs, fuel);
        match o.result {
            Ok(v) => eval_block_spec(exprs, i + 1, v, o.state, frame, funcs, fuel),
            Err(_) => o,
        }
    }
}

/// Evaluates actual arguments from index `i` on, left to right, in the
/// caller's frame, collecting their values.
pub open spec fn eval_args_spec(
    exprs: Seq<ExpressionView>,
    i: int,
    values: Seq<i32>,
    st: StateView,
    frame: int,
    funcs: Map<Seq<char>, FunctionDefinitionView>,
    fuel: nat,
) -> ArgsOutcome
    decreases fuel, exprs.len() - i + 1,
{
    if i < 0 || i >= exprs.len() {
        ArgsOutcome { state: st, result: Ok(values) }
    } else {
        let o = eval_expr_spec(exprs[i], st, frame, funcs, fuel);
        match o.result {
            Ok(v) => eval_args_spec(exprs, i + 1, values.push(v), o.state, frame, funcs, fuel),
            Err(err) => ArgsOutcome { state: o.state, result: Err(err) },
        }
    }
}

/// Evaluates the arguments of a labelled call: for each formal parameter from
/// index `j` on, in the callee's declared order, the expression supplied
/// under that label is evaluated in the caller's frame; a formal with no
/// matching label is the `UnknownLabel` failure.
pub open spec fn eval_labelled_args_spec(
    formals: Seq<Seq<char>>,
    j: int,
    args: Seq<LabelledParameterView>,
    values: Seq<i32>,
    st: StateView,
    frame: int,
    funcs: Map<Seq<char>, FunctionDefinitionView>,
    fuel: nat,
) -> ArgsOutcome
    decreases fuel, formals.len() - j + 1,
{
    if j < 0 || j >= formals.len() {
        ArgsOutcome { state: st, result: Ok(values) }
    } else {
        match find_label(args, formals[j]) {
            None => ArgsOutcome { state: st, result: Err(EvalError::UnknownLabel) },
            Some(ex) => {
                let o = eval_expr_spec(ex, st, frame, funcs, fuel);
                match o.result {
                    Ok(v) => eval_labelled_args_spec(
                        formals,
                        j + 1,
                        args,
                        values.push(v),
                        o.state,
                        frame,
                        funcs,
                        fuel,
                    ),
                    Err(err) => ArgsOutcome { state: o.state, result: Err(err) },
                }
            },
        }
    }
}

/// What the load phase leaves behind: the state (globals bound in the root
/// frame), the function table built so far, and the error that aborted the
/// load, if any.
#[verifier::ext_equal]
pub ghost struct LoadOutcome {
    pub state: StateView,
    pub funcs: Map<Seq<char>, FunctionDefinitionView>,
    pub error: Option<EvalError>,
}

/// The load phase from declaration `i` on, in source order: a function
/// definition registers itself (later duplicates overwrite earlier ones); a
/// global evaluates its initializer immediately against the root frame and
/// the table built so far, then binds the result into the root frame.
pub open spec fn load_spec(
    defs: Seq<TopLevelView>,
    i: int,
    st: StateView,
    funcs: Map<Seq<char>, FunctionDefinitionView>,
) -> LoadOutcome
    decreases defs.len() - i + 1,
{
    if i < 0 || i >= defs.len() {
        LoadOutcome { state: st, funcs, error: None }
    } else {
        match defs[i] {
            TopLevelView::FunctionDefinition(fd) => load_spec(
                defs,
                i + 1,
                st,
                funcs.insert(fd.name, fd),
            ),
            TopLevelView::GlobalVariableDefinition { name, body } => {
                let o = eval_expr_spec(body, st, 0, funcs, EVAL_FUEL as nat);
                match o.result {
                    Ok(v) => load_spec(defs, i + 1, state_define(o.state, 0, name, v), funcs),
                    Err(err) => LoadOutcome { state: o.state, funcs, error: Some(err) },
                }
            },
        }
    }
}

/// The run phase: `main`'s body is evaluated directly against the root frame
/// — not through the call protocol, so `main` gets no parameters and no
/// child frame of its own.
pub open spec fn run_main_spec(
    st: StateView,
    funcs: Map<Seq<char>, FunctionDefinitionView>,
) -> EvalOutcome {
    if funcs.contains_key("main"@) {
        eval_expr_spec(funcs["main"@].body, st, 0, funcs, EVAL_FUEL as nat)
    } else {
        EvalOutcome { state: st, result: Err(EvalError::MissingMain) }
    }
}

/// The whole two-phase driver: load every declaration, then run `main`.
pub open spec fn call_main_spec(
    defs: Seq<TopLevelView>,
    st: StateView,
    funcs: Map<Seq<char>, FunctionDefinitionView>,
) -> EvalOutcome {
    let lo = load_spec(defs, 0, st, funcs);
    match lo.error {
        Some(err) => EvalOutcome { state: lo.state, result: Err(err) },
        None => run_main_spec(lo.state, lo.funcs),
    }
}

/// The line-mode driver from line `i` on: each expression is evaluated in
/// order against the same shared frame; the result is the last value, `last`
/// carrying `0` for an empty sequence.
pub open spec fn run_lines_spec(
    lines: Seq<ExpressionView>,
    i: int,
    last: i32,
    st: StateView,
    funcs: Map<Seq<char>, FunctionDefinitionView>,
) -> EvalOutcome
    decreases lines.len() - i + 1,
{
    if i < 0 || i >= lines.len() {
        EvalOutcome { state: st, result: Ok(last) }
    } else {
        let o = eval_expr_spec(lines[i], st, 0, funcs, EVAL_FUEL as nat);
        match o.result {
            Ok(v) => run_lines_spec(lines, i + 1, v, o.state, funcs),
            Err(_) => o,
        }
    }
}

/// The state of a freshly created interpreter: one empty root frame, no
/// output.
pub open spec fn initial_state() -> StateView {
    StateView {
        frames: seq![FrameView { bindings: Map::empty(), parent: None }],
        output: Seq::empty(),
    }
}

} // verus!
