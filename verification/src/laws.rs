//! The laws of the language, stated against the semantics in `semantics` and
//! proved once and for all: arithmetic agrees with exact integer arithmetic
//! where it fits, comparisons are flags, the fixed results of `if` and
//! `while`, the caller-frame binding quirk of the call protocol, and the
//! error conditions for unbound names.

use vstd::prelude::*;

use crate::ast::{ExpressionView, FunctionDefinitionView, LabelledParameterView, Operator};
use crate::error::EvalError;
use crate::semantics::{
    bind_args, div_trunc, eval_args_spec, eval_block_spec, eval_call_body, eval_expr_spec,
    eval_labelled_args_spec, lookup_frames, state_define, EvalOutcome, FrameView, StateView,
};

verus! {

/// The six comparison operators.
pub open spec fn is_comparison(op: Operator) -> bool {
    match op {
        Operator::LessThan
        | Operator::LessOrEqual
        | Operator::GreaterThan
        | Operator::GreaterOrEqual
        | Operator::EqualEqual
        | Operator::NotEqual => true,
        _ => false,
    }
}

proof fn lemma_bind_args_shape(
    st: StateView,
    frame: int,
    formals: Seq<Seq<char>>,
    values: Seq<i32>,
    count: int,
)
    requires
        0 <= frame < st.frames.len(),
    ensures
        ({
            let b = bind_args(st, frame, formals, values, count);
            &&& b.frames.len() == st.frames.len()
            &&& b.output == st.output
            &&& forall|j: int|
                0 <= j < st.frames.len() && j != frame ==> b.frames[j] == st.frames[j]
            &&& b.frames[frame].parent == st.frames[frame].parent
        }),
    decreases count,
{
    if count > 0 {
        lemma_bind_args_shape(st, frame, formals, values, count - 1);
    }
}

/// Evaluation touches only the frame it runs in and frames it allocates:
/// every other frame that existed before is left exactly as it was, and the
/// arena only grows.
pub proof fn lemma_eval_frames_preserved(
    e: ExpressionView,
    st: StateView,
    frame: int,
    funcs: Map<Seq<char>, FunctionDefinitionView>,
    fuel: nat,
)
    requires
        0 <= frame < st.frames.len(),
    ensures
        ({
            let o = eval_expr_spec(e, st, frame, funcs, fuel);
            &&& st.frames.len() <= o.state.frames.len()
            &&& forall|j: int|
                0 <= j < st.frames.len() && j != frame ==> o.state.frames[j] == st.frames[j]
        }),
    decreases fuel, 0int,
{
    if fuel == 0 {
        return;
    }
    let f = (fuel - 1) as nat;
    match e {
        ExpressionView::IntegerLiteral(_) => {},
        ExpressionView::Identifier(_) => {},
        ExpressionView::Binary { operator, lhs, rhs } => {
            lemma_eval_frames_preserved(*lhs, st, frame, funcs, f);
            let o1 = eval_expr_spec(*lhs, st, frame, funcs, f);
            if o1.result is Ok {
                lemma_eval_frames_preserved(*rhs, o1.state, frame, funcs, f);
            }
        },
        ExpressionView::Assignment { name, expression } => {
            lemma_eval_frames_preserved(*expression, st, frame, funcs, f);
        },
        ExpressionView::Block(elements) => {
            lemma_block_frames_preserved(elements, 0, 0, st, frame, funcs, f);
        },
        ExpressionView::If { condition, then_clause, else_clause } => {
            lemma_eval_frames_preserved(*condition, st, frame, funcs, f);
            let o1 = eval_expr_spec(*condition, st, frame, funcs, f);
            match o1.result {
                Ok(c) => {
                    if c != 0 {
                        lemma_eval_frames_preserved(*then_clause, o1.state, frame, funcs, f);
                    } else {
                        match else_clause {
                            Some(els) => {
                                lemma_eval_frames_preserved(*els, o1.state, frame, funcs, f);
                            },
                            None => {},
                        }
                    }
                },
                Err(_) => {},
            }
        },
        ExpressionView::While { condition, body } => {
            lemma_eval_frames_preserved(*condition, st, frame, funcs, f);
            let o1 = eval_expr_spec(*condition, st, frame, funcs, f);
            match o1.result {
                Ok(c) => {
                    if c != 0 {
                        lemma_eval_frames_preserved(*body, o1.state, frame, funcs, f);
                        let o2 = eval_expr_spec(*body, o1.state, frame, funcs, f);
                        if o2.result is Ok {
                            lemma_eval_frames_preserved(e, o2.state, frame, funcs, f);
                        }
                    }
                },
                Err(_) => {},
            }
        },
        ExpressionView::FunctionCall { name, args } => {
            if funcs.contains_key(name) {
                let callee = funcs[name];
                lemma_args_frames_preserved(args, 0, Seq::empty(), st, frame, funcs, f);
                let ao = eval_args_spec(args, 0, Seq::empty(), st, frame, funcs, f);
                match ao.result {
                    Ok(values) => {
                        if values.len() >= callee.args.len() {
                            lemma_call_body_frames_preserved(
                                callee,
                                values,
                                ao.state,
                                frame,
                                funcs,
                                f,
                            );
                        }
                    },
                    Err(_) => {},
                }
            }
        },
        ExpressionView::LabelledCall { name, args } => {
            if funcs.contains_key(name) {
                let callee = funcs[name];
                lemma_labelled_frames_preserved(
                    callee.args,
                    0,
                    args,
                    Seq::empty(),
                    st,
                    frame,
                    funcs,
                    f,
                );
                let ao = eval_labelled_args_spec(
                    callee.args,
                    0,
                    args,
                    Seq::empty(),
                    st,
                    frame,
                    funcs,
                    f,
                );
                match ao.result {
                    Ok(values) => {
                        lemma_call_body_frames_preserved(callee, values, ao.state, frame, funcs, f);
                    },
                    Err(_) => {},
                }
            }
        },
        ExpressionView::Println(body) => {
            lemma_eval_frames_preserved(*body, st, frame, funcs, f);
        },
    }
}

proof fn lemma_call_body_frames_preserved(
    callee: FunctionDefinitionView,
    values: Seq<i32>,
    st: StateView,
    frame: int,
    funcs: Map<Seq<char>, FunctionDefinitionView>,
    fuel: nat,
)
    requires
        0 <= frame < st.frames.len(),
    ensures
        ({
            let o = eval_call_body(callee, values, st, frame, funcs, fuel);
            &&& st.frames.len() <= o.state.frames.len()
            &&& forall|j: int|
                0 <= j < st.frames.len() && j != frame ==> o.state.frames[j] == st.frames[j]
        }),
    decreases fuel, 1int,
{
    lemma_bind_args_shape(st, frame, callee.args, values, callee.args.len() as int);
    let bound = bind_args(st, frame, callee.args, values, callee.args.len() as int);
    let child = bound.frames.len() as int;
    let entered = StateView {
        frames: bound.frames.push(FrameView { bindings: Map::empty(), parent: Some(frame) }),
        output: bound.output,
    };
    lemma_eval_frames_preserved(callee.body, entered, child, funcs, fuel);
    let o = eval_call_body(callee, values, st, frame, funcs, fuel);
    assert(o == eval_expr_spec(callee.body, entered, child, funcs, fuel));
    assert forall|j: int|
        0 <= j < st.frames.len() && j != frame implies o.state.frames[j] == st.frames[j] by {
        assert(bound.frames[j] == st.frames[j]);
        assert(entered.frames[j] == bound.frames[j]);
    }
}

proof fn lemma_block_frames_preserved(
    exprs: Seq<ExpressionView>,
    i: int,
    last: i32,
    st: StateView,
    frame: int,
    funcs: Map<Seq<char>, FunctionDefinitionView>,
    fuel: nat,
)
    requires
        0 <= frame < st.frames.len(),
    ensures
        ({
            let o = eval_block_spec(exprs, i, last, st, frame, funcs, fuel);
            &&& st.frames.len() <= o.state.frames.len()
            &&& forall|j: int|
                0 <= j < st.frames.len() && j != frame ==> o.state.frames[j] == st.frames[j]
        }),
    decreases fuel, exprs.len() - i + 1,
{
    if 0 <= i < exprs.len() {
        lemma_eval_frames_preserved(exprs[i], st, frame, funcs, fuel);
        let o = eval_expr_spec(exprs[i], st, frame, funcs, fuel);
        match o.result {
            Ok(v) => {
                lemma_block_frames_preserved(exprs, i + 1, v, o.state, frame, funcs, fuel);
            },
            Err(_) => {},
        }
    }
}

proof fn lemma_args_frames_preserved(
    exprs: Seq<ExpressionView>,
    i: int,
    values: Seq<i32>,
    st: StateView,
    frame: int,
    funcs: Map<Seq<char>, FunctionDefinitionView>,
    fuel: nat,
)
    requires
        0 <= frame < st.frames.len(),
    ensures
        ({
            let o = eval_args_spec(exprs, i, values, st, frame, funcs, fuel);
            &&& st.frames.len() <= o.state.frames.len()
            &&& forall|j: int|
                0 <= j < st.frames.len() && j != frame ==> o.state.frames[j] == st.frames[j]
        }),
    decreases fuel, exprs.len() - i + 1,
{
    if 0 <= i < exprs.len() {
        lemma_eval_frames_preserved(exprs[i], st, frame, funcs, fuel);
        let o = eval_expr_spec(exprs[i], st, frame, funcs, fuel);
        match o.result {
            Ok(v) => {
                lemma_args_frames_preserved(
                    exprs,
                    i + 1,
                    values.push(v),
                    o.state,
                    frame,
                    funcs,
                    fuel,
                );
            },
            Err(_) => {},
        }
    }
}

proof fn lemma_labelled_frames_preserved(
    formals: Seq<Seq<char>>,
    j: int,
    args: Seq<LabelledParameterView>,
    values: Seq<i32>,
    st: StateView,
    frame: int,
    funcs: Map<Seq<char>, FunctionDefinitionView>,
    fuel: nat,
)
    requires
        0 <= frame < st.frames.len(),
    ensures
        ({
            let o = eval_labelled_args_spec(formals, j, args, values, st, frame, funcs, fuel);
            &&& st.frames.len() <= o.state.frames.len()
            &&& forall|k: int|
                0 <= k < st.frames.len() && k != frame ==> o.state.frames[k] == st.frames[k]
        }),
    decreases fuel, formals.len() - j + 1,
{
    if 0 <= j < formals.len() {
        match crate::semantics::find_label(args, formals[j]) {
            None => {},
            Some(ex) => {
                lemma_eval_frames_preserved(ex, st, frame, funcs, fuel);
                let o = eval_expr_spec(ex, st, frame, funcs, fuel);
                match o.result {
                    Ok(v) => {
                        lemma_labelled_frames_preserved(
                            formals,
                            j + 1,
                            args,
                            values.push(v),
                            o.state,
                            frame,
                            funcs,
                            fuel,
                        );
                    },
                    Err(_) => {},
                }
            },
        }
    }
}

/// `ADD`, `SUB` and `MUL` agree with exact integer arithmetic whenever the
/// exact result fits in 32 bits, and `DIV` with a nonzero divisor yields the
/// quotient truncated toward zero (`div_trunc`), for a binary node over two
/// integer literals, leaving the state untouched.
pub proof fn law_arithmetic_matches_native(
    op: Operator,
    a: i32,
    b: i32,
    st: StateView,
    frame: int,
    funcs: Map<Seq<char>, FunctionDefinitionView>,
    fuel: nat,
)
    requires
        fuel >= 2,
    ensures
        ({
            let e = ExpressionView::Binary {
                operator: op,
                lhs: Box::new(ExpressionView::IntegerLiteral(a)),
                rhs: Box::new(ExpressionView::IntegerLiteral(b)),
            };
            let o = eval_expr_spec(e, st, frame, funcs, fuel);
            &&& o.state == st
            &&& (op == Operator::Add && i32::MIN <= a + b <= i32::MAX ==> o.result
                == Ok::<i32, EvalError>((a + b) as i32))
            &&& (op == Operator::Subtract && i32::MIN <= a - b <= i32::MAX ==> o.result
                == Ok::<i32, EvalError>((a - b) as i32))
            &&& (op == Operator::Multiply && i32::MIN <= a * b <= i32::MAX ==> o.result
                == Ok::<i32, EvalError>((a * b) as i32))
            &&& (op == Operator::Divide && b != 0 ==> o.result == Ok::<i32, EvalError>(
                div_trunc(a, b),
            ))
            &&& (op == Operator::Divide && b == 0 ==> o.result == Err::<i32, EvalError>(
                EvalError::DivisionByZero,
            ))
        }),
{
    let e = ExpressionView::Binary {
        operator: op,
        lhs: Box::new(ExpressionView::IntegerLiteral(a)),
        rhs: Box::new(ExpressionView::IntegerLiteral(b)),
    };
    let f = (fuel - 1) as nat;
    let o1 = eval_expr_spec(ExpressionView::IntegerLiteral(a), st, frame, funcs, f);
    let o2 = eval_expr_spec(ExpressionView::IntegerLiteral(b), st, frame, funcs, f);
    assert(o1 == (EvalOutcome { state: st, result: Ok::<i32, EvalError>(a) }));
    assert(o2 == (EvalOutcome { state: st, result: Ok::<i32, EvalError>(b) }));
    let o = eval_expr_spec(e, st, frame, funcs, fuel);
    assert(o.state == st);
    assert(o.result == crate::semantics::apply_operator(op, a, b));
    if op == Operator::Multiply && i32::MIN <= a * b <= i32::MAX {
        assert(a.wrapping_mul(b) == (a * b) as i32) by {
            let x = a as int * b as int;
            if x >= 0 {
                assert(x % 0x1_0000_0000 == x) by {
                    vstd::arithmetic::div_mod::lemma_small_mod(x as nat, 0x1_0000_0000nat);
                };
            } else {
                assert(x % 0x1_0000_0000 == x + 0x1_0000_0000) by {
                    vstd::arithmetic::div_mod::lemma_mod_adds(x, 0x1_0000_0000, 0x1_0000_0000);
                    vstd::arithmetic::div_mod::lemma_small_mod(
                        (x + 0x1_0000_0000) as nat,
                        0x1_0000_0000nat,
                    );
                };
            }
        };
    }
}

/// `DIV` truncates toward zero: away from the one wrapping quotient, the
/// quotient `q` and remainder `a - b * q` satisfy the truncating-division
/// characterization — the remainder is smaller in magnitude than the divisor
/// and carries the sign of the dividend.
pub proof fn law_division_truncates_toward_zero(a: i32, b: i32)
    requires
        b != 0,
        !(a == i32::MIN && b == -1),
    ensures
        ({
            let q = div_trunc(a, b) as int;
            let r = a - b * q;
            &&& a == b * q + r
            &&& (if r < 0 { -r } else { r }) < (if b < 0 { -(b as int) } else { b as int })
            &&& (a >= 0 ==> r >= 0)
            &&& (a <= 0 ==> r <= 0)
            &&& (a >= 0 && b > 0 ==> q >= 0)
            &&& (a <= 0 && b > 0 ==> q <= 0)
        }),
{
    let x = a as int;
    let d = b as int;
    if x == 0 {
    } else if x > 0 && d > 0 {
        let m = x / d;
        vstd::arithmetic::div_mod::lemma_fundamental_div_mod(x, d);
        vstd::arithmetic::div_mod::lemma_mod_bound(x, d);
        vstd::arithmetic::div_mod::lemma_div_pos_is_pos(x, d);
        vstd::arithmetic::div_mod::lemma_div_nonincreasing(x, d);
        assert(div_trunc(a, b) as int == m);
        assert(b * (div_trunc(a, b) as int) == d * m);
    } else if x < 0 && d < 0 {
        let m = (x * -1) / (d * -1);
        vstd::arithmetic::div_mod::lemma_fundamental_div_mod(x * -1, d * -1);
        vstd::arithmetic::div_mod::lemma_mod_bound(x * -1, d * -1);
        vstd::arithmetic::div_mod::lemma_div_pos_is_pos(x * -1, d * -1);
        vstd::arithmetic::div_mod::lemma_div_nonincreasing(x * -1, d * -1);
        if x == i32::MIN {
            vstd::arithmetic::div_mod::lemma_div_decreases(x * -1, d * -1);
        }
        vstd::arithmetic::mul::lemma_mul_unary_negation(d, m);
        assert((d * -1) * m == -(d * m)) by {
            vstd::arithmetic::mul::lemma_mul_unary_negation(d, m);
            vstd::arithmetic::mul::lemma_mul_is_commutative(d * -1, m);
            vstd::arithmetic::mul::lemma_mul_is_commutative(-d, m);
        };
        assert(div_trunc(a, b) as int == m);
        assert(b * (div_trunc(a, b) as int) == d * m);
        assert((x * -1) == (d * -1) * m + ((x * -1) % (d * -1)));
        assert(x == d * m - ((x * -1) % (d * -1)));
    } else if x < 0 {
        let m = (x * -1) / d;
        vstd::arithmetic::div_mod::lemma_fundamental_div_mod(x * -1, d);
        vstd::arithmetic::div_mod::lemma_mod_bound(x * -1, d);
        vstd::arithmetic::div_mod::lemma_div_pos_is_pos(x * -1, d);
        vstd::arithmetic::div_mod::lemma_div_nonincreasing(x * -1, d);
        vstd::arithmetic::mul::lemma_mul_unary_negation(d, m);
        assert(div_trunc(a, b) as int == m * -1);
        assert(b * (div_trunc(a, b) as int) == d * (m * -1));
        assert(d * (m * -1) == -(d * m));
        assert(x * -1 == d * m + (x * -1) % d);
        assert(x == -(d * m) - (x * -1) % d);
    } else {
        let m = x / (d * -1);
        vstd::arithmetic::div_mod::lemma_fundamental_div_mod(x, d * -1);
        vstd::arithmetic::div_mod::lemma_mod_bound(x, d * -1);
        vstd::arithmetic::div_mod::lemma_div_pos_is_pos(x, d * -1);
        vstd::arithmetic::div_mod::lemma_div_nonincreasing(x, d * -1);
        vstd::arithmetic::mul::lemma_mul_unary_negation(d, m);
        assert((d * -1) * m == -(d * m)) by {
            vstd::arithmetic::mul::lemma_mul_unary_negation(d, m);
            vstd::arithmetic::mul::lemma_mul_is_commutative(d * -1, m);
            vstd::arithmetic::mul::lemma_mul_is_commutative(-d, m);
        };
        assert(div_trunc(a, b) as int == m * -1);
        assert(b * (div_trunc(a, b) as int) == d * (m * -1));
        assert(d * (m * -1) == -(d * m));
        assert(x == (d * -1) * m + x % (d * -1));
    }
}

/// Every comparison operator yields exactly `0` or `1` whenever it yields a
/// value at all.
pub proof fn law_comparison_yields_flag(
    e: ExpressionView,
    st: StateView,
    frame: int,
    funcs: Map<Seq<char>, FunctionDefinitionView>,
    fuel: nat,
)
    requires
        e matches ExpressionView::Binary { operator, .. } && is_comparison(operator),
    ensures
        ({
            let o = eval_expr_spec(e, st, frame, funcs, fuel);
            o.result matches Ok(v) ==> v == 0 || v == 1
        }),
{
    reveal_with_fuel(eval_expr_spec, 2);
}

/// `if` with a falsy condition and no `else` branch evaluates to the fixed
/// sentinel `1`, leaving the state as the condition left it.
pub proof fn law_if_falsy_without_else(
    cond: ExpressionView,
    then_clause: ExpressionView,
    st: StateView,
    frame: int,
    funcs: Map<Seq<char>, FunctionDefinitionView>,
    fuel: nat,
)
    requires
        fuel >= 1,
        eval_expr_spec(cond, st, frame, funcs, (fuel - 1) as nat).result == Ok::<i32, EvalError>(0),
    ensures
        eval_expr_spec(
            (ExpressionView::If {
                condition: Box::new(cond),
                then_clause: Box::new(then_clause),
                else_clause: None,
            }),
            st,
            frame,
            funcs,
            fuel,
        ) == (EvalOutcome {
            state: eval_expr_spec(cond, st, frame, funcs, (fuel - 1) as nat).state,
            result: Ok::<i32, EvalError>(1),
        }),
{
    reveal_with_fuel(eval_expr_spec, 2);
}

/// `while` evaluates to `1` whenever it evaluates to anything, regardless of
/// how many iterations ran.
pub proof fn law_while_yields_one(
    e: ExpressionView,
    st: StateView,
    frame: int,
    funcs: Map<Seq<char>, FunctionDefinitionView>,
    fuel: nat,
)
    requires
        e is While,
    ensures
        ({
            let o = eval_expr_spec(e, st, frame, funcs, fuel);
            o.result matches Ok(v) ==> v == 1
        }),
    decreases fuel,
{
    if fuel == 0 {
        return;
    }
    let f = (fuel - 1) as nat;
    match e {
        ExpressionView::While { condition, body } => {
            let o1 = eval_expr_spec(*condition, st, frame, funcs, f);
            match o1.result {
                Ok(c) => {
                    if c != 0 {
                        let o2 = eval_expr_spec(*body, o1.state, frame, funcs, f);
                        if o2.result is Ok {
                            law_while_yields_one(e, o2.state, frame, funcs, f);
                        }
                    }
                },
                Err(_) => {},
            }
        },
        _ => {},
    }
}

/// Blocks share their enclosing frame: the two-line block `n = 1; n = n + 1;`
/// evaluates to `2` in any state, and leaves `n` bound to `2` in the frame
/// the block ran in — the first assignment is visible to the second.
pub proof fn law_block_shares_frame(
    n: Seq<char>,
    st: StateView,
    frame: int,
    funcs: Map<Seq<char>, FunctionDefinitionView>,
    fuel: nat,
)
    requires
        fuel >= 4,
        0 <= frame < st.frames.len(),
    ensures
        ({
            let assign_one = ExpressionView::Assignment {
                name: n,
                expression: Box::new(ExpressionView::IntegerLiteral(1)),
            };
            let assign_incr = ExpressionView::Assignment {
                name: n,
                expression: Box::new(
                    ExpressionView::Binary {
                        operator: Operator::Add,
                        lhs: Box::new(ExpressionView::Identifier(n)),
                        rhs: Box::new(ExpressionView::IntegerLiteral(1)),
                    },
                ),
            };
            let e = ExpressionView::Block(seq![assign_one, assign_incr]);
            let o = eval_expr_spec(e, st, frame, funcs, fuel);
            &&& o.result == Ok::<i32, EvalError>(2)
            &&& o.state == state_define(state_define(st, frame, n, 1), frame, n, 2)
            &&& o.state.frames[frame].bindings[n] == 2
        }),
{
    let assign_one = ExpressionView::Assignment {
        name: n,
        expression: Box::new(ExpressionView::IntegerLiteral(1)),
    };
    let assign_incr = ExpressionView::Assignment {
        name: n,
        expression: Box::new(
            ExpressionView::Binary {
                operator: Operator::Add,
                lhs: Box::new(ExpressionView::Identifier(n)),
                rhs: Box::new(ExpressionView::IntegerLiteral(1)),
            },
        ),
    };
    let e = ExpressionView::Block(seq![assign_one, assign_incr]);
    let st1 = state_define(st, frame, n, 1);
    let st2 = state_define(st1, frame, n, 2);
    assert(crate::semantics::find_frame(st1.frames, frame, n) == Some(frame));
    assert(lookup_frames(st1.frames, frame, n) == Some(1i32));
    let f = (fuel - 1) as nat;
    let elems = seq![assign_one, assign_incr];
    let o1 = eval_expr_spec(elems[0], st, frame, funcs, f);
    assert(o1 == (EvalOutcome { state: st1, result: Ok::<i32, EvalError>(1) })) by {
        reveal_with_fuel(eval_expr_spec, 2);
    };
    let o2 = eval_expr_spec(elems[1], st1, frame, funcs, f);
    assert(o2.state == st2 && o2.result == Ok::<i32, EvalError>(2)) by {
        reveal_with_fuel(eval_expr_spec, 3);
    };
    assert(eval_block_spec(elems, 2, 2, st2, frame, funcs, f) == (EvalOutcome {
        state: st2,
        result: Ok::<i32, EvalError>(2),
    }));
    assert(eval_block_spec(elems, 1, 1, st1, frame, funcs, f) == (EvalOutcome {
        state: st2,
        result: Ok::<i32, EvalError>(2),
    }));
    assert(eval_block_spec(elems, 0, 0, st, frame, funcs, f) == (EvalOutcome {
        state: st2,
        result: Ok::<i32, EvalError>(2),
    }));
    let o = eval_expr_spec(e, st, frame, funcs, fuel);
    assert(o == (EvalOutcome { state: st2, result: Ok::<i32, EvalError>(2) }));
}

/// The documented call-protocol quirk: after a successful positional call,
/// the caller's own frame holds each formal parameter (at its last
/// occurrence in the formal list) bound to the value of the corresponding
/// argument — the bindings persist in the caller's scope after the call
/// returns.
pub proof fn law_call_binds_caller_frame(
    name: Seq<char>,
    args: Seq<ExpressionView>,
    st: StateView,
    frame: int,
    funcs: Map<Seq<char>, FunctionDefinitionView>,
    fuel: nat,
    k: int,
)
    requires
        funcs.contains_key(name),
        0 <= frame < st.frames.len(),
        eval_expr_spec(
            (ExpressionView::FunctionCall { name, args }),
            st,
            frame,
            funcs,
            fuel,
        ).result is Ok,
        0 <= k < funcs[name].args.len(),
        forall|j: int|
            k < j < funcs[name].args.len() ==> funcs[name].args[j] != funcs[name].args[k],
    ensures
        ({
            let o = eval_expr_spec(
                (ExpressionView::FunctionCall { name, args }),
                st,
                frame,
                funcs,
                fuel,
            );
            let callee = funcs[name];
            let ao = eval_args_spec(args, 0, Seq::empty(), st, frame, funcs, (fuel - 1) as nat);
            &&& ao.result is Ok
            &&& o.state.frames[frame].bindings.contains_key(callee.args[k])
            &&& o.state.frames[frame].bindings[callee.args[k]] == ao.result->Ok_0[k]
        }),
{
    let e = ExpressionView::FunctionCall { name, args };
    let f = (fuel - 1) as nat;
    let callee = funcs[name];
    let o = eval_expr_spec(e, st, frame, funcs, fuel);
    assert(fuel != 0);
    let ao = eval_args_spec(args, 0, Seq::empty(), st, frame, funcs, f);
    let values = ao.result->Ok_0;
    lemma_args_frames_preserved(args, 0, Seq::empty(), st, frame, funcs, f);
    assert(values.len() >= callee.args.len());
    assert(o == eval_call_body(callee, values, ao.state, frame, funcs, f));
    let bound = bind_args(ao.state, frame, callee.args, values, callee.args.len() as int);
    lemma_bind_args_shape(ao.state, frame, callee.args, values, callee.args.len() as int);
    lemma_bind_args_last(ao.state, frame, callee.args, values, callee.args.len() as int, k);
    let child = bound.frames.len() as int;
    let entered = StateView {
        frames: bound.frames.push(FrameView { bindings: Map::empty(), parent: Some(frame) }),
        output: bound.output,
    };
    lemma_eval_frames_preserved(callee.body, entered, child, funcs, f);
    assert(entered.frames[frame] == bound.frames[frame]);
    let ob = eval_expr_spec(callee.body, entered, child, funcs, f);
    assert(o.state == ob.state);
    assert(ob.state.frames[frame] == entered.frames[frame]);
}

proof fn lemma_bind_args_last(
    st: StateView,
    frame: int,
    formals: Seq<Seq<char>>,
    values: Seq<i32>,
    count: int,
    k: int,
)
    requires
        0 <= frame < st.frames.len(),
        0 <= k < count <= formals.len(),
        count <= values.len(),
        forall|j: int| k < j < count ==> formals[j] != formals[k],
    ensures
        ({
            let b = bind_args(st, frame, formals, values, count);
            &&& b.frames[frame].bindings.contains_key(formals[k])
            &&& b.frames[frame].bindings[formals[k]] == values[k]
        }),
    decreases count,
{
    lemma_bind_args_shape(st, frame, formals, values, count - 1);
    if count == k + 1 {
    } else {
        lemma_bind_args_last(st, frame, formals, values, count - 1, k);
    }
}

/// An identifier with no binding anywhere on the frame chain fails with
/// `UnboundVariable`, and a call — positional or labelled — to a name with
/// no registered function fails with `UndefinedFunction`.
pub proof fn law_unbound_names_fail(
    name: Seq<char>,
    args: Seq<ExpressionView>,
    labelled_args: Seq<LabelledParameterView>,
    st: StateView,
    frame: int,
    funcs: Map<Seq<char>, FunctionDefinitionView>,
    fuel: nat,
)
    requires
        fuel >= 1,
    ensures
        lookup_frames(st.frames, frame, name) is None ==> eval_expr_spec(
            ExpressionView::Identifier(name),
            st,
            frame,
            funcs,
            fuel,
        ) == (EvalOutcome { state: st, result: Err::<i32, EvalError>(EvalError::UnboundVariable) }),
        !funcs.contains_key(name) ==> eval_expr_spec(
            (ExpressionView::FunctionCall { name, args }),
            st,
            frame,
            funcs,
            fuel,
        ) == (EvalOutcome {
            state: st,
            result: Err::<i32, EvalError>(EvalError::UndefinedFunction),
        }),
        !funcs.contains_key(name) ==> eval_expr_spec(
            (ExpressionView::LabelledCall { name, args: labelled_args }),
            st,
            frame,
            funcs,
            fuel,
        ) == (EvalOutcome {
            state: st,
            result: Err::<i32, EvalError>(EvalError::UndefinedFunction),
        }),
{
    reveal_with_fuel(eval_expr_spec, 2);
}

} // verus!
