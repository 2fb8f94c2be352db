//! The evaluation engine: the function table, the recursive evaluator, and
//! the two-phase program driver.  Every executable function here is proved to
//! return exactly what the corresponding function in `semantics` computes.

use vstd::prelude::*;
use vstd::string::StringExecFns;

use crate::ast::{
    expr_view, exprs_view, fn_def_view, labelled_params_view, names_view, toplevels_view,
    Expression, FunctionDefinition, FunctionDefinitionView, LabelledParameterView, Operator,
    Program, TopLevel,
};
use crate::env::Environment;
use crate::error::EvalError;
use crate::semantics::{
    apply_operator, bind_args, call_main_spec, eval_args_spec, eval_block_spec, eval_call_body,
    eval_expr_spec, eval_labelled_args_spec, find_label, initial_state, load_spec, run_lines_spec,
    StateView, EVAL_FUEL,
};

verus! {

/// The map a list of definitions denotes, keyed by function name; a later
/// definition of the same name wins.
spec fn table_map(s: Seq<FunctionDefinition>) -> Map<Seq<char>, FunctionDefinitionView>
    decreases s.len(),
{
    if s.len() == 0 {
        Map::empty()
    } else {
        table_map(s.drop_last()).insert(s.last().name@, fn_def_view(s.last()))
    }
}

/// Pairwise distinct function names.
spec fn unique_fn_names(s: Seq<FunctionDefinition>) -> bool {
    forall|i: int, j: int| 0 <= i < j < s.len() ==> s[i].name@ != s[j].name@
}

proof fn lemma_table_map_absent(s: Seq<FunctionDefinition>, name: Seq<char>)
    requires
        forall|k: int| 0 <= k < s.len() ==> s[k].name@ != name,
    ensures
        !table_map(s).contains_key(name),
    decreases s.len(),
{
    if s.len() > 0 {
        lemma_table_map_absent(s.drop_last(), name);
    }
}

proof fn lemma_table_map_found(s: Seq<FunctionDefinition>, idx: int)
    requires
        0 <= idx < s.len(),
        forall|k: int| idx < k < s.len() ==> s[k].name@ != s[idx].name@,
    ensures
        table_map(s).contains_key(s[idx].name@),
        table_map(s)[s[idx].name@] == fn_def_view(s[idx]),
    decreases s.len(),
{
    if idx + 1 == s.len() {
    } else {
        lemma_table_map_found(s.drop_last(), idx);
    }
}

proof fn lemma_table_map_update(s: Seq<FunctionDefinition>, idx: int, fd: FunctionDefinition)
    requires
        0 <= idx < s.len(),
        fd.name@ == s[idx].name@,
        forall|k: int| idx < k < s.len() ==> s[k].name@ != s[idx].name@,
    ensures
        table_map(s.update(idx, fd)) =~= table_map(s).insert(fd.name@, fn_def_view(fd)),
    decreases s.len(),
{
    let updated = s.update(idx, fd);
    if idx + 1 == s.len() {
        assert(updated.drop_last() =~= s.drop_last());
    } else {
        lemma_table_map_update(s.drop_last(), idx, fd);
        assert(updated.drop_last() =~= s.drop_last().update(idx, fd));
        assert(updated.last() == s.last());
    }
}

/// The function table: `name -> definition`, built once during the load
/// phase and read-only afterwards.
pub struct FunctionTable {
    entries: Vec<FunctionDefinition>,
}

impl View for FunctionTable {
    type V = Map<Seq<char>, FunctionDefinitionView>;

    closed spec fn view(&self) -> Map<Seq<char>, FunctionDefinitionView> {
        table_map(self.entries@)
    }
}

impl FunctionTable {
    pub closed spec fn wf(&self) -> bool {
        unique_fn_names(self.entries@)
    }

    /// An empty table.
    pub fn new() -> (r: Self)
        ensures
            r.wf(),
            r@ == Map::<Seq<char>, FunctionDefinitionView>::empty(),
    {
        FunctionTable { entries: Vec::new() }
    }

    fn index_of(&self, name: &String) -> (r: Option<usize>)
        requires
            self.wf(),
        ensures
            match r {
                Some(i) => i < self.entries@.len() && self.entries@[i as int].name@ == name@
                    && self@.contains_key(name@) && self@[name@] == fn_def_view(
                    self.entries@[i as int],
                ),
                None => {
                    &&& !self@.contains_key(name@)
                    &&& forall|k: int|
                        0 <= k < self.entries@.len() ==> self.entries@[k].name@ != name@
                },
            },
    {
        let mut i: usize = 0;
        while i < self.entries.len()
            invariant
                self.wf(),
                i <= self.entries@.len(),
                forall|k: int| 0 <= k < i ==> self.entries@[k].name@ != name@,
            decreases self.entries@.len() - i,
        {
            if self.entries[i].name == *name {
                proof {
                    lemma_table_map_found(self.entries@, i as int);
                }
                return Some(i);
            }
            i = i + 1;
        }
        proof {
            lemma_table_map_absent(self.entries@, name@);
        }
        None
    }

    /// Registers a definition under its name, overwriting an earlier
    /// definition of the same name.
    pub fn register(&mut self, fd: FunctionDefinition)
        requires
            old(self).wf(),
        ensures
            final(self).wf(),
            final(self)@ == old(self)@.insert(fd.name@, fn_def_view(fd)),
    {
        match self.index_of(&fd.name) {
            Some(i) => {
                proof {
                    lemma_table_map_update(self.entries@, i as int, fd);
                }
                self.entries[i] = fd;
                assert(unique_fn_names(self.entries@));
            },
            None => {
                let ghost before = self.entries@;
                self.entries.push(fd);
                proof {
                    assert(self.entries@.drop_last() =~= before);
                    assert(unique_fn_names(self.entries@));
                }
            },
        }
    }

    /// The definition registered under `name`, if any.
    pub fn get(&self, name: &String) -> (r: Option<&FunctionDefinition>)
        requires
            self.wf(),
        ensures
            match r {
                Some(fd) => self@.contains_key(name@) && fn_def_view(*fd) == self@[name@],
                None => !self@.contains_key(name@),
            },
    {
        match self.index_of(name) {
            Some(i) => Some(&self.entries[i]),
            None => None,
        }
    }
}

/// Applies a binary operator to two computed operands, exactly as
/// `semantics::apply_operator` says.
fn apply_operator_exec(op: Operator, lhs: i32, rhs: i32) -> (r: Result<i32, EvalError>)
    ensures
        r == apply_operator(op, lhs, rhs),
{
    match op {
        Operator::Add => Ok(lhs.wrapping_add(rhs)),
        Operator::Subtract => Ok(lhs.wrapping_sub(rhs)),
        Operator::Multiply => Ok(lhs.wrapping_mul(rhs)),
        Operator::Divide => {
            if rhs == 0 {
                Err(EvalError::DivisionByZero)
            } else {
                proof {
                    let x = lhs as int;
                    let d = rhs as int;
                    if x == 0 {
                    } else if x > 0 && d > 0 {
                        vstd::arithmetic::div_mod::lemma_div_pos_is_pos(x, d);
                        vstd::arithmetic::div_mod::lemma_div_nonincreasing(x, d);
                    } else if x < 0 && d < 0 {
                        vstd::arithmetic::div_mod::lemma_div_pos_is_pos(x * -1, d * -1);
                        vstd::arithmetic::div_mod::lemma_div_nonincreasing(x * -1, d * -1);
                        if x == i32::MIN && d < -1 {
                            vstd::arithmetic::div_mod::lemma_div_decreases(x * -1, d * -1);
                        }
                        if d == -1 {
                            vstd::arithmetic::div_mod::lemma_div_basics(x * -1);
                        }
                    } else if x < 0 {
                        vstd::arithmetic::div_mod::lemma_div_pos_is_pos(x * -1, d);
                        vstd::arithmetic::div_mod::lemma_div_nonincreasing(x * -1, d);
                    } else {
                        vstd::arithmetic::div_mod::lemma_div_pos_is_pos(x, d * -1);
                        vstd::arithmetic::div_mod::lemma_div_nonincreasing(x, d * -1);
                    }
                }
                match lhs.checked_div(rhs) {
                    Some(v) => Ok(v),
                    None => Ok(i32::MIN),
                }
            }
        },
        Operator::LessThan => Ok(if lhs < rhs { 1 } else { 0 }),
        Operator::LessOrEqual => Ok(if lhs <= rhs { 1 } else { 0 }),
        Operator::GreaterThan => Ok(if lhs > rhs { 1 } else { 0 }),
        Operator::GreaterOrEqual => Ok(if lhs >= rhs { 1 } else { 0 }),
        Operator::EqualEqual => Ok(if lhs == rhs { 1 } else { 0 }),
        Operator::NotEqual => Ok(if lhs != rhs { 1 } else { 0 }),
    }
}

proof fn lemma_find_label_hit(args: Seq<LabelledParameterView>, name: Seq<char>, k: int)
    requires
        0 <= k < args.len(),
        args[k].label == name,
        forall|m: int| 0 <= m < k ==> args[m].label != name,
    ensures
        find_label(args, name) == Some(args[k].expression),
    decreases k,
{
    if k > 0 {
        lemma_find_label_hit(args.drop_first(), name, k - 1);
    }
}

proof fn lemma_find_label_miss(args: Seq<LabelledParameterView>, name: Seq<char>)
    requires
        forall|m: int| 0 <= m < args.len() ==> args[m].label != name,
    ensures
        find_label(args, name) is None,
    decreases args.len(),
{
    if args.len() > 0 {
        lemma_find_label_miss(args.drop_first(), name);
    }
}

/// The position of the first pair carrying `name` as its label, if any.
fn find_label_index(args: &Vec<crate::ast::LabelledParameter>, name: &String) -> (r: Option<
    usize,
>)
    ensures
        match r {
            Some(k) => k < args@.len() && find_label(labelled_params_view(args@), name@) == Some(
                expr_view(args@[k as int].expression),
            ),
            None => find_label(labelled_params_view(args@), name@) is None,
        },
{
    let mut k: usize = 0;
    while k < args.len()
        invariant
            k <= args@.len(),
            forall|m: int| 0 <= m < k ==> labelled_params_view(args@)[m].label != name@,
        decreases args@.len() - k,
    {
        if args[k].label == *name {
            proof {
                lemma_find_label_hit(labelled_params_view(args@), name@, k as int);
            }
            return Some(k);
        }
        k = k + 1;
    }
    proof {
        lemma_find_label_miss(labelled_params_view(args@), name@);
    }
    None
}

/// Binds each formal parameter to its value in the caller's own frame, then
/// creates the child frame and evaluates the callee's body there.
#[verifier::loop_isolation(false)]
fn enter_and_run(
    callee: &FunctionDefinition,
    values: &Vec<i32>,
    env: &mut Environment,
    frame: usize,
    funcs: &FunctionTable,
    output: &mut Vec<i32>,
    fuel: u64,
) -> (r: Result<i32, EvalError>)
    requires
        old(env).wf(),
        funcs.wf(),
        frame < old(env)@.len(),
        values@.len() >= callee.args@.len(),
    ensures
        final(env).wf(),
        old(env)@.len() <= final(env)@.len(),
        ({
            let o = eval_call_body(
                fn_def_view(*callee),
                values@,
                StateView { frames: old(env)@, output: old(output)@ },
                frame as int,
                funcs@,
                fuel as nat,
            );
            final(env)@ == o.state.frames && final(output)@ == o.state.output && r == o.result
        }),
    decreases fuel, 1int,
{
    let ghost st0 = StateView { frames: env@, output: output@ };
    let mut j: usize = 0;
    while j < callee.args.len()
        invariant
            env.wf(),
            j <= callee.args@.len(),
            (StateView { frames: env@, output: output@ }) == bind_args(
                st0,
                frame as int,
                names_view(callee.args@),
                values@,
                j as int,
            ),
            env@.len() == st0.frames.len(),
        decreases callee.args@.len() - j,
    {
        env.define_or_overwrite(frame, callee.args[j].clone(), values[j]);
        j = j + 1;
    }
    let child = env.new_child(frame);
    callee.body.eval(env, child, funcs, output, fuel)
}

impl Expression {
    /// Evaluates this expression in frame `frame` of `env`, appending any
    /// printed values to `output`.  The result, the frames left behind, and
    /// the output trace are exactly those of the mathematical semantics.
    #[verifier::loop_isolation(false)]
    #[verifier::rlimit(100)]
    #[verifier::spinoff_prover]
    pub fn eval(
        &self,
        env: &mut Environment,
        frame: usize,
        funcs: &FunctionTable,
        output: &mut Vec<i32>,
        fuel: u64,
    ) -> (r: Result<i32, EvalError>)
        requires
            old(env).wf(),
            funcs.wf(),
            frame < old(env)@.len(),
        ensures
            final(env).wf(),
            old(env)@.len() <= final(env)@.len(),
            ({
                let o = eval_expr_spec(
                    expr_view(*self),
                    StateView { frames: old(env)@, output: old(output)@ },
                    frame as int,
                    funcs@,
                    fuel as nat,
                );
                final(env)@ == o.state.frames && final(output)@ == o.state.output && r == o.result
            }),
        decreases fuel, 0int,
    {
        let ghost st0 = StateView { frames: env@, output: output@ };
        if fuel == 0 {
            return Err(EvalError::StackExhaustion);
        }
        match self {
            Expression::IntegerLiteral(lit) => Ok(lit.value),
            Expression::Identifier(id) => match env.lookup(frame, &id.name) {
                Some(v) => Ok(v),
                None => Err(EvalError::UnboundVariable),
            },
            Expression::Binary(b) => {
                let lv = match b.lhs.eval(env, frame, funcs, output, fuel - 1) {
                    Ok(v) => v,
                    Err(e) => {
                        return Err(e);
                    },
                };
                let rv = match b.rhs.eval(env, frame, funcs, output, fuel - 1) {
                    Ok(v) => v,
                    Err(e) => {
                        return Err(e);
                    },
                };
                apply_operator_exec(b.operator, lv, rv)
            },
            Expression::Assignment(a) => {
                let v = match a.expression.eval(env, frame, funcs, output, fuel - 1) {
                    Ok(v) => v,
                    Err(e) => {
                        return Err(e);
                    },
                };
                env.define_or_overwrite(frame, a.name.clone(), v);
                Ok(v)
            },
            Expression::Block(blk) => {
                let ghost f = (fuel - 1) as nat;
                let mut value: i32 = 0;
                let mut idx: usize = 0;
                while idx < blk.elements.len()
                    invariant
                        env.wf(),
                        frame < env@.len(),
                        st0.frames.len() <= env@.len(),
                        idx <= blk.elements@.len(),
                        eval_block_spec(exprs_view(blk.elements@), 0, 0, st0, frame as int, funcs@, f)
                            == eval_block_spec(
                            exprs_view(blk.elements@),
                            idx as int,
                            value,
                            StateView { frames: env@, output: output@ },
                            frame as int,
                            funcs@,
                            f,
                        ),
                    decreases blk.elements@.len() - idx,
                {
                    value = match blk.elements[idx].eval(env, frame, funcs, output, fuel - 1) {
                        Ok(v) => v,
                        Err(e) => {
                            return Err(e);
                        },
                    };
                    idx = idx + 1;
                }
                Ok(value)
            },
            Expression::If(ife) => {
                let c = match ife.condition.eval(env, frame, funcs, output, fuel - 1) {
                    Ok(v) => v,
                    Err(e) => {
                        return Err(e);
                    },
                };
                if c != 0 {
                    ife.then_clause.eval(env, frame, funcs, output, fuel - 1)
                } else {
                    match &ife.else_clause {
                        Some(els) => els.eval(env, frame, funcs, output, fuel - 1),
                        None => Ok(1),
                    }
                }
            },
            Expression::While(w) => {
                let mut cur_fuel = fuel;
                loop
                    invariant
                        env.wf(),
                        frame < env@.len(),
                        st0.frames.len() <= env@.len(),
                        cur_fuel <= fuel,
                        eval_expr_spec(expr_view(*self), st0, frame as int, funcs@, fuel as nat)
                            == eval_expr_spec(
                            expr_view(*self),
                            StateView { frames: env@, output: output@ },
                            frame as int,
                            funcs@,
                            cur_fuel as nat,
                        ),
                    decreases cur_fuel,
                {
                    if cur_fuel == 0 {
                        return Err(EvalError::StackExhaustion);
                    }
                    let c = match w.condition.eval(env, frame, funcs, output, cur_fuel - 1) {
                        Ok(v) => v,
                        Err(e) => {
                            return Err(e);
                        },
                    };
                    if c == 0 {
                        return Ok(1);
                    }
                    match w.body.eval(env, frame, funcs, output, cur_fuel - 1) {
                        Ok(_) => {},
                        Err(e) => {
                            return Err(e);
                        },
                    }
                    cur_fuel = cur_fuel - 1;
                }
            },
            Expression::FunctionCall(c) => {
                let callee = match funcs.get(&c.name) {
                    Some(fd) => fd,
                    None => {
                        return Err(EvalError::UndefinedFunction);
                    },
                };
                let ghost f = (fuel - 1) as nat;
                let mut values: Vec<i32> = Vec::new();
                let mut idx: usize = 0;
                while idx < c.args.len()
                    invariant
                        env.wf(),
                        frame < env@.len(),
                        st0.frames.len() <= env@.len(),
                        idx <= c.args@.len(),
                        values@.len() == idx,
                        eval_args_spec(
                            exprs_view(c.args@),
                            0,
                            Seq::empty(),
                            st0,
                            frame as int,
                            funcs@,
                            f,
                        ) == eval_args_spec(
                            exprs_view(c.args@),
                            idx as int,
                            values@,
                            StateView { frames: env@, output: output@ },
                            frame as int,
                            funcs@,
                            f,
                        ),
                    decreases c.args@.len() - idx,
                {
                    let v = match c.args[idx].eval(env, frame, funcs, output, fuel - 1) {
                        Ok(v) => v,
                        Err(e) => {
                            return Err(e);
                        },
                    };
                    values.push(v);
                    idx = idx + 1;
                }
                if values.len() < callee.args.len() {
                    return Err(EvalError::ArityMismatch);
                }
                enter_and_run(callee, &values, env, frame, funcs, output, fuel - 1)
            },
            Expression::LabelledCall(lc) => {
                let callee = match funcs.get(&lc.name) {
                    Some(fd) => fd,
                    None => {
                        return Err(EvalError::UndefinedFunction);
                    },
                };
                let ghost f = (fuel - 1) as nat;
                let mut values: Vec<i32> = Vec::new();
                let mut j: usize = 0;
                while j < callee.args.len()
                    invariant
                        env.wf(),
                        frame < env@.len(),
                        st0.frames.len() <= env@.len(),
                        j <= callee.args@.len(),
                        values@.len() == j,
                        eval_labelled_args_spec(
                            names_view(callee.args@),
                            0,
                            labelled_params_view(lc.args@),
                            Seq::empty(),
                            st0,
                            frame as int,
                            funcs@,
                            f,
                        ) == eval_labelled_args_spec(
                            names_view(callee.args@),
                            j as int,
                            labelled_params_view(lc.args@),
                            values@,
                            StateView { frames: env@, output: output@ },
                            frame as int,
                            funcs@,
                            f,
                        ),
                    decreases callee.args@.len() - j,
                {
                    let formal = &callee.args[j];
                    let v = match find_label_index(&lc.args, formal) {
                        Some(k_hit) => {
                            match lc.args[k_hit].expression.eval(env, frame, funcs, output, fuel - 1) {
                                Ok(v) => v,
                                Err(e) => {
                                    return Err(e);
                                },
                            }
                        },
                        None => {
                            return Err(EvalError::UnknownLabel);
                        },
                    };
                    values.push(v);
                    j = j + 1;
                }
                enter_and_run(callee, &values, env, frame, funcs, output, fuel - 1)
            },
            Expression::Println(p) => {
                let v = match p.body.eval(env, frame, funcs, output, fuel - 1) {
                    Ok(v) => v,
                    Err(e) => {
                        return Err(e);
                    },
                };
                output.push(v);
                Ok(0)
            },
        }
    }
}

/// The engine around one run: the root environment, the function table, and
/// the trace of values emitted on the print channel.
pub struct Interpreter {
    pub variable_environment: Environment,
    pub function_environment: FunctionTable,
    pub output: Vec<i32>,
}

impl Interpreter {
    /// The ghost state this interpreter currently holds.
    pub open spec fn state(&self) -> StateView {
        StateView { frames: self.variable_environment@, output: self.output@ }
    }

    pub open spec fn wf(&self) -> bool {
        &&& self.variable_environment.wf()
        &&& self.function_environment.wf()
        &&& self.variable_environment@.len() >= 1
    }

    /// A fresh interpreter: one empty root frame, an empty function table,
    /// nothing printed yet.
    pub fn new() -> (r: Self)
        ensures
            r.wf(),
            r.state() == initial_state(),
            r.function_environment@ == Map::<Seq<char>, FunctionDefinitionView>::empty(),
    {
        let r = Interpreter {
            variable_environment: Environment::new(),
            function_environment: FunctionTable::new(),
            output: Vec::new(),
        };
        proof {
            assert(r.state() =~= initial_state());
        }
        r
    }

    /// Evaluates one expression against the root frame, with the full
    /// evaluation budget.
    pub fn interpret(&mut self, expression: &Expression) -> (r: Result<i32, EvalError>)
        requires
            old(self).wf(),
        ensures
            final(self).wf(),
            final(self).function_environment == old(self).function_environment,
            ({
                let o = eval_expr_spec(
                    expr_view(*expression),
                    old(self).state(),
                    0,
                    old(self).function_environment@,
                    EVAL_FUEL as nat,
                );
                final(self).state() == o.state && r == o.result
            }),
    {
        let r = expression.eval(
            &mut self.variable_environment,
            0,
            &self.function_environment,
            &mut self.output,
            EVAL_FUEL,
        );
        proof {
            let o = eval_expr_spec(
                expr_view(*expression),
                old(self).state(),
                0,
                old(self).function_environment@,
                EVAL_FUEL as nat,
            );
            assert(self.state() =~= o.state);
        }
        r
    }

    /// The line-mode driver: evaluates a bare sequence of expressions in
    /// order against the shared root frame, returning the last value, or `0`
    /// for an empty sequence.
    #[verifier::loop_isolation(false)]
    pub fn interpret_lines(&mut self, lines: &Vec<Expression>) -> (r: Result<i32, EvalError>)
        requires
            old(self).wf(),
        ensures
            final(self).wf(),
            final(self).function_environment == old(self).function_environment,
            ({
                let o = run_lines_spec(
                    exprs_view(lines@),
                    0,
                    0,
                    old(self).state(),
                    old(self).function_environment@,
                );
                final(self).state() == o.state && r == o.result
            }),
    {
        let mut value: i32 = 0;
        let mut idx: usize = 0;
        while idx < lines.len()
            invariant
                self.wf(),
                self.function_environment == old(self).function_environment,
                idx <= lines@.len(),
                run_lines_spec(
                    exprs_view(lines@),
                    0,
                    0,
                    old(self).state(),
                    old(self).function_environment@,
                ) == run_lines_spec(
                    exprs_view(lines@),
                    idx as int,
                    value,
                    self.state(),
                    self.function_environment@,
                ),
            decreases lines@.len() - idx,
        {
            value = match self.interpret(&lines[idx]) {
                Ok(v) => v,
                Err(e) => {
                    proof {
                        let o = run_lines_spec(
                            exprs_view(lines@),
                            0,
                            0,
                            old(self).state(),
                            old(self).function_environment@,
                        );
                        assert(self.state() =~= o.state);
                    }
                    return Err(e);
                },
            };
            idx = idx + 1;
        }
        proof {
            let o = run_lines_spec(
                exprs_view(lines@),
                0,
                0,
                old(self).state(),
                old(self).function_environment@,
            );
            assert(self.state() =~= o.state);
        }
        Ok(value)
    }

    /// The two-phase driver.  LOAD: each declaration is processed in source
    /// order — functions register themselves, globals evaluate their
    /// initializers immediately against the root frame and the table built
    /// so far.  RUN: `main`'s body is evaluated directly against the root
    /// frame (not through the call protocol) and its value is the program's
    /// result.
    #[verifier::loop_isolation(false)]
    pub fn call_main(&mut self, program: Program) -> (r: Result<i32, EvalError>)
        requires
            old(self).wf(),
        ensures
            final(self).wf(),
            final(self).function_environment@ == load_spec(
                toplevels_view(program.definitions@),
                0,
                old(self).state(),
                old(self).function_environment@,
            ).funcs,
            ({
                let o = call_main_spec(
                    toplevels_view(program.definitions@),
                    old(self).state(),
                    old(self).function_environment@,
                );
                final(self).state() == o.state && r == o.result
            }),
    {
        let ghost defs0 = program.definitions@;
        let mut defs = program.definitions;
        let ghost mut i: int = 0;
        while defs.len() > 0
            invariant
                self.wf(),
                0 <= i <= defs0.len(),
                defs@ == defs0.subrange(i, defs0.len() as int),
                load_spec(
                    toplevels_view(defs0),
                    0,
                    old(self).state(),
                    old(self).function_environment@,
                ) == load_spec(toplevels_view(defs0), i, self.state(), self.function_environment@),
            decreases defs@.len(),
        {
            let d = defs.remove(0);
            proof {
                assert(d == defs0[i]);
                assert(defs@ =~= defs0.subrange(i + 1, defs0.len() as int));
            }
            match d {
                TopLevel::FunctionDefinition(fd) => {
                    self.function_environment.register(fd);
                },
                TopLevel::GlobalVariableDefinition(g) => {
                    let v = match g.body.eval(
                        &mut self.variable_environment,
                        0,
                        &self.function_environment,
                        &mut self.output,
                        EVAL_FUEL,
                    ) {
                        Ok(v) => v,
                        Err(e) => {
                            proof {
                                let lo = load_spec(
                                    toplevels_view(defs0),
                                    0,
                                    old(self).state(),
                                    old(self).function_environment@,
                                );
                                assert(self.state() =~= lo.state);
                            }
                            return Err(e);
                        },
                    };
                    self.variable_environment.define_or_overwrite(0, g.name, v);
                },
            }
            proof {
                i = i + 1;
            }
        }
        proof {
            let lo = load_spec(
                toplevels_view(defs0),
                0,
                old(self).state(),
                old(self).function_environment@,
            );
            assert(self.state() =~= lo.state);
            assert(self.function_environment@ == lo.funcs);
        }
        let main_name: String = String::from_str("main");
        let main_fn = match self.function_environment.get(&main_name) {
            Some(fd) => fd,
            None => {
                return Err(EvalError::MissingMain);
            },
        };
        let r = main_fn.body.eval(
            &mut self.variable_environment,
            0,
            &self.function_environment,
            &mut self.output,
            EVAL_FUEL,
        );
        proof {
            let o = call_main_spec(
                toplevels_view(defs0),
                old(self).state(),
                old(self).function_environment@,
            );
            assert(self.state() =~= o.state);
        }
        r
    }
}

} // verus!
