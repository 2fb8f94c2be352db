use toys_in_rust::ast::{Ast, Program};
use toys_in_rust::env::Environment;
use toys_in_rust::error::EvalError;
use toys_in_rust::interpreter::{FunctionTable, Interpreter};

#[test]
fn test_10_plus_20() {
    let e = Ast::add(Ast::integer(10), Ast::integer(20));
    let mut i = Interpreter::new();
    assert_eq!(30, i.interpret(&e).unwrap());
}

#[test]
fn test2() {
    let e = Ast::add(
        Ast::integer(10),
        Ast::multiply(Ast::integer(4), Ast::integer(8)),
    );
    let mut i = Interpreter::new();
    assert_eq!(42, i.interpret(&e).unwrap());
}

#[test]
fn test_assignment() {
    let mut i = Interpreter::new();
    let a = Ast::assignment("a".to_string(), Ast::integer(10));
    i.interpret(&a).unwrap();
    let b = Ast::assignment("b".to_string(), Ast::integer(20));
    i.interpret(&b).unwrap();
    let e = Ast::add(
        Ast::symbol("a".to_string()),
        Ast::symbol("b".to_string()),
    );

    assert_eq!(30, i.interpret(&e).unwrap());
}

#[test]
fn test_factorial() {
    let main = Ast::define_function(
        "main".to_string(),
        Vec::new(),
        Ast::block(vec![Ast::call("fact".to_string(), vec![Ast::integer(5)])]),
    );
    let fact = Ast::define_function(
        "fact".to_string(),
        vec!["n".to_string()],
        Ast::block(vec![Ast::if_expr(
            Ast::less_than(Ast::symbol("n".to_string()), Ast::integer(2)),
            Ast::integer(1),
            Some(Ast::multiply(
                Ast::symbol("n".to_string()),
                Ast::call(
                    "fact".to_string(),
                    vec![Ast::subtract(Ast::symbol("n".to_string()), Ast::integer(1))],
                ),
            )),
        )]),
    );
    let mut i = Interpreter::new();
    let result = i.call_main(Program { definitions: vec![main, fact] });
    assert_eq!(120, result.unwrap());
}

#[test]
fn test_empty_block_is_zero() {
    let mut i = Interpreter::new();
    assert_eq!(0, i.interpret(&Ast::block(Vec::new())).unwrap());
}

#[test]
fn test_if_falsy_without_else_is_one() {
    let mut i = Interpreter::new();
    let e = Ast::if_expr(Ast::integer(0), Ast::integer(5), None);
    assert_eq!(1, i.interpret(&e).unwrap());
}

#[test]
fn test_if_truthy_takes_then_branch() {
    let mut i = Interpreter::new();
    let e = Ast::if_expr(Ast::integer(7), Ast::integer(5), Some(Ast::integer(9)));
    assert_eq!(5, i.interpret(&e).unwrap());
}

#[test]
fn test_while_yields_one() {
    let mut i = Interpreter::new();
    let setup = Ast::assignment("i".to_string(), Ast::integer(0));
    i.interpret(&setup).unwrap();
    let loop_e = Ast::while_expr(
        Ast::less_than(Ast::symbol("i".to_string()), Ast::integer(3)),
        Ast::assignment(
            "i".to_string(),
            Ast::add(Ast::symbol("i".to_string()), Ast::integer(1)),
        ),
    );
    assert_eq!(1, i.interpret(&loop_e).unwrap());
    assert_eq!(Some(3), i.variable_environment.lookup(0, &"i".to_string()));
}

#[test]
fn test_comparisons_yield_flags() {
    let mut i = Interpreter::new();
    assert_eq!(1, i.interpret(&Ast::less_than(Ast::integer(1), Ast::integer(2))).unwrap());
    assert_eq!(0, i.interpret(&Ast::less_than(Ast::integer(2), Ast::integer(1))).unwrap());
    assert_eq!(1, i.interpret(&Ast::less_or_equal(Ast::integer(2), Ast::integer(2))).unwrap());
    assert_eq!(0, i.interpret(&Ast::less_or_equal(Ast::integer(3), Ast::integer(2))).unwrap());
    assert_eq!(1, i.interpret(&Ast::greater_than(Ast::integer(3), Ast::integer(2))).unwrap());
    assert_eq!(0, i.interpret(&Ast::greater_than(Ast::integer(2), Ast::integer(2))).unwrap());
    assert_eq!(1, i.interpret(&Ast::greater_or_equal(Ast::integer(2), Ast::integer(2))).unwrap());
    assert_eq!(0, i.interpret(&Ast::greater_or_equal(Ast::integer(1), Ast::integer(2))).unwrap());
    assert_eq!(1, i.interpret(&Ast::equal_equal(Ast::integer(4), Ast::integer(4))).unwrap());
    assert_eq!(0, i.interpret(&Ast::equal_equal(Ast::integer(4), Ast::integer(5))).unwrap());
    assert_eq!(1, i.interpret(&Ast::not_equal(Ast::integer(4), Ast::integer(5))).unwrap());
    assert_eq!(0, i.interpret(&Ast::not_equal(Ast::integer(4), Ast::integer(4))).unwrap());
}

#[test]
fn test_division_truncates_toward_zero() {
    let mut i = Interpreter::new();
    assert_eq!(3, i.interpret(&Ast::divide(Ast::integer(7), Ast::integer(2))).unwrap());
    let minus_seven = Ast::subtract(Ast::integer(0), Ast::integer(7));
    assert_eq!(-3, i.interpret(&Ast::divide(minus_seven, Ast::integer(2))).unwrap());
}

#[test]
fn test_division_by_zero_fails() {
    let mut i = Interpreter::new();
    let e = Ast::divide(Ast::integer(1), Ast::integer(0));
    assert_eq!(Err(EvalError::DivisionByZero), i.interpret(&e));
}

#[test]
fn test_arithmetic_wraps_on_32_bits() {
    let mut i = Interpreter::new();
    let e = Ast::add(Ast::integer(i32::MAX), Ast::integer(1));
    assert_eq!(i32::MIN, i.interpret(&e).unwrap());
}

#[test]
fn test_unbound_variable_fails() {
    let mut i = Interpreter::new();
    let e = Ast::symbol("nowhere".to_string());
    assert_eq!(Err(EvalError::UnboundVariable), i.interpret(&e));
}

#[test]
fn test_undefined_function_fails() {
    let mut i = Interpreter::new();
    let e = Ast::call("nowhere".to_string(), Vec::new());
    assert_eq!(Err(EvalError::UndefinedFunction), i.interpret(&e));
}

#[test]
fn test_arity_mismatch_fails() {
    let f = Ast::define_function(
        "f".to_string(),
        vec!["a".to_string(), "b".to_string()],
        Ast::symbol("a".to_string()),
    );
    let main = Ast::define_function(
        "main".to_string(),
        Vec::new(),
        Ast::call("f".to_string(), vec![Ast::integer(1)]),
    );
    let mut i = Interpreter::new();
    assert_eq!(
        Err(EvalError::ArityMismatch),
        i.call_main(Program { definitions: vec![f, main] })
    );
}

#[test]
fn test_extra_positional_arguments_are_allowed() {
    let f = Ast::define_function(
        "f".to_string(),
        vec!["a".to_string()],
        Ast::symbol("a".to_string()),
    );
    let main = Ast::define_function(
        "main".to_string(),
        Vec::new(),
        Ast::call("f".to_string(), vec![Ast::integer(1), Ast::integer(2)]),
    );
    let mut i = Interpreter::new();
    assert_eq!(1, i.call_main(Program { definitions: vec![f, main] }).unwrap());
}

#[test]
fn test_missing_main_fails() {
    let f = Ast::define_function("f".to_string(), Vec::new(), Ast::integer(1));
    let mut i = Interpreter::new();
    assert_eq!(
        Err(EvalError::MissingMain),
        i.call_main(Program { definitions: vec![f] })
    );
}

#[test]
fn test_unknown_label_fails() {
    let power = Ast::define_function(
        "power".to_string(),
        vec!["n".to_string()],
        Ast::multiply(Ast::symbol("n".to_string()), Ast::symbol("n".to_string())),
    );
    let main = Ast::define_function(
        "main".to_string(),
        Vec::new(),
        Ast::labelled_call(
            "power".to_string(),
            vec![Ast::labelled_parameter("m".to_string(), Ast::integer(6))],
        ),
    );
    let mut i = Interpreter::new();
    assert_eq!(
        Err(EvalError::UnknownLabel),
        i.call_main(Program { definitions: vec![power, main] })
    );
}

#[test]
fn test_labelled_call_binds_by_name() {
    let mul = Ast::define_function(
        "mul".to_string(),
        vec!["n".to_string(), "m".to_string()],
        Ast::multiply(Ast::symbol("n".to_string()), Ast::symbol("m".to_string())),
    );
    let main = Ast::define_function(
        "main".to_string(),
        Vec::new(),
        Ast::labelled_call(
            "mul".to_string(),
            vec![
                Ast::labelled_parameter("m".to_string(), Ast::integer(21)),
                Ast::labelled_parameter("n".to_string(), Ast::integer(6)),
            ],
        ),
    );
    let mut i = Interpreter::new();
    assert_eq!(126, i.call_main(Program { definitions: vec![mul, main] }).unwrap());
}

// Regression test for the documented call-protocol quirk: argument values
// are bound to the formals in the caller's own frame and persist there.
#[test]
fn test_call_pollutes_caller_frame() {
    let f = Ast::define_function(
        "f".to_string(),
        vec!["n".to_string()],
        Ast::integer(0),
    );
    let main = Ast::define_function(
        "main".to_string(),
        Vec::new(),
        Ast::block(vec![
            Ast::call("f".to_string(), vec![Ast::integer(7)]),
            Ast::call("f".to_string(), vec![Ast::integer(9)]),
        ]),
    );
    let mut i = Interpreter::new();
    i.call_main(Program { definitions: vec![f, main] }).unwrap();
    // main ran against the root frame, so the binding for the formal `n`
    // from the last call is visible there.
    assert_eq!(Some(9), i.variable_environment.lookup(0, &"n".to_string()));
}

#[test]
fn test_later_function_definition_overwrites_earlier() {
    let first = Ast::define_function("f".to_string(), Vec::new(), Ast::integer(1));
    let second = Ast::define_function("f".to_string(), Vec::new(), Ast::integer(2));
    let main = Ast::define_function(
        "main".to_string(),
        Vec::new(),
        Ast::call("f".to_string(), Vec::new()),
    );
    let mut i = Interpreter::new();
    assert_eq!(
        2,
        i.call_main(Program { definitions: vec![first, second, main] }).unwrap()
    );
}

#[test]
fn test_println_records_value_and_returns_zero() {
    let mut i = Interpreter::new();
    let e = Ast::println(Ast::integer(15));
    assert_eq!(0, i.interpret(&e).unwrap());
    assert_eq!(vec![15], i.output);
}

#[test]
fn test_eval_without_fuel_reports_exhaustion() {
    let mut env = Environment::new();
    let funcs = FunctionTable::new();
    let mut output: Vec<i32> = Vec::new();
    let e = Ast::integer(1);
    assert_eq!(
        Err(EvalError::StackExhaustion),
        e.eval(&mut env, 0, &funcs, &mut output, 0)
    );
}

#[test]
fn test_deep_recursion_exhausts_small_fuel() {
    let loop_fn = Ast::define_function(
        "f".to_string(),
        Vec::new(),
        Ast::call("f".to_string(), Vec::new()),
    );
    let mut env = Environment::new();
    let mut table = FunctionTable::new();
    match loop_fn {
        toys_in_rust::ast::TopLevel::FunctionDefinition(fd) => table.register(fd),
        _ => panic!("expected a function definition"),
    }
    let mut output: Vec<i32> = Vec::new();
    let call = Ast::call("f".to_string(), Vec::new());
    assert_eq!(
        Err(EvalError::StackExhaustion),
        call.eval(&mut env, 0, &table, &mut output, 50)
    );
}
