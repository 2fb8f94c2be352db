use toys_in_rust::error::EvalError;
use toys_in_rust::interpreter::Interpreter;
use toys_in_rust::parser::{parse, parse_lines};
use toys_in_rust::{execute_lines, execute_program};

#[test]
fn test_println() {
    let program = "\n            println(1+2+3+4+5);\n            1+2+3+4+5;\n        "
        .to_string();
    let parsed = parse_lines(&program).unwrap();
    let mut i = Interpreter::new();
    let mut results: Vec<i32> = Vec::new();
    for e in parsed.iter() {
        results.push(i.interpret(e).unwrap());
    }
    let result = results.into_iter().last();
    assert_eq!(15, result.unwrap());
    assert_eq!(vec![15], i.output);
}

#[test]
fn test_add() {
    let input = "
            define main() { 61+50+9; }
        "
    .to_string();
    assert_eq!(Ok(120), execute_program(&input));
}

#[test]
fn test_factorial_program() {
    let input = "
            define main() {
                fact(5);
            }
            define fact(n) {
                if (n < 2) {
                    1;
                } else {
                    n*fact(n-1);
                }
            }
        "
    .to_string();
    assert_eq!(Ok(120), execute_program(&input));
}

#[test]
fn test_while() {
    let input = "
            define main() {
                i = 0;
                while (i < 10) {
                    i = i + 1;
                }
                i;
            }
        "
    .to_string();
    assert_eq!(Ok(10), execute_program(&input));
}

#[test]
fn test_global() {
    let input = "
            global pi = 3;
            define main() {
                foo() * 3;
            }
            define foo() {
                pi* 2*2;
            }
        "
    .to_string();
    assert_eq!(Ok(36), execute_program(&input));
}

#[test]
fn test_multiply() {
    let input = "
            define main() {
                ((3+4)*5+1)/2*2*3-5-4;
            }
        "
    .to_string();
    assert_eq!(Ok(99), execute_program(&input));
}

#[test]
fn test_define_function() {
    let input = "
            define main() {
                v = add2(v);
            }
            global v = 2;
            define add2(x) {
                x + 2;
            }
        "
    .to_string();
    assert_eq!(Ok(4), execute_program(&input));
}

#[test]
fn test_factorial2() {
    let input = "
            define factorial(n) {
                if(n < 2) {
                    1;
                } else {
                    n * factorial(n - 1);
                }
            }
            global n = 0;
            define main() {
                n = factorial(6);
                println(n);
                n;
            }
        "
    .to_string();
    assert_eq!(Ok(720), execute_program(&input));
}

#[test]
fn test_labelled() {
    let input = "
            define power(n) {
                n * n;
            }
            define main() {
                power[n = 6];
            }
        "
    .to_string();
    assert_eq!(Ok(36), execute_program(&input));
}

#[test]
fn test_labelled2() {
    let input = "
            define mul(n, m) {
                n * m;
            }
            define main() {
                mul[n = 6, m = 21];
            }
        "
    .to_string();
    assert_eq!(Ok(126), execute_program(&input));
}

#[test]
fn test_while_lines() {
    let input = "
            i = 0;
            while (i < 10) {
                i = i + 1;
            }
            i;
        "
    .to_string();
    assert_eq!(Ok(10), execute_lines(&input));
}

#[test]
fn test_assignment_lines() {
    let input = "
            a = 1 + 2;
            a = a + 3;
            a = a + a;
        "
    .to_string();
    assert_eq!(Ok(12), execute_lines(&input));
}

#[test]
fn test_if1() {
    let input = "
            if(1 >= 2) {
                a = 1;
            } else {
                a = 0;
            }
        "
    .to_string();
    assert_eq!(Ok(0), execute_lines(&input));
}

#[test]
fn test_if2() {
    let input = "
            if(1 <= 2) {
                a = 1;
            } else {
                a = 0;
            }
        "
    .to_string();
    assert_eq!(Ok(1), execute_lines(&input));
}

#[test]
fn test_for_in() {
    let input = "
            for (i in 1 to 10) {
                i = i + 1;
            }
            i;
        "
    .to_string();
    assert_eq!(Ok(11), execute_lines(&input));
}

#[test]
fn test_for_in2() {
    let input = "
            x = 20;
            for (i in 20-15 to 2*5*2) x = x + 1;
            x;
        "
    .to_string();
    assert_eq!(Ok(36), execute_lines(&input));
}

#[test]
fn test_empty_lines_yield_zero() {
    let input = "".to_string();
    assert_eq!(Ok(0), execute_lines(&input));
}

#[test]
fn test_program_without_main_fails() {
    let input = "
            define foo() { 1; }
        "
    .to_string();
    assert_eq!(Err(EvalError::MissingMain), execute_program(&input));
}

#[test]
fn test_unknown_label_program_fails() {
    let input = "
            define power(n) { n * n; }
            define main() { power[m = 6]; }
        "
    .to_string();
    assert_eq!(Err(EvalError::UnknownLabel), execute_program(&input));
}

#[test]
fn test_division_by_zero_program_fails() {
    let input = "
            define main() { 1 / 0; }
        "
    .to_string();
    assert_eq!(Err(EvalError::DivisionByZero), execute_program(&input));
}

#[test]
fn test_unbound_variable_lines_fails() {
    let input = "x;".to_string();
    assert_eq!(Err(EvalError::UnboundVariable), execute_lines(&input));
}

#[test]
fn test_undefined_function_program_fails() {
    let input = "
            define main() { nowhere(1); }
        "
    .to_string();
    assert_eq!(Err(EvalError::UndefinedFunction), execute_program(&input));
}

#[test]
fn test_bad_syntax_fails() {
    let input = "define !!".to_string();
    assert_eq!(Err(EvalError::SyntaxError), execute_program(&input));
}

#[test]
fn test_oversized_literal_fails() {
    let input = "99999999999;".to_string();
    assert_eq!(Err(EvalError::SyntaxError), execute_lines(&input));
}

#[test]
fn test_parse_builds_definitions() {
    let input = "
            global n = 1;
            define main() { n; }
        "
    .to_string();
    let program = parse(&input).unwrap();
    assert_eq!(2, program.definitions.len());
}

#[test]
fn test_global_initializer_may_call_earlier_function() {
    let input = "
            define five() { 5; }
            global ten = five() + five();
            define main() { ten; }
        "
    .to_string();
    assert_eq!(Ok(10), execute_program(&input));
}

#[test]
fn test_global_initializer_cannot_see_later_function() {
    let input = "
            global ten = five() + five();
            define five() { 5; }
            define main() { ten; }
        "
    .to_string();
    assert_eq!(Err(EvalError::UndefinedFunction), execute_program(&input));
}

#[test]
fn test_deep_recursion_sees_ancestor_bindings() {
    // Each recursive call binds `n` in its caller's frame, and every child
    // frame chains upward through those frames, so the innermost body sees
    // the innermost binding first.
    let input = "
            define down(n) {
                if (n > 0) {
                    down(n - 1);
                } else {
                    0;
                }
            }
            define main() {
                down(4);
                n;
            }
        "
    .to_string();
    // After the outer call returns, main's frame holds `n = 4`, the value
    // bound by the outermost call.
    assert_eq!(Ok(4), execute_program(&input));
}

#[test]
fn test_equality_operators_in_source() {
    assert_eq!(Ok(1), execute_lines(&"1 == 1;".to_string()));
    assert_eq!(Ok(0), execute_lines(&"1 == 2;".to_string()));
    assert_eq!(Ok(1), execute_lines(&"1 != 2;".to_string()));
    assert_eq!(Ok(0), execute_lines(&"1 != 1;".to_string()));
    assert_eq!(Ok(1), execute_lines(&"2 > 1;".to_string()));
    assert_eq!(Ok(1), execute_lines(&"2 >= 2;".to_string()));
}

#[test]
fn test_stray_bang_is_a_syntax_error() {
    assert_eq!(Err(EvalError::SyntaxError), execute_lines(&"1 ! 2;".to_string()));
}

#[test]
fn test_nested_parentheses() {
    assert_eq!(Ok(14), execute_lines(&"2 * (3 + (2 * 2));".to_string()));
}
