use rinha_eval::ast::{BinaryOp, Function, Location, Term};
use rinha_eval::errors::{EvalError, TypeContext};
use rinha_eval::eval::evaluate;
use rinha_eval::value::RuntimeValue;

fn loc() -> Location {
    Location { start: 0, end: 0, filename: "test".to_string() }
}

fn num(n: i64) -> Term {
    Term::Int(n, loc())
}

fn var(name: &str) -> Term {
    Term::Var(name.to_string(), loc())
}

fn binary(op: BinaryOp, lhs: Term, rhs: Term) -> Term {
    Term::Binary(op, Box::new(lhs), Box::new(rhs), loc())
}

fn let_in(name: &str, value: Term, next: Term) -> Term {
    Term::Let(name.to_string(), Box::new(value), Box::new(next), loc())
}

fn function(params: &[&str], body: Term) -> Term {
    Term::Function(Function {
        parameters: params.iter().map(|p| p.to_string()).collect(),
        value: Box::new(body),
        location: loc(),
    })
}

fn call(name: &str, args: Vec<Term>) -> Term {
    Term::Call(Box::new(var(name)), args, loc())
}

fn run(term: Term) -> (Result<RuntimeValue, EvalError>, String) {
    let mut out: Vec<char> = Vec::new();
    let r = evaluate(&term, "test".to_string(), &mut out);
    (r, out.iter().collect())
}

fn expect_int(term: Term, expected: i64) {
    let (r, _) = run(term);
    match r {
        Ok(RuntimeValue::Int(n)) => assert_eq!(n, expected),
        other => panic!("expected Int({expected}), got {other:?}"),
    }
}

#[test]
fn literals_evaluate_to_themselves() {
    expect_int(num(42), 42);
    let (r, _) = run(Term::Str("hello".to_string(), loc()));
    match r {
        Ok(RuntimeValue::Str(s)) => assert_eq!(s, "hello"),
        other => panic!("unexpected {other:?}"),
    }
    let (r, _) = run(Term::Bool(true, loc()));
    assert!(matches!(r, Ok(RuntimeValue::Bool(true))));
}

#[test]
fn division_truncates() {
    expect_int(binary(BinaryOp::Div, num(7), num(2)), 3);
    expect_int(binary(BinaryOp::Div, num(-7), num(2)), -3);
    expect_int(binary(BinaryOp::Div, num(7), num(-2)), -3);
    expect_int(binary(BinaryOp::Div, num(-7), num(-2)), 3);
    expect_int(binary(BinaryOp::Div, num(0), num(-5)), 0);
}

#[test]
fn remainder_takes_dividend_sign() {
    expect_int(binary(BinaryOp::Rem, num(7), num(2)), 1);
    expect_int(binary(BinaryOp::Rem, num(-7), num(2)), -1);
    expect_int(binary(BinaryOp::Rem, num(7), num(-2)), 1);
    expect_int(binary(BinaryOp::Rem, num(-7), num(-2)), -1);
}

#[test]
fn division_by_zero_fails() {
    let (r, _) = run(binary(BinaryOp::Div, num(1), num(0)));
    assert!(matches!(r, Err(EvalError::ArithmeticError)));
    let (r, _) = run(binary(BinaryOp::Rem, num(1), num(0)));
    assert!(matches!(r, Err(EvalError::ArithmeticError)));
}

#[test]
fn overflow_fails() {
    let (r, _) = run(binary(BinaryOp::Add, num(i64::MAX), num(1)));
    assert!(matches!(r, Err(EvalError::ArithmeticError)));
    let (r, _) = run(binary(BinaryOp::Sub, num(i64::MIN), num(1)));
    assert!(matches!(r, Err(EvalError::ArithmeticError)));
    let (r, _) = run(binary(BinaryOp::Mul, num(i64::MAX), num(2)));
    assert!(matches!(r, Err(EvalError::ArithmeticError)));
    let (r, _) = run(binary(BinaryOp::Div, num(i64::MIN), num(-1)));
    assert!(matches!(r, Err(EvalError::ArithmeticError)));
    let (r, _) = run(binary(BinaryOp::Rem, num(i64::MIN), num(-1)));
    assert!(matches!(r, Err(EvalError::ArithmeticError)));
}

#[test]
fn comparisons_yield_one_or_zero() {
    expect_int(binary(BinaryOp::Eq, num(2), num(2)), 1);
    expect_int(binary(BinaryOp::Neq, num(2), num(2)), 0);
    expect_int(binary(BinaryOp::Lt, num(1), num(2)), 1);
    expect_int(binary(BinaryOp::Gt, num(1), num(2)), 0);
    expect_int(binary(BinaryOp::Lte, num(2), num(2)), 1);
    expect_int(binary(BinaryOp::Gte, num(1), num(2)), 0);
}

#[test]
fn logic_reads_nonzero_as_true() {
    expect_int(binary(BinaryOp::And, num(3), num(5)), 1);
    expect_int(binary(BinaryOp::And, num(0), num(5)), 0);
    expect_int(binary(BinaryOp::Or, num(0), num(5)), 1);
    expect_int(binary(BinaryOp::Or, num(0), num(0)), 0);
}

#[test]
fn operand_must_be_integer() {
    let (r, _) = run(binary(BinaryOp::Add, num(1), Term::Bool(true, loc())));
    assert!(matches!(r, Err(EvalError::TypeMismatch(TypeContext::Operand))));
}

#[test]
fn let_returns_bound_value() {
    expect_int(let_in("x", num(42), var("x")), 42);
    let (r, _) = run(let_in("x", Term::Str("v".to_string(), loc()), var("x")));
    match r {
        Ok(RuntimeValue::Str(s)) => assert_eq!(s, "v"),
        other => panic!("unexpected {other:?}"),
    }
}

#[test]
fn let_shadows_earlier_binding() {
    expect_int(let_in("x", num(1), let_in("x", num(2), var("x"))), 2);
}

#[test]
fn unbound_variable_fails() {
    let (r, _) = run(var("nope"));
    match r {
        Err(EvalError::UnboundVariable(name)) => assert_eq!(name, "nope"),
        other => panic!("unexpected {other:?}"),
    }
}

#[test]
fn truthy_int_branches() {
    expect_int(
        Term::If(Box::new(num(5)), Box::new(num(10)), Box::new(num(20)), loc()),
        10,
    );
    expect_int(
        Term::If(Box::new(num(0)), Box::new(num(10)), Box::new(num(20)), loc()),
        20,
    );
}

#[test]
fn boolean_condition_branches() {
    expect_int(
        Term::If(Box::new(Term::Bool(false, loc())), Box::new(num(1)), Box::new(num(2)), loc()),
        2,
    );
}

#[test]
fn condition_must_be_boolean_or_integer() {
    let cond = Term::Str("yes".to_string(), loc());
    let (r, _) = run(Term::If(Box::new(cond), Box::new(num(1)), Box::new(num(2)), loc()));
    assert!(matches!(r, Err(EvalError::TypeMismatch(TypeContext::Condition))));
}

#[test]
fn arity_must_match() {
    // a two-parameter function, called with one, three, and two arguments
    let program = |args: Vec<Term>| {
        let_in(
            "add2",
            function(&["a", "b"], binary(BinaryOp::Add, var("a"), var("b"))),
            call("add2", args),
        )
    };
    let (r, _) = run(program(vec![num(1)]));
    assert!(matches!(r, Err(EvalError::ArityMismatch(2, 1))));
    let (r, _) = run(program(vec![num(1), num(2), num(3)]));
    assert!(matches!(r, Err(EvalError::ArityMismatch(2, 3))));
    expect_int(program(vec![num(1), num(2)]), 3);
}

#[test]
fn callee_must_be_variable() {
    let (r, _) = run(Term::Call(Box::new(num(1)), vec![], loc()));
    assert!(matches!(r, Err(EvalError::CalleeNotVar)));
}

#[test]
fn callee_must_hold_function() {
    let (r, _) = run(let_in("x", num(1), call("x", vec![])));
    match r {
        Err(EvalError::NotCallable(name)) => assert_eq!(name, "x"),
        other => panic!("unexpected {other:?}"),
    }
}

#[test]
fn ancestor_binding_is_visible_two_levels_up() {
    // outer binds "secret", calls mid, whose body calls inner, whose body
    // reads "secret": dynamic scoping resolves it through two suspended
    // caller frames.
    let program = let_in(
        "secret",
        num(99),
        let_in(
            "inner",
            function(&[], var("secret")),
            let_in("mid", function(&[], call("inner", vec![])), call("mid", vec![])),
        ),
    );
    expect_int(program, 99);
}

#[test]
fn popped_sibling_binding_is_gone() {
    // f's parameter "hidden" lives only while f runs; a sibling call made
    // afterwards cannot see it.
    let program = let_in(
        "f",
        function(&["hidden"], num(0)),
        let_in(
            "g",
            function(&[], var("hidden")),
            let_in("ignored", call("f", vec![num(1)]), call("g", vec![])),
        ),
    );
    let (r, _) = run(program);
    match r {
        Err(EvalError::UnboundVariable(name)) => assert_eq!(name, "hidden"),
        other => panic!("unexpected {other:?}"),
    }
}

#[test]
fn dynamic_scope_sees_caller_bindings() {
    // the same function value reads different "x" depending on the caller
    let reader = function(&[], var("x"));
    let caller = function(&["x"], call("r", vec![]));
    let program = let_in(
        "r",
        reader,
        let_in(
            "c",
            caller,
            binary(BinaryOp::Add, call("c", vec![num(10)]), call("c", vec![num(32)])),
        ),
    );
    expect_int(program, 42);
}

#[test]
fn factorial_prints_120() {
    let fact_body = Term::If(
        Box::new(binary(BinaryOp::Lt, var("n"), num(2))),
        Box::new(num(1)),
        Box::new(binary(
            BinaryOp::Mul,
            var("n"),
            call("fact", vec![binary(BinaryOp::Sub, var("n"), num(1))]),
        )),
        loc(),
    );
    let program = let_in(
        "fact",
        function(&["n"], fact_body),
        Term::Print(Box::new(call("fact", vec![num(5)])), loc()),
    );
    let (r, out) = run(program);
    assert!(matches!(r, Ok(RuntimeValue::Void)));
    assert_eq!(out, "120");
}

#[test]
fn print_writes_sum_without_newline() {
    let program = Term::Print(Box::new(binary(BinaryOp::Add, num(2), num(3))), loc());
    let (r, out) = run(program);
    assert!(matches!(r, Ok(RuntimeValue::Void)));
    assert_eq!(out, "5");
}

#[test]
fn print_renders_each_shape() {
    let (_, out) = run(Term::Print(Box::new(num(-42)), loc()));
    assert_eq!(out, "-42");
    let (_, out) = run(Term::Print(Box::new(Term::Str("raw".to_string(), loc())), loc()));
    assert_eq!(out, "raw");
    let (_, out) = run(Term::Print(Box::new(Term::Bool(true, loc())), loc()));
    assert_eq!(out, "true");
    let (_, out) = run(Term::Print(Box::new(Term::Bool(false, loc())), loc()));
    assert_eq!(out, "false");
    let (_, out) = run(Term::Print(
        Box::new(Term::Tuple(Box::new(num(1)), Box::new(num(2)), loc())),
        loc(),
    ));
    assert_eq!(out, "[tuple]");
    let (_, out) = run(Term::Print(Box::new(function(&[], num(0))), loc()));
    assert_eq!(out, "[function]");
    let (_, out) = run(Term::Print(
        Box::new(Term::Print(Box::new(num(7)), loc())),
        loc(),
    ));
    assert_eq!(out, "7[void]");
}

#[test]
fn prints_happen_in_evaluation_order() {
    let program = binary(
        BinaryOp::Add,
        Term::Print(Box::new(num(1)), loc()),
        Term::Print(Box::new(num(2)), loc()),
    );
    let (r, out) = run(program);
    // both sides print, then the operands turn out not to be integers
    assert!(matches!(r, Err(EvalError::TypeMismatch(TypeContext::Operand))));
    assert_eq!(out, "12");
}

#[test]
fn tuple_round_trip() {
    let tuple = || Term::Tuple(Box::new(num(1)), Box::new(num(2)), loc());
    expect_int(Term::First(Box::new(tuple()), loc()), 1);
    expect_int(Term::Second(Box::new(tuple()), loc()), 2);
}

#[test]
fn tuple_access_needs_tuple() {
    let (r, _) = run(Term::First(Box::new(num(3)), loc()));
    assert!(matches!(r, Err(EvalError::TypeMismatch(TypeContext::TupleAccess))));
    let (r, _) = run(Term::Second(Box::new(num(3)), loc()));
    assert!(matches!(r, Err(EvalError::TypeMismatch(TypeContext::TupleAccess))));
}

#[test]
fn embedded_parse_error_fails() {
    let program = Term::Error("bad token".to_string(), loc());
    let (r, _) = run(program);
    match r {
        Err(EvalError::EmbeddedParseError(message, location)) => {
            assert_eq!(message, "bad token");
            assert_eq!(location.filename, "test");
        },
        other => panic!("unexpected {other:?}"),
    }
}

#[test]
fn runaway_recursion_trips_the_depth_guard() {
    let program = let_in("f", function(&[], call("f", vec![])), call("f", vec![]));
    let (r, _) = run(program);
    assert!(matches!(r, Err(EvalError::StackOverflow)));
}

#[test]
fn function_literal_is_a_value() {
    let (r, _) = run(function(&["a"], var("a")));
    match r {
        Ok(RuntimeValue::Function(f)) => assert_eq!(f.parameters, vec!["a".to_string()]),
        other => panic!("unexpected {other:?}"),
    }
}

#[test]
fn recursion_within_the_depth_budget_succeeds() {
    // sum(n) = n + sum(n - 1), sum(0) = 0: one hundred nested calls
    let body = Term::If(
        Box::new(binary(BinaryOp::Eq, var("n"), num(0))),
        Box::new(num(0)),
        Box::new(binary(
            BinaryOp::Add,
            var("n"),
            call("sum", vec![binary(BinaryOp::Sub, var("n"), num(1))]),
        )),
        loc(),
    );
    let program = let_in("sum", function(&["n"], body), call("sum", vec![num(100)]));
    expect_int(program, 5050);
}
