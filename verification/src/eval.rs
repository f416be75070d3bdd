//! The executable evaluator: a recursive dispatcher that interprets one AST
//! node at a time against the current call stack, producing a runtime value
//! and appending any printed text to the output buffer.
//!
//! Every function here is proved to agree, result, stack and output alike,
//! with the big-step semantics in [`crate::semantics`].  The `fuel`
//! parameter bounds the call depth so that a runaway recursive program
//! fails with [`EvalError::StackOverflow`] instead of exhausting the host
//! stack.

use crate::ast::{
    clone_function, clone_location, clone_term, clone_terms, lemma_terms_view, term_view,
    terms_view, BinaryOp, Function, Location, Term,
};
use crate::errors::{ErrorV, EvalError, TypeContext};
use crate::output::print_value;
use crate::semantics::{
    bind_params, lemma_checked_div_matches, lemma_checked_rem_matches, lemma_eval_stack_len,
    spec_binary, spec_call, spec_eval, spec_eval_args,
};
use crate::stack::{Bindings, Call, CallStack};
use crate::value::{clone_value, values_view, RuntimeValue, ValueV};
use vstd::prelude::*;

verus! {

/// The default call-depth budget of [`evaluate`].
pub const MAX_CALL_DEPTH: u64 = 1000;

/// Applies a binary operator to two runtime values, as
/// [`spec_binary`] says: both must be integers, and an
/// unrepresentable result is an arithmetic failure.
pub fn eval_binary_op(op: BinaryOp, l: RuntimeValue, r: RuntimeValue) -> (res: Result<
    i64,
    EvalError,
>)
    ensures
        match (l@, r@) {
            (ValueV::Int(a), ValueV::Int(b)) => match (res, spec_binary(op, a, b)) {
                (Ok(n), Ok(m)) => n == m,
                (Err(e), Err(m)) => e@ == m,
                _ => false,
            },
            _ => res matches Err(e) && e@ == ErrorV::TypeMismatch(TypeContext::Operand),
        },
{
    let a = match l {
        RuntimeValue::Int(x) => x,
        _ => {
            return Err(EvalError::TypeMismatch(TypeContext::Operand));
        },
    };
    let b = match r {
        RuntimeValue::Int(x) => x,
        _ => {
            return Err(EvalError::TypeMismatch(TypeContext::Operand));
        },
    };
    match op {
        BinaryOp::Add => match a.checked_add(b) {
            Some(n) => Ok(n),
            None => Err(EvalError::ArithmeticError),
        },
        BinaryOp::Sub => match a.checked_sub(b) {
            Some(n) => Ok(n),
            None => Err(EvalError::ArithmeticError),
        },
        BinaryOp::Mul => match a.checked_mul(b) {
            Some(n) => Ok(n),
            None => Err(EvalError::ArithmeticError),
        },
        BinaryOp::Div => {
            if b == 0 {
                Err(EvalError::ArithmeticError)
            } else {
                proof {
                    lemma_checked_div_matches(a, b);
                }
                match a.checked_div(b) {
                    Some(n) => Ok(n),
                    None => Err(EvalError::ArithmeticError),
                }
            }
        },
        BinaryOp::Rem => {
            if b == 0 || (a == i64::MIN && b == -1) {
                Err(EvalError::ArithmeticError)
            } else {
                proof {
                    lemma_checked_rem_matches(a, b);
                }
                match a.checked_rem(b) {
                    Some(n) => Ok(n),
                    None => Err(EvalError::ArithmeticError),
                }
            }
        },
        BinaryOp::Eq => Ok(if a == b { 1 } else { 0 }),
        BinaryOp::Neq => Ok(if a != b { 1 } else { 0 }),
        BinaryOp::Lt => Ok(if a < b { 1 } else { 0 }),
        BinaryOp::Gt => Ok(if a > b { 1 } else { 0 }),
        BinaryOp::Lte => Ok(if a <= b { 1 } else { 0 }),
        BinaryOp::Gte => Ok(if a >= b { 1 } else { 0 }),
        BinaryOp::And => Ok(if a != 0 && b != 0 { 1 } else { 0 }),
        BinaryOp::Or => Ok(if a != 0 || b != 0 { 1 } else { 0 }),
    }
}

/// Evaluates one term against the current call stack.
///
/// The result, the stack afterwards and the characters appended to `out`
/// are exactly what [`spec_eval`] says for the term's image.
#[verifier::rlimit(100)]
pub fn eval(expr: &Term, call_stack: &mut CallStack, out: &mut Vec<char>, fuel: u64) -> (r: Result<
    RuntimeValue,
    EvalError,
>)
    requires
        old(call_stack)@.len() > 0,
    ensures
        ({
            let o = spec_eval(term_view(*expr), old(call_stack)@, fuel as nat);
            &&& final(call_stack)@ == o.stack
            &&& final(out)@ == old(out)@ + o.output
            &&& match r {
                Ok(v) => o.result == Ok::<ValueV, ErrorV>(v@),
                Err(e) => o.result == Err::<ValueV, ErrorV>(e@),
            }
        }),
    decreases fuel, *expr, 0int,
{
    match expr {
        Term::Error(m, l) => {
            proof {
                assert(old(out)@ + Seq::<char>::empty() =~= old(out)@);
            }
            Err(EvalError::EmbeddedParseError(m.clone(), clone_location(l)))
        },
        Term::Int(n, _) => {
            proof {
                assert(old(out)@ + Seq::<char>::empty() =~= old(out)@);
            }
            Ok(RuntimeValue::Int(*n))
        },
        Term::Str(text, _) => {
            proof {
                assert(old(out)@ + Seq::<char>::empty() =~= old(out)@);
            }
            Ok(RuntimeValue::Str(text.clone()))
        },
        Term::Bool(b, _) => {
            proof {
                assert(old(out)@ + Seq::<char>::empty() =~= old(out)@);
            }
            Ok(RuntimeValue::Bool(*b))
        },
        Term::Var(x, _) => {
            proof {
                assert(old(out)@ + Seq::<char>::empty() =~= old(out)@);
            }
            match call_stack.get_var(x) {
                Some(v) => Ok(v),
                None => Err(EvalError::UnboundVariable(x.clone())),
            }
        },
        Term::Function(f) => {
            proof {
                assert(old(out)@ + Seq::<char>::empty() =~= old(out)@);
            }
            Ok(RuntimeValue::Function(clone_function(f)))
        },
        Term::Binary(op, lhs, rhs, _) => {
            let ghost o1 = spec_eval(term_view(**lhs), old(call_stack)@, fuel as nat);
            let v1 = match eval(&**lhs, call_stack, out, fuel) {
                Ok(v) => v,
                Err(e) => {
                    return Err(e);
                },
            };
            proof {
                lemma_eval_stack_len(term_view(**lhs), old(call_stack)@, fuel as nat);
            }
            let ghost o2 = spec_eval(term_view(**rhs), o1.stack, fuel as nat);
            let v2 = match eval(&**rhs, call_stack, out, fuel) {
                Ok(v) => v,
                Err(e) => {
                    proof {
                        assert(old(out)@ + (o1.output + o2.output) =~= (old(out)@ + o1.output)
                            + o2.output);
                    }
                    return Err(e);
                },
            };
            proof {
                assert(old(out)@ + (o1.output + o2.output) =~= (old(out)@ + o1.output)
                    + o2.output);
            }
            match eval_binary_op(*op, v1, v2) {
                Ok(n) => Ok(RuntimeValue::Int(n)),
                Err(e) => Err(e),
            }
        },
        Term::If(cond, then_branch, else_branch, _) => {
            let ghost o1 = spec_eval(term_view(**cond), old(call_stack)@, fuel as nat);
            let cv = match eval(&**cond, call_stack, out, fuel) {
                Ok(v) => v,
                Err(e) => {
                    return Err(e);
                },
            };
            proof {
                lemma_eval_stack_len(term_view(**cond), old(call_stack)@, fuel as nat);
            }
            let taken: bool = match &cv {
                RuntimeValue::Bool(b) => *b,
                RuntimeValue::Int(n) => *n != 0,
                _ => {
                    return Err(EvalError::TypeMismatch(TypeContext::Condition));
                },
            };
            let branch: &Term = if taken {
                &**then_branch
            } else {
                &**else_branch
            };
            let ghost o2 = spec_eval(term_view(*branch), o1.stack, fuel as nat);
            let r = eval(branch, call_stack, out, fuel);
            proof {
                assert(old(out)@ + (o1.output + o2.output) =~= (old(out)@ + o1.output)
                    + o2.output);
            }
            r
        },
        Term::Let(name, value_expr, next_expr, _) => {
            let ghost o1 = spec_eval(term_view(**value_expr), old(call_stack)@, fuel as nat);
            let v = match eval(&**value_expr, call_stack, out, fuel) {
                Ok(v) => v,
                Err(e) => {
                    return Err(e);
                },
            };
            proof {
                lemma_eval_stack_len(term_view(**value_expr), old(call_stack)@, fuel as nat);
            }
            call_stack.set_var(name, v);
            let ghost bound = call_stack@;
            let ghost o2 = spec_eval(term_view(**next_expr), bound, fuel as nat);
            let r = eval(&**next_expr, call_stack, out, fuel);
            proof {
                assert(old(out)@ + (o1.output + o2.output) =~= (old(out)@ + o1.output)
                    + o2.output);
            }
            r
        },
        Term::Call(callee, args, _) => call_fn(&**callee, args, call_stack, out, fuel),
        Term::Print(value_expr, _) => {
            let ghost o1 = spec_eval(term_view(**value_expr), old(call_stack)@, fuel as nat);
            let v = match eval(&**value_expr, call_stack, out, fuel) {
                Ok(v) => v,
                Err(e) => {
                    return Err(e);
                },
            };
            print_value(&v, out);
            proof {
                assert(old(out)@ + (o1.output + crate::output::render(v@)) =~= (old(out)@
                    + o1.output) + crate::output::render(v@));
            }
            Ok(RuntimeValue::Void)
        },
        Term::Tuple(first_expr, second_expr, _) => {
            let ghost o1 = spec_eval(term_view(**first_expr), old(call_stack)@, fuel as nat);
            let v1 = match eval(&**first_expr, call_stack, out, fuel) {
                Ok(v) => v,
                Err(e) => {
                    return Err(e);
                },
            };
            proof {
                lemma_eval_stack_len(term_view(**first_expr), old(call_stack)@, fuel as nat);
            }
            let ghost o2 = spec_eval(term_view(**second_expr), o1.stack, fuel as nat);
            let v2 = match eval(&**second_expr, call_stack, out, fuel) {
                Ok(v) => v,
                Err(e) => {
                    proof {
                        assert(old(out)@ + (o1.output + o2.output) =~= (old(out)@ + o1.output)
                            + o2.output);
                    }
                    return Err(e);
                },
            };
            proof {
                assert(old(out)@ + (o1.output + o2.output) =~= (old(out)@ + o1.output)
                    + o2.output);
            }
            Ok(RuntimeValue::Tuple(Box::new(v1), Box::new(v2)))
        },
        Term::First(tuple_expr, _) => {
            match eval(&**tuple_expr, call_stack, out, fuel) {
                Ok(RuntimeValue::Tuple(a, _)) => Ok(*a),
                Ok(_) => Err(EvalError::TypeMismatch(TypeContext::TupleAccess)),
                Err(e) => Err(e),
            }
        },
        Term::Second(tuple_expr, _) => {
            match eval(&**tuple_expr, call_stack, out, fuel) {
                Ok(RuntimeValue::Tuple(_, b)) => Ok(*b),
                Ok(_) => Err(EvalError::TypeMismatch(TypeContext::TupleAccess)),
                Err(e) => Err(e),
            }
        },
    }
}

/// Evaluates the arguments from position `i` on, left to right, in the
/// caller's stack, appending the values to `vals`; the first failure wins.
fn eval_args(
    args: &Vec<Term>,
    i: usize,
    vals: &mut Vec<RuntimeValue>,
    call_stack: &mut CallStack,
    out: &mut Vec<char>,
    fuel: u64,
) -> (r: Result<(), EvalError>)
    requires
        i <= args@.len(),
        old(call_stack)@.len() > 0,
    ensures
        ({
            let o = spec_eval_args(terms_view(args@).skip(i as int), old(call_stack)@, fuel as nat);
            &&& final(call_stack)@ == o.stack
            &&& final(out)@ == old(out)@ + o.output
            &&& match r {
                Ok(()) => o.result == Ok::<Seq<ValueV>, ErrorV>(
                    values_view(final(vals)@).skip(old(vals)@.len() as int),
                ) && final(vals)@.len() >= old(vals)@.len() && final(vals)@.take(
                    old(vals)@.len() as int,
                ) == old(vals)@,
                Err(e) => o.result == Err::<Seq<ValueV>, ErrorV>(e@),
            }
        }),
    decreases fuel, *args, args@.len() - i + 1,
{
    proof {
        lemma_terms_view(args@);
    }
    if i == args.len() {
        proof {
            assert(terms_view(args@).skip(i as int) =~= Seq::<crate::ast::TermV>::empty());
            assert(old(out)@ + Seq::<char>::empty() =~= old(out)@);
            assert(values_view(vals@).skip(vals@.len() as int) =~= Seq::<ValueV>::empty());
            assert(vals@.take(vals@.len() as int) =~= vals@);
        }
        Ok(())
    } else {
        let ghost rest0 = terms_view(args@).skip(i as int);
        proof {
            assert(rest0.len() > 0);
            assert(rest0.first() == term_view(args@[i as int]));
        }
        let ghost o1 = spec_eval(term_view(args@[i as int]), old(call_stack)@, fuel as nat);
        let v = match eval(&args[i], call_stack, out, fuel) {
            Ok(v) => v,
            Err(e) => {
                return Err(e);
            },
        };
        proof {
            lemma_eval_stack_len(term_view(args@[i as int]), old(call_stack)@, fuel as nat);
        }
        vals.push(v);
        let ghost mid_vals = vals@;
        let ghost o2 = spec_eval_args(rest0.drop_first(), o1.stack, fuel as nat);
        let r = eval_args(args, i + 1, vals, call_stack, out, fuel);
        proof {
            assert(terms_view(args@).skip(i + 1) =~= rest0.drop_first());
            assert(old(out)@ + (o1.output + o2.output) =~= (old(out)@ + o1.output) + o2.output);
        }
        match r {
            Ok(()) => {
                proof {
                    assert(mid_vals.take(old(vals)@.len() as int) =~= old(vals)@);
                    assert(vals@.take(mid_vals.len() as int)[old(vals)@.len() as int] == vals@[old(
                        vals,
                    )@.len() as int]);
                    assert(vals@[old(vals)@.len() as int] == v);
                    assert(values_view(vals@).skip(old(vals)@.len() as int) =~= seq![v@]
                        + values_view(vals@).skip(mid_vals.len() as int));
                    assert(vals@.take(old(vals)@.len() as int) =~= old(vals)@);
                }
                Ok(())
            },
            Err(e) => Err(e),
        }
    }
}

/// Evaluates a call: the callee expression and the unevaluated arguments,
/// as [`spec_call`] says.  A fresh frame binding the callee's parameters to
/// the evaluated arguments is pushed before the body runs and removed again
/// on every exit path, success or failure.
#[verifier::rlimit(100)]
pub fn call_fn(
    callee: &Term,
    arguments: &Vec<Term>,
    call_stack: &mut CallStack,
    out: &mut Vec<char>,
    fuel: u64,
) -> (r: Result<RuntimeValue, EvalError>)
    requires
        old(call_stack)@.len() > 0,
    ensures
        ({
            let o = spec_call(
                term_view(*callee),
                terms_view(arguments@),
                old(call_stack)@,
                fuel as nat,
            );
            &&& final(call_stack)@ == o.stack
            &&& final(out)@ == old(out)@ + o.output
            &&& match r {
                Ok(v) => o.result == Ok::<ValueV, ErrorV>(v@),
                Err(e) => o.result == Err::<ValueV, ErrorV>(e@),
            }
        }),
    decreases fuel, *arguments, arguments@.len() + 2,
{
    proof {
        assert(old(out)@ + Seq::<char>::empty() =~= old(out)@);
    }
    let name = match callee {
        Term::Var(x, _) => x,
        _ => {
            return Err(EvalError::CalleeNotVar);
        },
    };
    let f = match call_stack.get_var(name) {
        None => {
            return Err(EvalError::UnboundVariable(name.clone()));
        },
        Some(RuntimeValue::Function(f)) => f,
        Some(_) => {
            return Err(EvalError::NotCallable(name.clone()));
        },
    };
    let Function { parameters, value, location } = f;
    proof {
        assert(crate::ast::strings_view(parameters@).len() == parameters@.len());
        lemma_terms_view(arguments@);
    }
    if arguments.len() != parameters.len() {
        return Err(EvalError::ArityMismatch(parameters.len(), arguments.len()));
    }
    let mut vals: Vec<RuntimeValue> = Vec::new();
    let ghost ao = spec_eval_args(terms_view(arguments@), old(call_stack)@, fuel as nat);
    proof {
        assert(terms_view(arguments@).skip(0) =~= terms_view(arguments@));
    }
    match eval_args(arguments, 0, &mut vals, call_stack, out, fuel) {
        Ok(()) => {},
        Err(e) => {
            return Err(e);
        },
    }
    proof {
        assert(values_view(vals@).skip(0) =~= values_view(vals@));
        crate::semantics::lemma_eval_args_len(
            terms_view(arguments@),
            old(call_stack)@,
            fuel as nat,
        );
        lemma_terms_view(arguments@);
        assert(vals@.len() == arguments@.len());
        assert(crate::ast::strings_view(parameters@).len() == parameters@.len());
    }
    if fuel == 0 {
        return Err(EvalError::StackOverflow);
    }
    let mut scope = Bindings::new();
    let mut j: usize = 0;
    while j < parameters.len()
        invariant
            j <= parameters@.len(),
            parameters@.len() == vals@.len(),
            scope@ == bind_params(
                crate::ast::strings_view(parameters@).take(j as int),
                values_view(vals@).take(j as int),
            ),
        decreases parameters@.len() - j,
    {
        scope.insert(parameters[j].clone(), clone_value(&vals[j]));
        proof {
            assert(crate::ast::strings_view(parameters@).take(j + 1).drop_last()
                =~= crate::ast::strings_view(parameters@).take(j as int));
            assert(values_view(vals@).take(j + 1).drop_last() =~= values_view(vals@).take(
                j as int,
            ));
        }
        j = j + 1;
    }
    proof {
        assert(crate::ast::strings_view(parameters@).take(parameters@.len() as int)
            =~= crate::ast::strings_view(parameters@));
        assert(values_view(vals@).take(vals@.len() as int) =~= values_view(vals@));
    }
    call_stack.push(
        Call {
            callee: Some(clone_term(callee)),
            arguments: clone_terms(arguments),
            location,
            var_scope: scope,
        },
    );
    let ghost pushed = call_stack@;
    let result = eval(&value, call_stack, out, fuel - 1);
    proof {
        lemma_eval_stack_len(term_view(*value), pushed, (fuel - 1) as nat);
    }
    call_stack.pop();
    proof {
        assert(old(out)@ + (ao.output + spec_eval(
            term_view(*value),
            pushed,
            (fuel - 1) as nat,
        ).output) =~= (old(out)@ + ao.output) + spec_eval(
            term_view(*value),
            pushed,
            (fuel - 1) as nat,
        ).output);
    }
    result
}

/// Runs one program: pushes the root frame, evaluates the AST root against
/// it with the default call-depth budget, and returns the final value or
/// the failure, with everything printed appended to `out`.
pub fn evaluate(expr: &Term, program_name: String, out: &mut Vec<char>) -> (r: Result<
    RuntimeValue,
    EvalError,
>)
    ensures
        ({
            let o = spec_eval(
                term_view(*expr),
                seq![Map::<Seq<char>, ValueV>::empty()],
                MAX_CALL_DEPTH as nat,
            );
            &&& final(out)@ == old(out)@ + o.output
            &&& match r {
                Ok(v) => o.result == Ok::<ValueV, ErrorV>(v@),
                Err(e) => o.result == Err::<ValueV, ErrorV>(e@),
            }
        }),
{
    let mut call_stack = CallStack::new();
    call_stack.push(
        Call {
            callee: None,
            arguments: Vec::new(),
            location: Location { start: 1, end: 1, filename: program_name },
            var_scope: Bindings::new(),
        },
    );
    proof {
        assert(call_stack@ =~= seq![Map::<Seq<char>, ValueV>::empty()]);
    }
    eval(expr, &mut call_stack, out, MAX_CALL_DEPTH)
}

} // verus!
