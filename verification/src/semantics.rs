//! The meaning of a program, as mathematics: a big-step evaluation function
//! over the ghost images of terms, values and the call stack.
//!
//! `spec_eval` says, for one term, a stack of binding frames and a
//! call-depth budget, which result comes out, how the stack looks
//! afterwards, and which characters are written.  Every contract of the
//! executable evaluator is stated against it.

use crate::ast::{BinaryOp, TermV};
use crate::errors::{ErrorV, TypeContext};
use crate::output::render;
use crate::stack::stack_lookup;
use crate::value::ValueV;
use vstd::arithmetic::div_mod::{lemma_div_basics, lemma_mod_bound, lemma_small_mod};
use vstd::math::abs;
use vstd::prelude::*;

verus! {

/// The stack image: one binding map per live frame, root first.
pub type StackV = Seq<Map<Seq<char>, ValueV>>;

/// What evaluating one term yields: a result, the stack afterwards, and
/// the characters written along the way.
pub struct Outcome {
    pub result: Result<ValueV, ErrorV>,
    pub stack: StackV,
    pub output: Seq<char>,
}

/// What evaluating an argument list yields: the argument values in order,
/// or the first failure.
pub struct ArgsOutcome {
    pub result: Result<Seq<ValueV>, ErrorV>,
    pub stack: StackV,
    pub output: Seq<char>,
}

/// Integer division that truncates toward zero, as the machine divides.
pub open spec fn trunc_div(a: int, b: int) -> int
    recommends
        b != 0,
{
    let q = (abs(a) / abs(b)) as int;
    if (a < 0) != (b < 0) {
        -q
    } else {
        q
    }
}

/// The remainder that pairs with [`trunc_div`]: it takes the sign of the
/// dividend.
pub open spec fn trunc_rem(a: int, b: int) -> int
    recommends
        b != 0,
{
    let m = (abs(a) % abs(b)) as int;
    if a < 0 {
        -m
    } else {
        m
    }
}

/// What a binary operator yields on two integers.  Comparison and logic
/// operators yield `1` or `0`; the logic operators read nonzero as true and
/// always see both operands, since evaluation happened before dispatch.
/// A quotient or remainder with divisor zero, and any result the machine
/// cannot represent, is an arithmetic failure.
pub open spec fn spec_binary(op: BinaryOp, l: i64, r: i64) -> Result<i64, ErrorV> {
    match op {
        BinaryOp::Add => clamp_result(l + r),
        BinaryOp::Sub => clamp_result(l - r),
        BinaryOp::Mul => clamp_result(l * r),
        BinaryOp::Div => if r == 0 {
            Err(ErrorV::ArithmeticError)
        } else {
            clamp_result(trunc_div(l as int, r as int))
        },
        BinaryOp::Rem => if r == 0 || (l == i64::MIN && r == -1) {
            Err(ErrorV::ArithmeticError)
        } else {
            clamp_result(trunc_rem(l as int, r as int))
        },
        BinaryOp::Eq => Ok(if l == r { 1 } else { 0 }),
        BinaryOp::Neq => Ok(if l != r { 1 } else { 0 }),
        BinaryOp::Lt => Ok(if l < r { 1 } else { 0 }),
        BinaryOp::Gt => Ok(if l > r { 1 } else { 0 }),
        BinaryOp::Lte => Ok(if l <= r { 1 } else { 0 }),
        BinaryOp::Gte => Ok(if l >= r { 1 } else { 0 }),
        BinaryOp::And => Ok(if l != 0 && r != 0 { 1 } else { 0 }),
        BinaryOp::Or => Ok(if l != 0 || r != 0 { 1 } else { 0 }),
    }
}

/// A mathematical result if the machine can hold it, else the arithmetic
/// failure.
pub open spec fn clamp_result(n: int) -> Result<i64, ErrorV> {
    if i64::MIN <= n <= i64::MAX {
        Ok(n as i64)
    } else {
        Err(ErrorV::ArithmeticError)
    }
}

/// The frame a call pushes: each parameter bound to its evaluated argument,
/// in order, a later duplicate parameter overriding an earlier one.
pub open spec fn bind_params(params: Seq<Seq<char>>, vals: Seq<ValueV>) -> Map<Seq<char>, ValueV>
    recommends
        params.len() == vals.len(),
    decreases params,
{
    if params.len() == 0 {
        Map::empty()
    } else {
        bind_params(params.drop_last(), vals.drop_last()).insert(params.last(), vals.last())
    }
}

/// An outcome that yields `r` and touches nothing.
pub open spec fn pure_outcome(r: Result<ValueV, ErrorV>, s: StackV) -> Outcome {
    Outcome { result: r, stack: s, output: Seq::empty() }
}

/// Big-step evaluation of one term.
///
/// `fuel` bounds the call depth alone: recursing into a called function's
/// body spends one unit, walking into subterms spends none, and a call at
/// exhausted fuel fails with the stack-overflow error.
pub open spec fn spec_eval(t: TermV, s: StackV, fuel: nat) -> Outcome
    decreases fuel, t, 0int,
{
    match t {
        TermV::Int(n, _) => pure_outcome(Ok(ValueV::Int(n)), s),
        TermV::Str(text, _) => pure_outcome(Ok(ValueV::Str(text)), s),
        TermV::Bool(b, _) => pure_outcome(Ok(ValueV::Bool(b)), s),
        TermV::Var(name, _) => match stack_lookup(s, name) {
            Some(v) => pure_outcome(Ok(v), s),
            None => pure_outcome(Err(ErrorV::UnboundVariable(name)), s),
        },
        TermV::Binary(op, lhs, rhs, _) => {
            let o1 = spec_eval(*lhs, s, fuel);
            match o1.result {
                Err(e) => o1,
                Ok(v1) => {
                    let o2 = spec_eval(*rhs, o1.stack, fuel);
                    let written = o1.output + o2.output;
                    match o2.result {
                        Err(e) => Outcome { result: Err(e), stack: o2.stack, output: written },
                        Ok(v2) => {
                            let r = match (v1, v2) {
                                (ValueV::Int(a), ValueV::Int(b)) => match spec_binary(op, a, b) {
                                    Ok(n) => Ok(ValueV::Int(n)),
                                    Err(e) => Err(e),
                                },
                                _ => Err(ErrorV::TypeMismatch(TypeContext::Operand)),
                            };
                            Outcome { result: r, stack: o2.stack, output: written }
                        },
                    }
                },
            }
        },
        TermV::If(cond, then_branch, else_branch, _) => {
            let o1 = spec_eval(*cond, s, fuel);
            match o1.result {
                Err(e) => o1,
                Ok(v) => {
                    let taken = match v {
                        ValueV::Bool(b) => Some(b),
                        ValueV::Int(n) => Some(n != 0),
                        _ => None,
                    };
                    match taken {
                        None => Outcome {
                            result: Err(ErrorV::TypeMismatch(TypeContext::Condition)),
                            stack: o1.stack,
                            output: o1.output,
                        },
                        Some(b) => {
                            let o2 = spec_eval(
                                if b {
                                    *then_branch
                                } else {
                                    *else_branch
                                },
                                o1.stack,
                                fuel,
                            );
                            Outcome {
                                result: o2.result,
                                stack: o2.stack,
                                output: o1.output + o2.output,
                            }
                        },
                    }
                },
            }
        },
        TermV::Let(name, value_expr, next_expr, _) => {
            let o1 = spec_eval(*value_expr, s, fuel);
            match o1.result {
                Err(e) => o1,
                Ok(v) => {
                    let bound = o1.stack.update(
                        o1.stack.len() - 1,
                        o1.stack.last().insert(name, v),
                    );
                    let o2 = spec_eval(*next_expr, bound, fuel);
                    Outcome { result: o2.result, stack: o2.stack, output: o1.output + o2.output }
                },
            }
        },
        TermV::Function(f) => pure_outcome(Ok(ValueV::Function(f)), s),
        TermV::Call(callee, args, _) => spec_call(*callee, args, s, fuel),
        TermV::Print(value_expr, _) => {
            let o1 = spec_eval(*value_expr, s, fuel);
            match o1.result {
                Err(e) => o1,
                Ok(v) => Outcome {
                    result: Ok(ValueV::Void),
                    stack: o1.stack,
                    output: o1.output + render(v),
                },
            }
        },
        TermV::Tuple(first_expr, second_expr, _) => {
            let o1 = spec_eval(*first_expr, s, fuel);
            match o1.result {
                Err(e) => o1,
                Ok(v1) => {
                    let o2 = spec_eval(*second_expr, o1.stack, fuel);
                    let written = o1.output + o2.output;
                    match o2.result {
                        Err(e) => Outcome { result: Err(e), stack: o2.stack, output: written },
                        Ok(v2) => Outcome {
                            result: Ok(ValueV::Tuple(Box::new(v1), Box::new(v2))),
                            stack: o2.stack,
                            output: written,
                        },
                    }
                },
            }
        },
        TermV::First(tuple_expr, _) => {
            let o1 = spec_eval(*tuple_expr, s, fuel);
            match o1.result {
                Err(e) => o1,
                Ok(v) => {
                    let r = match v {
                        ValueV::Tuple(a, _) => Ok(*a),
                        _ => Err(ErrorV::TypeMismatch(TypeContext::TupleAccess)),
                    };
                    Outcome { result: r, stack: o1.stack, output: o1.output }
                },
            }
        },
        TermV::Second(tuple_expr, _) => {
            let o1 = spec_eval(*tuple_expr, s, fuel);
            match o1.result {
                Err(e) => o1,
                Ok(v) => {
                    let r = match v {
                        ValueV::Tuple(_, b) => Ok(*b),
                        _ => Err(ErrorV::TypeMismatch(TypeContext::TupleAccess)),
                    };
                    Outcome { result: r, stack: o1.stack, output: o1.output }
                },
            }
        },
        TermV::Error(message, location) => pure_outcome(
            Err(ErrorV::EmbeddedParseError(message, location)),
            s,
        ),
    }
}

/// Big-step evaluation of a call, given the callee expression and the
/// unevaluated arguments.  The callee must be a bare variable reference
/// that resolves to a function value; the argument count must equal the
/// parameter count; the arguments are then evaluated left to right in the
/// caller's stack; a fresh frame binding the parameters is pushed, the body
/// is evaluated against the extended stack with one unit of fuel spent, and
/// the frame is removed again whether the body succeeded or failed.
pub open spec fn spec_call(callee: TermV, args: Seq<TermV>, s: StackV, fuel: nat) -> Outcome
    decreases fuel, args, 2int,
{
    match callee {
        TermV::Var(name, _) => match stack_lookup(s, name) {
            None => pure_outcome(Err(ErrorV::UnboundVariable(name)), s),
            Some(ValueV::Function(f)) => {
                if args.len() != f.parameters.len() {
                    pure_outcome(Err(ErrorV::ArityMismatch(f.parameters.len(), args.len())), s)
                } else {
                    let ao = spec_eval_args(args, s, fuel);
                    match ao.result {
                        Err(e) => Outcome { result: Err(e), stack: ao.stack, output: ao.output },
                        Ok(vals) => {
                            if fuel == 0 {
                                Outcome {
                                    result: Err(ErrorV::StackOverflow),
                                    stack: ao.stack,
                                    output: ao.output,
                                }
                            } else {
                                let frame = bind_params(f.parameters, vals);
                                let bo = spec_eval(*f.value, ao.stack.push(frame), (fuel - 1) as nat);
                                Outcome {
                                    result: bo.result,
                                    stack: bo.stack.drop_last(),
                                    output: ao.output + bo.output,
                                }
                            }
                        },
                    }
                }
            },
            Some(_) => pure_outcome(Err(ErrorV::NotCallable(name)), s),
        },
        _ => pure_outcome(Err(ErrorV::CalleeNotVar), s),
    }
}

/// Big-step evaluation of an argument list, left to right, in the caller's
/// stack; the first failure wins.
pub open spec fn spec_eval_args(args: Seq<TermV>, s: StackV, fuel: nat) -> ArgsOutcome
    decreases fuel, args, 1int,
{
    if args.len() == 0 {
        ArgsOutcome { result: Ok(Seq::empty()), stack: s, output: Seq::empty() }
    } else {
        let o1 = spec_eval(args.first(), s, fuel);
        match o1.result {
            Err(e) => ArgsOutcome { result: Err(e), stack: o1.stack, output: o1.output },
            Ok(v) => {
                let rest = spec_eval_args(args.drop_first(), o1.stack, fuel);
                ArgsOutcome {
                    result: match rest.result {
                        Ok(vs) => Ok(seq![v] + vs),
                        Err(e) => Err(e),
                    },
                    stack: rest.stack,
                    output: o1.output + rest.output,
                }
            },
        }
    }
}

/// Evaluation never leaks or loses a frame: the stack afterwards has as
/// many frames as before, whether the term succeeded or failed.
pub proof fn lemma_eval_stack_len(t: TermV, s: StackV, fuel: nat)
    requires
        s.len() > 0,
    ensures
        spec_eval(t, s, fuel).stack.len() == s.len(),
    decreases fuel, t, 0int,
{
    match t {
        TermV::Binary(op, lhs, rhs, _) => {
            lemma_eval_stack_len(*lhs, s, fuel);
            let o1 = spec_eval(*lhs, s, fuel);
            if o1.result is Ok {
                lemma_eval_stack_len(*rhs, o1.stack, fuel);
            }
        },
        TermV::If(cond, then_branch, else_branch, _) => {
            lemma_eval_stack_len(*cond, s, fuel);
            let o1 = spec_eval(*cond, s, fuel);
            if o1.result is Ok {
                lemma_eval_stack_len(*then_branch, o1.stack, fuel);
                lemma_eval_stack_len(*else_branch, o1.stack, fuel);
            }
        },
        TermV::Let(name, value_expr, next_expr, _) => {
            lemma_eval_stack_len(*value_expr, s, fuel);
            let o1 = spec_eval(*value_expr, s, fuel);
            if o1.result is Ok {
                let v = o1.result->Ok_0;
                let bound = o1.stack.update(o1.stack.len() - 1, o1.stack.last().insert(name, v));
                lemma_eval_stack_len(*next_expr, bound, fuel);
            }
        },
        TermV::Call(callee, args, _) => {
            if let TermV::Var(name, _) = *callee {
                if let Some(ValueV::Function(f)) = stack_lookup(s, name) {
                    if args.len() == f.parameters.len() {
                        lemma_eval_args_stack_len(args, s, fuel);
                        let ao = spec_eval_args(args, s, fuel);
                        if ao.result is Ok && fuel > 0 {
                            let frame = bind_params(f.parameters, ao.result->Ok_0);
                            lemma_eval_stack_len(*f.value, ao.stack.push(frame), (fuel - 1) as nat);
                        }
                    }
                }
            }
            assert(spec_eval(t, s, fuel) == spec_call(*callee, args, s, fuel));
        },
        TermV::Print(value_expr, _) => {
            lemma_eval_stack_len(*value_expr, s, fuel);
        },
        TermV::Tuple(first_expr, second_expr, _) => {
            lemma_eval_stack_len(*first_expr, s, fuel);
            let o1 = spec_eval(*first_expr, s, fuel);
            if o1.result is Ok {
                lemma_eval_stack_len(*second_expr, o1.stack, fuel);
            }
        },
        TermV::First(tuple_expr, _) => {
            lemma_eval_stack_len(*tuple_expr, s, fuel);
        },
        TermV::Second(tuple_expr, _) => {
            lemma_eval_stack_len(*tuple_expr, s, fuel);
        },
        _ => {
        },
    }
}

/// Argument evaluation keeps the frame count as well.
pub proof fn lemma_eval_args_stack_len(args: Seq<TermV>, s: StackV, fuel: nat)
    requires
        s.len() > 0,
    ensures
        spec_eval_args(args, s, fuel).stack.len() == s.len(),
    decreases fuel, args, 1int,
{
    if args.len() > 0 {
        lemma_eval_stack_len(args.first(), s, fuel);
        let o1 = spec_eval(args.first(), s, fuel);
        if o1.result is Ok {
            lemma_eval_args_stack_len(args.drop_first(), o1.stack, fuel);
        }
    }
}

/// The machine's checked division computes exactly the truncating quotient
/// of the model, failing exactly where the model cannot be represented.
pub proof fn lemma_checked_div_matches(a: i64, b: i64)
    requires
        b != 0,
    ensures
        a.checked_div(b) == (match clamp_result(trunc_div(a as int, b as int)) {
            Ok(n) => Some(n),
            Err(_) => None::<i64>,
        }),
{
    let x = a as int;
    let d = b as int;
    assert(abs(d) > 0);
    if x == 0 {
        lemma_div_basics(abs(d) as int);
        assert(trunc_div(x, d) == 0);
    }
}

/// The machine's checked remainder computes exactly the model remainder,
/// which always fits, once divisor zero and the one overflowing dividend
/// are ruled out.
pub proof fn lemma_checked_rem_matches(a: i64, b: i64)
    requires
        b != 0,
        !(a == i64::MIN && b == -1),
    ensures
        i64::MIN <= trunc_rem(a as int, b as int) <= i64::MAX,
        a.checked_rem(b) == Some(trunc_rem(a as int, b as int) as i64),
{
    let x = a as int;
    let d = b as int;
    assert(abs(d) > 0);
    lemma_mod_bound(abs(x) as int, abs(d) as int);
    if x == 0 {
        lemma_small_mod(0nat, abs(d));
        assert(trunc_rem(x, d) == 0);
    }
}

/// A successful argument evaluation yields exactly one value per argument.
pub proof fn lemma_eval_args_len(args: Seq<TermV>, s: StackV, fuel: nat)
    requires
        spec_eval_args(args, s, fuel).result is Ok,
    ensures
        spec_eval_args(args, s, fuel).result->Ok_0.len() == args.len(),
    decreases args.len(),
{
    if args.len() > 0 {
        let o1 = spec_eval(args.first(), s, fuel);
        if o1.result is Ok {
            lemma_eval_args_len(args.drop_first(), o1.stack, fuel);
        }
    }
}

} // verus!
