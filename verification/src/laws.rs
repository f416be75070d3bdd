//! The general laws of the evaluator, stated over the big-step semantics
//! and proved once for every input they speak of.

use crate::ast::{BinaryOp, FunctionV, LocationV, TermV};
use crate::errors::ErrorV;
use crate::semantics::{
    bind_params, lemma_eval_stack_len, spec_call, spec_eval, spec_eval_args, trunc_div, trunc_rem,
    StackV,
};
use crate::value::ValueV;
use vstd::arithmetic::div_mod::{
    lemma_div_is_ordered_by_denominator, lemma_div_nonincreasing, lemma_div_pos_is_pos,
    lemma_fundamental_div_mod_converse,
};
use vstd::math::abs;
use vstd::prelude::*;

verus! {

/// The truncating quotient of two machine integers fits in the machine,
/// except for the one overflowing dividend/divisor pair.
pub proof fn lemma_trunc_div_in_range(a: i64, b: i64)
    requires
        b != 0,
        !(a == i64::MIN && b == -1),
    ensures
        i64::MIN <= trunc_div(a as int, b as int) <= i64::MAX,
{
    let x = a as int;
    let d = b as int;
    let q = (abs(x) / abs(d)) as int;
    lemma_div_pos_is_pos(abs(x) as int, abs(d) as int);
    lemma_div_nonincreasing(abs(x) as int, abs(d) as int);
    if a == i64::MIN && b < 0 {
        lemma_div_is_ordered_by_denominator(abs(x) as int, 2, abs(d) as int);
        lemma_fundamental_div_mod_converse(
            9223372036854775808,
            2,
            4611686018427387904,
            0,
        );
    }
}

/// Dividing one integer literal by another nonzero one yields their
/// truncating quotient, and the matching remainder operator yields the
/// remainder that pairs with it; neither touches the stack or the output.
/// The one pair the machine cannot represent is left out.
pub proof fn lemma_div_rem_of_literals(
    a: i64,
    b: i64,
    s: StackV,
    fuel: nat,
    la: LocationV,
    lb: LocationV,
    lop: LocationV,
)
    requires
        b != 0,
        !(a == i64::MIN && b == -1),
    ensures
        ({
            let t = TermV::Binary(
                BinaryOp::Div,
                Box::new(TermV::Int(a, la)),
                Box::new(TermV::Int(b, lb)),
                lop,
            );
            &&& spec_eval(t, s, fuel).result == Ok::<ValueV, ErrorV>(
                ValueV::Int(trunc_div(a as int, b as int) as i64),
            )
            &&& spec_eval(t, s, fuel).stack == s
            &&& spec_eval(t, s, fuel).output == Seq::<char>::empty()
        }),
        ({
            let t = TermV::Binary(
                BinaryOp::Rem,
                Box::new(TermV::Int(a, la)),
                Box::new(TermV::Int(b, lb)),
                lop,
            );
            &&& spec_eval(t, s, fuel).result == Ok::<ValueV, ErrorV>(
                ValueV::Int(trunc_rem(a as int, b as int) as i64),
            )
            &&& spec_eval(t, s, fuel).stack == s
            &&& spec_eval(t, s, fuel).output == Seq::<char>::empty()
        }),
{
    lemma_trunc_div_in_range(a, b);
    crate::semantics::lemma_checked_rem_matches(a, b);
    let oa = spec_eval(TermV::Int(a, la), s, fuel);
    assert(oa.result == Ok::<ValueV, ErrorV>(ValueV::Int(a)) && oa.stack == s && oa.output
        == Seq::<char>::empty());
    let ob = spec_eval(TermV::Int(b, lb), s, fuel);
    assert(ob.result == Ok::<ValueV, ErrorV>(ValueV::Int(b)) && ob.stack == s && ob.output
        == Seq::<char>::empty());
    assert(Seq::<char>::empty() + Seq::<char>::empty() =~= Seq::<char>::empty());
}

/// Binding a name to an expression's value and then reading the name back
/// returns exactly that value.
pub proof fn lemma_let_returns_bound_value(
    name: Seq<char>,
    value_expr: TermV,
    s: StackV,
    fuel: nat,
    lv: LocationV,
    ll: LocationV,
)
    requires
        s.len() > 0,
        spec_eval(value_expr, s, fuel).result is Ok,
    ensures
        spec_eval(
            TermV::Let(name, Box::new(value_expr), Box::new(TermV::Var(name, lv)), ll),
            s,
            fuel,
        ).result == spec_eval(value_expr, s, fuel).result,
{
    let o1 = spec_eval(value_expr, s, fuel);
    lemma_eval_stack_len(value_expr, s, fuel);
    let v = o1.result->Ok_0;
    let bound = o1.stack.update(o1.stack.len() - 1, o1.stack.last().insert(name, v));
    assert(bound.last() == o1.stack.last().insert(name, v));
    assert(crate::stack::stack_lookup(bound, name) == Some(v));
    assert(spec_eval(TermV::Var(name, lv), bound, fuel).result == Ok::<ValueV, ErrorV>(v));
}

/// The value the dynamic-scoping rule finds: if some live frame binds the
/// name and no more recent frame does, the lookup returns that frame's
/// binding — a called function body can observe a variable bound by an
/// ancestor frame that is still on the stack.
pub proof fn lemma_ancestor_binding_visible(
    s: StackV,
    i: int,
    name: Seq<char>,
    fuel: nat,
    lv: LocationV,
)
    requires
        0 <= i < s.len(),
        s[i].contains_key(name),
        forall|j: int| i < j < s.len() ==> !(#[trigger] s[j]).contains_key(name),
    ensures
        spec_eval(TermV::Var(name, lv), s, fuel).result == Ok::<ValueV, ErrorV>(s[i][name]),
    decreases s.len(),
{
    if i == s.len() - 1 {
        assert(s.last() == s[i]);
    } else {
        assert(!s.last().contains_key(name));
        lemma_ancestor_binding_visible(s.drop_last(), i, name, fuel, lv);
        assert(s.drop_last()[i] == s[i]);
        assert(crate::stack::stack_lookup(s, name) == crate::stack::stack_lookup(
            s.drop_last(),
            name,
        ));
    }
}

/// A name no live frame binds — for instance one bound only in a sibling
/// call whose frame has already been popped — fails as unbound.
pub proof fn lemma_unbound_variable(s: StackV, name: Seq<char>, fuel: nat, lv: LocationV)
    requires
        forall|j: int| 0 <= j < s.len() ==> !(#[trigger] s[j]).contains_key(name),
    ensures
        spec_eval(TermV::Var(name, lv), s, fuel).result == Err::<ValueV, ErrorV>(
            ErrorV::UnboundVariable(name),
        ),
    decreases s.len(),
{
    if s.len() > 0 {
        lemma_unbound_variable(s.drop_last(), name, fuel, lv);
        assert(spec_eval(TermV::Var(name, lv), s.drop_last(), fuel).result == Err::<
            ValueV,
            ErrorV,
        >(ErrorV::UnboundVariable(name)));
    }
}

/// Calling a function with the wrong number of arguments fails with the
/// arity mismatch, before any argument is evaluated and without touching
/// the stack or the output.
pub proof fn lemma_call_arity_mismatch(
    name: Seq<char>,
    f: FunctionV,
    args: Seq<TermV>,
    s: StackV,
    fuel: nat,
    lv: LocationV,
    lc: LocationV,
)
    requires
        crate::stack::stack_lookup(s, name) == Some(ValueV::Function(f)),
        args.len() != f.parameters.len(),
    ensures
        ({
            let t = TermV::Call(Box::new(TermV::Var(name, lv)), args, lc);
            &&& spec_eval(t, s, fuel).result == Err::<ValueV, ErrorV>(
                ErrorV::ArityMismatch(f.parameters.len(), args.len()),
            )
            &&& spec_eval(t, s, fuel).stack == s
            &&& spec_eval(t, s, fuel).output == Seq::<char>::empty()
        }),
{
    let t = TermV::Call(Box::new(TermV::Var(name, lv)), args, lc);
    assert(spec_eval(t, s, fuel) == spec_call(TermV::Var(name, lv), args, s, fuel));
}

/// Calling a function with exactly as many arguments as parameters, when
/// the arguments themselves evaluate, reaches the body: the call's result
/// is the body's result, evaluated in a fresh frame that binds each
/// parameter to its evaluated argument, and that frame is gone afterwards.
pub proof fn lemma_call_arity_match(
    name: Seq<char>,
    f: FunctionV,
    args: Seq<TermV>,
    s: StackV,
    fuel: nat,
    lv: LocationV,
    lc: LocationV,
)
    requires
        crate::stack::stack_lookup(s, name) == Some(ValueV::Function(f)),
        args.len() == f.parameters.len(),
        spec_eval_args(args, s, fuel).result is Ok,
        fuel > 0,
    ensures
        ({
            let t = TermV::Call(Box::new(TermV::Var(name, lv)), args, lc);
            let ao = spec_eval_args(args, s, fuel);
            let bo = spec_eval(
                *f.value,
                ao.stack.push(bind_params(f.parameters, ao.result->Ok_0)),
                (fuel - 1) as nat,
            );
            &&& spec_eval(t, s, fuel).result == bo.result
            &&& spec_eval(t, s, fuel).stack == bo.stack.drop_last()
            &&& spec_eval(t, s, fuel).output == ao.output + bo.output
        }),
{
    let t = TermV::Call(Box::new(TermV::Var(name, lv)), args, lc);
    assert(spec_eval(t, s, fuel) == spec_call(TermV::Var(name, lv), args, s, fuel));
}

/// An integer condition branches on being nonzero: a nonzero condition
/// makes the conditional behave exactly like its `then` branch, a zero
/// condition exactly like its `otherwise` branch.
pub proof fn lemma_if_on_int(
    n: i64,
    then_branch: TermV,
    else_branch: TermV,
    s: StackV,
    fuel: nat,
    ln: LocationV,
    li: LocationV,
)
    ensures
        n != 0 ==> spec_eval(
            TermV::If(
                Box::new(TermV::Int(n, ln)),
                Box::new(then_branch),
                Box::new(else_branch),
                li,
            ),
            s,
            fuel,
        ) == spec_eval(then_branch, s, fuel),
        n == 0 ==> spec_eval(
            TermV::If(
                Box::new(TermV::Int(n, ln)),
                Box::new(then_branch),
                Box::new(else_branch),
                li,
            ),
            s,
            fuel,
        ) == spec_eval(else_branch, s, fuel),
{
    let on = spec_eval(TermV::Int(n, ln), s, fuel);
    assert(on.result == Ok::<ValueV, ErrorV>(ValueV::Int(n)) && on.stack == s && on.output
        == Seq::<char>::empty());
    let taken = if n != 0 {
        then_branch
    } else {
        else_branch
    };
    let o2 = spec_eval(taken, s, fuel);
    assert(Seq::<char>::empty() + o2.output =~= o2.output);
}

/// Projecting a component out of a freshly built tuple returns the value
/// the matching component expression evaluated to.
pub proof fn lemma_tuple_projections(
    first_expr: TermV,
    second_expr: TermV,
    s: StackV,
    fuel: nat,
    lt: LocationV,
    lp: LocationV,
)
    requires
        spec_eval(first_expr, s, fuel).result is Ok,
        spec_eval(second_expr, spec_eval(first_expr, s, fuel).stack, fuel).result is Ok,
    ensures
        ({
            let tuple = TermV::Tuple(Box::new(first_expr), Box::new(second_expr), lt);
            let o1 = spec_eval(first_expr, s, fuel);
            let o2 = spec_eval(second_expr, o1.stack, fuel);
            &&& spec_eval(TermV::First(Box::new(tuple), lp), s, fuel).result == Ok::<
                ValueV,
                ErrorV,
            >(o1.result->Ok_0)
            &&& spec_eval(TermV::Second(Box::new(tuple), lp), s, fuel).result == Ok::<
                ValueV,
                ErrorV,
            >(o2.result->Ok_0)
        }),
{
    let tuple = TermV::Tuple(Box::new(first_expr), Box::new(second_expr), lt);
    let o1 = spec_eval(first_expr, s, fuel);
    let o2 = spec_eval(second_expr, o1.stack, fuel);
    let ot = spec_eval(tuple, s, fuel);
    assert(ot.result == Ok::<ValueV, ErrorV>(
        ValueV::Tuple(Box::new(o1.result->Ok_0), Box::new(o2.result->Ok_0)),
    ));
}

} // verus!
