//! The runtime values an evaluation step may produce.  Values are immutable
//! once produced; a `Function` value is a plain copy of the function literal
//! and captures no environment.

use crate::ast::{clone_function, Function, FunctionV};
use vstd::prelude::*;

verus! {

/// A runtime value.
#[derive(Debug)]
pub enum RuntimeValue {
    /// An integer.
    Int(i64),
    /// A string.
    Str(String),
    /// A boolean.
    Bool(bool),
    /// An ordered pair of values.
    Tuple(Box<RuntimeValue>, Box<RuntimeValue>),
    /// A function: parameters and an unevaluated body, no captured
    /// environment.
    Function(Function),
    /// The result of `Print` and of nothing else.
    Void,
}

/// Ghost image of a [`RuntimeValue`].
pub enum ValueV {
    Int(i64),
    Str(Seq<char>),
    Bool(bool),
    Tuple(Box<ValueV>, Box<ValueV>),
    Function(FunctionV),
    Void,
}

/// The image of one runtime value.
pub open spec fn value_view(v: RuntimeValue) -> ValueV
    decreases v,
{
    match v {
        RuntimeValue::Int(n) => ValueV::Int(n),
        RuntimeValue::Str(s) => ValueV::Str(s@),
        RuntimeValue::Bool(b) => ValueV::Bool(b),
        RuntimeValue::Tuple(a, b) => ValueV::Tuple(
            Box::new(value_view(*a)),
            Box::new(value_view(*b)),
        ),
        RuntimeValue::Function(f) => ValueV::Function(f@),
        RuntimeValue::Void => ValueV::Void,
    }
}

impl View for RuntimeValue {
    type V = ValueV;

    open spec fn view(&self) -> ValueV {
        value_view(*self)
    }
}

/// Copies a runtime value; the copy has the same image.
pub fn clone_value(v: &RuntimeValue) -> (r: RuntimeValue)
    ensures
        r@ == v@,
    decreases *v,
{
    match v {
        RuntimeValue::Int(n) => RuntimeValue::Int(*n),
        RuntimeValue::Str(s) => RuntimeValue::Str(s.clone()),
        RuntimeValue::Bool(b) => RuntimeValue::Bool(*b),
        RuntimeValue::Tuple(a, b) => RuntimeValue::Tuple(
            Box::new(clone_value(a)),
            Box::new(clone_value(b)),
        ),
        RuntimeValue::Function(f) => RuntimeValue::Function(clone_function(f)),
        RuntimeValue::Void => RuntimeValue::Void,
    }
}

/// The image of a sequence of runtime values, elementwise.
pub open spec fn values_view(s: Seq<RuntimeValue>) -> Seq<ValueV> {
    s.map_values(|v: RuntimeValue| value_view(v))
}

} // verus!
