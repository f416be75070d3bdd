//! The error conditions of evaluation.  Every error aborts the whole run:
//! the language has no catch or resume construct.  Rendering an error as a
//! diagnostic line is the host's business, not the library's.

use crate::ast::{Location, LocationV};
use vstd::prelude::*;

verus! {

/// Which type expectation a [`EvalError::TypeMismatch`] reports.
#[derive(Clone, Copy, Debug, PartialEq, Eq, Structural)]
pub enum TypeContext {
    /// The condition of an `If` was neither a boolean nor an integer.
    Condition,
    /// An operand of a binary operator was not an integer.
    Operand,
    /// `First` or `Second` was applied to something that is not a tuple.
    TupleAccess,
}

/// An evaluation failure.  The carried data is what a diagnostic needs.
#[derive(Debug)]
pub enum EvalError {
    /// No live frame binds the name.
    UnboundVariable(String),
    /// The callee expression of a call is not a bare variable reference.
    CalleeNotVar,
    /// The named variable does not hold a function value.
    NotCallable(String),
    /// A call supplied the wrong argument count: expected, then got.
    ArityMismatch(usize, usize),
    /// An operand, condition or tuple access had the wrong type.
    TypeMismatch(TypeContext),
    /// A parse-time `Error` node was reached during evaluation.
    EmbeddedParseError(String, Location),
    /// Division or remainder by zero, or an integer result the machine
    /// cannot represent.  The source language leaves these cases open;
    /// this library makes them an explicit failure.
    ArithmeticError,
    /// The call-depth guard tripped before the host stack could fault.
    StackOverflow,
}

/// Ghost image of an [`EvalError`].
pub enum ErrorV {
    UnboundVariable(Seq<char>),
    CalleeNotVar,
    NotCallable(Seq<char>),
    ArityMismatch(nat, nat),
    TypeMismatch(TypeContext),
    EmbeddedParseError(Seq<char>, LocationV),
    ArithmeticError,
    StackOverflow,
}

impl View for EvalError {
    type V = ErrorV;

    open spec fn view(&self) -> ErrorV {
        match self {
            EvalError::UnboundVariable(x) => ErrorV::UnboundVariable(x@),
            EvalError::CalleeNotVar => ErrorV::CalleeNotVar,
            EvalError::NotCallable(x) => ErrorV::NotCallable(x@),
            EvalError::ArityMismatch(expected, got) => ErrorV::ArityMismatch(
                *expected as nat,
                *got as nat,
            ),
            EvalError::TypeMismatch(c) => ErrorV::TypeMismatch(*c),
            EvalError::EmbeddedParseError(m, l) => ErrorV::EmbeddedParseError(m@, l@),
            EvalError::ArithmeticError => ErrorV::ArithmeticError,
            EvalError::StackOverflow => ErrorV::StackOverflow,
        }
    }
}

} // verus!
