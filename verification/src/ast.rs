//! The abstract syntax tree of the language: pure data, produced by an
//! external parser, immutable during evaluation.
//!
//! Each executable type has a ghost image (`LocationV`, `TermV`, `FunctionV`)
//! over mathematical values (`nat`, `Seq`), reached through `View`; every
//! contract in the crate speaks of those images.

use vstd::prelude::*;

verus! {

/// Source-location metadata carried by every AST node: a byte span and the
/// name of the file the node came from.  It only feeds diagnostics and never
/// influences evaluation.
#[derive(Debug)]
pub struct Location {
    pub start: usize,
    pub end: usize,
    pub filename: String,
}

/// Ghost image of a [`Location`].
pub struct LocationV {
    pub start: nat,
    pub end: nat,
    pub filename: Seq<char>,
}

impl View for Location {
    type V = LocationV;

    open spec fn view(&self) -> LocationV {
        LocationV { start: self.start as nat, end: self.end as nat, filename: self.filename@ }
    }
}

/// The binary operators of the language.  All of them work on integers;
/// the comparison and logic operators yield the integers `1` and `0`.
#[derive(Clone, Copy, Debug, PartialEq, Eq, Structural)]
pub enum BinaryOp {
    Add,
    Sub,
    Mul,
    Div,
    Rem,
    Eq,
    Neq,
    Lt,
    Gt,
    Lte,
    Gte,
    And,
    Or,
}

/// A function literal: an ordered parameter list and an unevaluated body.
/// No environment is captured; see the crate documentation on scoping.
#[derive(Debug)]
pub struct Function {
    pub parameters: Vec<String>,
    pub value: Box<Term>,
    pub location: Location,
}

/// One node of the expression grammar.  The set of variants is closed; the
/// evaluator is total over it.
#[derive(Debug)]
pub enum Term {
    /// An integer literal.
    Int(i64, Location),
    /// A string literal.
    Str(String, Location),
    /// A boolean literal.
    Bool(bool, Location),
    /// A variable reference, resolved against the live call stack.
    Var(String, Location),
    /// An integer operation over two eagerly evaluated operands.
    Binary(BinaryOp, Box<Term>, Box<Term>, Location),
    /// A conditional; an integer condition is taken as true when nonzero.
    If(Box<Term>, Box<Term>, Box<Term>, Location),
    /// `Let(name, value, next)`: evaluate `value`, bind it in the current
    /// frame, then evaluate `next`.  Sequencing, not a new scope.
    Let(String, Box<Term>, Box<Term>, Location),
    /// A function literal.
    Function(Function),
    /// A call: the callee expression and the unevaluated arguments.
    Call(Box<Term>, Vec<Term>, Location),
    /// Evaluate and write the value's textual form to the output stream.
    Print(Box<Term>, Location),
    /// A pair of two expressions.
    Tuple(Box<Term>, Box<Term>, Location),
    /// The first component of a tuple.
    First(Box<Term>, Location),
    /// The second component of a tuple.
    Second(Box<Term>, Location),
    /// A parse-time error embedded in the tree; evaluating it always fails.
    Error(String, Location),
}

/// Ghost image of a [`Function`].
pub struct FunctionV {
    pub parameters: Seq<Seq<char>>,
    pub value: Box<TermV>,
    pub location: LocationV,
}

/// Ghost image of a [`Term`].
pub enum TermV {
    Int(i64, LocationV),
    Str(Seq<char>, LocationV),
    Bool(bool, LocationV),
    Var(Seq<char>, LocationV),
    Binary(BinaryOp, Box<TermV>, Box<TermV>, LocationV),
    If(Box<TermV>, Box<TermV>, Box<TermV>, LocationV),
    Let(Seq<char>, Box<TermV>, Box<TermV>, LocationV),
    Function(FunctionV),
    Call(Box<TermV>, Seq<TermV>, LocationV),
    Print(Box<TermV>, LocationV),
    Tuple(Box<TermV>, Box<TermV>, LocationV),
    First(Box<TermV>, LocationV),
    Second(Box<TermV>, LocationV),
    Error(Seq<char>, LocationV),
}

/// The image of a sequence of parameter names.
pub open spec fn strings_view(s: Seq<String>) -> Seq<Seq<char>> {
    s.map_values(|x: String| x@)
}

/// The image of one term.
pub open spec fn term_view(t: Term) -> TermV
    decreases t,
{
    match t {
        Term::Int(n, l) => TermV::Int(n, l@),
        Term::Str(s, l) => TermV::Str(s@, l@),
        Term::Bool(b, l) => TermV::Bool(b, l@),
        Term::Var(x, l) => TermV::Var(x@, l@),
        Term::Binary(op, lhs, rhs, l) => TermV::Binary(
            op,
            Box::new(term_view(*lhs)),
            Box::new(term_view(*rhs)),
            l@,
        ),
        Term::If(c, t1, t2, l) => TermV::If(
            Box::new(term_view(*c)),
            Box::new(term_view(*t1)),
            Box::new(term_view(*t2)),
            l@,
        ),
        Term::Let(x, v, n, l) => TermV::Let(x@, Box::new(term_view(*v)), Box::new(term_view(*n)), l@),
        Term::Function(f) => TermV::Function(function_view(f)),
        Term::Call(callee, args, l) => TermV::Call(
            Box::new(term_view(*callee)),
            terms_view(args@),
            l@,
        ),
        Term::Print(v, l) => TermV::Print(Box::new(term_view(*v)), l@),
        Term::Tuple(a, b, l) => TermV::Tuple(Box::new(term_view(*a)), Box::new(term_view(*b)), l@),
        Term::First(v, l) => TermV::First(Box::new(term_view(*v)), l@),
        Term::Second(v, l) => TermV::Second(Box::new(term_view(*v)), l@),
        Term::Error(m, l) => TermV::Error(m@, l@),
    }
}

/// The image of a sequence of terms, elementwise.
pub open spec fn terms_view(s: Seq<Term>) -> Seq<TermV>
    decreases s,
{
    if s.len() == 0 {
        Seq::empty()
    } else {
        terms_view(s.drop_last()).push(term_view(s.last()))
    }
}

/// The image of one function literal.
pub open spec fn function_view(f: Function) -> FunctionV
    decreases f,
{
    FunctionV {
        parameters: strings_view(f.parameters@),
        value: Box::new(term_view(*f.value)),
        location: f.location@,
    }
}

impl View for Term {
    type V = TermV;

    open spec fn view(&self) -> TermV {
        term_view(*self)
    }
}

impl View for Function {
    type V = FunctionV;

    open spec fn view(&self) -> FunctionV {
        function_view(*self)
    }
}

/// `terms_view` is the elementwise image.
pub proof fn lemma_terms_view(s: Seq<Term>)
    ensures
        terms_view(s).len() == s.len(),
        forall|i: int| 0 <= i < s.len() ==> terms_view(s)[i] == term_view(s[i]),
    decreases s,
{
    if s.len() > 0 {
        lemma_terms_view(s.drop_last());
    }
}

/// Copies a location.
pub fn clone_location(l: &Location) -> (r: Location)
    ensures
        r@ == l@,
{
    Location { start: l.start, end: l.end, filename: l.filename.clone() }
}

/// Copies a term; the copy has the same image.
pub fn clone_term(t: &Term) -> (r: Term)
    ensures
        r@ == t@,
    decreases *t,
{
    match t {
        Term::Int(n, l) => Term::Int(*n, clone_location(l)),
        Term::Str(s, l) => Term::Str(s.clone(), clone_location(l)),
        Term::Bool(b, l) => Term::Bool(*b, clone_location(l)),
        Term::Var(x, l) => Term::Var(x.clone(), clone_location(l)),
        Term::Binary(op, lhs, rhs, l) => Term::Binary(
            *op,
            Box::new(clone_term(lhs)),
            Box::new(clone_term(rhs)),
            clone_location(l),
        ),
        Term::If(c, t1, t2, l) => Term::If(
            Box::new(clone_term(c)),
            Box::new(clone_term(t1)),
            Box::new(clone_term(t2)),
            clone_location(l),
        ),
        Term::Let(x, v, n, l) => Term::Let(
            x.clone(),
            Box::new(clone_term(v)),
            Box::new(clone_term(n)),
            clone_location(l),
        ),
        Term::Function(f) => Term::Function(clone_function(f)),
        Term::Call(callee, args, l) => Term::Call(
            Box::new(clone_term(callee)),
            clone_terms(args),
            clone_location(l),
        ),
        Term::Print(v, l) => Term::Print(Box::new(clone_term(v)), clone_location(l)),
        Term::Tuple(a, b, l) => Term::Tuple(
            Box::new(clone_term(a)),
            Box::new(clone_term(b)),
            clone_location(l),
        ),
        Term::First(v, l) => Term::First(Box::new(clone_term(v)), clone_location(l)),
        Term::Second(v, l) => Term::Second(Box::new(clone_term(v)), clone_location(l)),
        Term::Error(m, l) => Term::Error(m.clone(), clone_location(l)),
    }
}

/// Copies a sequence of terms, elementwise.
pub fn clone_terms(ts: &Vec<Term>) -> (r: Vec<Term>)
    ensures
        terms_view(r@) == terms_view(ts@),
    decreases *ts,
{
    let mut r: Vec<Term> = Vec::new();
    let mut i: usize = 0;
    while i < ts.len()
        invariant
            i <= ts.len(),
            r@.len() == i,
            forall|j: int| 0 <= j < i ==> term_view(r@[j]) == term_view(ts@[j]),
        decreases ts.len() - i,
    {
        r.push(clone_term(&ts[i]));
        i = i + 1;
    }
    proof {
        lemma_terms_view(r@);
        lemma_terms_view(ts@);
        assert(terms_view(r@) =~= terms_view(ts@));
    }
    r
}

/// Copies a function literal; the copy has the same image.
pub fn clone_function(f: &Function) -> (r: Function)
    ensures
        r@ == f@,
    decreases *f,
{
    let parameters = f.parameters.clone();
    proof {
        assert(strings_view(parameters@) =~= strings_view(f.parameters@));
    }
    Function {
        parameters,
        value: Box::new(clone_term(&f.value)),
        location: clone_location(&f.location),
    }
}

} // verus!
