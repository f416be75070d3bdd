//! A tree-walking evaluator for a small expression-oriented language whose
//! programs arrive as a pre-parsed abstract syntax tree.
//!
//! The evaluator maintains a call stack that doubles as the variable-binding
//! environment.  Variable resolution is deliberately *dynamic*: a name is
//! looked up by scanning the live call-stack frames from the most recent to
//! the root, so a function body can observe bindings left behind by any
//! suspended caller.  Function values capture no environment at all; this
//! non-lexical discipline is a deliberate design choice of the language and
//! must not be "fixed" into lexical scoping.
//!
//! Parsing source text, decoding the on-disk AST document and the textual
//! diagnostic format are external collaborators; they live outside this
//! library.

pub mod ast;
pub mod errors;
pub mod eval;
pub mod laws;
pub mod output;
pub mod semantics;
pub mod stack;
pub mod value;
