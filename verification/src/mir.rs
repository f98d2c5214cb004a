//! The surface mid-level IR: an immutable expression tree that the lowering
//! pass translates into the SSA stream.

use vstd::prelude::*;

verus! {

/// A byte-string name.
#[derive(Clone, Debug, PartialEq, Eq)]
pub struct Symbol(pub Vec<u8>);

/// Surface types. Only `I64` exists so far.
#[derive(Clone, Copy, Debug, PartialEq, Eq, Structural)]
pub enum Type {
    I64,
}

/// A top-level function: name, typed parameters, and a body expression.
#[derive(Debug)]
pub struct Function {
    pub name: Symbol,
    pub params: Vec<(Symbol, Type)>,
    pub body: Expression,
}

/// Statements, used only inside `Expression::Do` blocks.
#[derive(Debug)]
pub enum Statement {
    Let(Symbol, Expression),
    Assign(Symbol, Expression),
    Var(Symbol, Expression),
    Goto(Symbol, Vec<Expression>),
    Return(),
}

/// An expression: it can potentially return a single value to a single
/// continuation.
#[derive(Debug)]
pub enum Expression {
    Call(Box<Call>),
    Do(Vec<Statement>),
    If(Box<If>),
    Variable(Symbol),
    ConstBool(bool),
    ConstI64(u64),
}

/// A call of a named function on argument expressions.
#[derive(Debug)]
pub struct Call {
    pub function: Symbol,
    pub args: Vec<Expression>,
}

/// A two-armed conditional expression.
#[derive(Debug)]
pub struct If {
    pub condition: Expression,
    pub if_true: Expression,
    pub if_false: Expression,
}

/// A named loop with initial bindings, reserved for a later extension of
/// the lowering pass.
#[derive(Debug)]
pub struct Loop {
    pub name: Symbol,
    pub bindings: Vec<(Symbol, Expression)>,
    pub body: Expression,
}

} // verus!
