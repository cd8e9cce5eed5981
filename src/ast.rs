//! The engine's syntax tree: expressions and statements.
use vstd::prelude::*;
use crate::ops::{Op, UnaryOp};
use crate::value::{Span, Value};

verus! {

/// An expression.
#[derive(Debug)]
pub enum Expr {
    /// A literal value.
    Constant(Value),
    /// A variable read.
    Name(String),
    /// A list display `[a, b, ...]`.
    List(Vec<Expr>),
    /// A binary operation.
    Op { left: Box<Expr>, op: Op, right: Box<Expr>, span: Option<Span> },
    /// A unary operation.
    Unary { op: UnaryOp, operand: Box<Expr>, span: Option<Span> },
    /// A subscript `object[index]`.
    Subscript { object: Box<Expr>, index: Box<Expr>, span: Option<Span> },
    /// A call of a builtin or an external function by name.
    Call { func: String, args: Vec<Expr>, span: Option<Span> },
    /// A method call on a value, `receiver.method(args)`.
    MethodCall { receiver: Box<Expr>, method: String, args: Vec<Expr>, span: Option<Span> },
    /// An attribute read, `object.attr`.
    Attribute { object: Box<Expr>, attr: String, span: Option<Span> },
}

/// A statement.
#[derive(Debug)]
pub enum Node {
    Pass,
    /// An expression evaluated for its value or effect.
    Expression(Expr),
    /// `target = value` (a type annotation on the target is dropped).
    Assign { target: String, value: Expr },
    /// `target op= value`.
    AugAssign { target: String, op: Op, value: Expr, span: Option<Span> },
    /// `for target in iter: body else: or_else`.
    For { target: String, iter: Expr, body: Vec<Node>, or_else: Vec<Node> },
    /// `if test: body else: or_else` (`elif` chains nest in `or_else`).
    If { test: Expr, body: Vec<Node>, or_else: Vec<Node> },
    /// `raise value`.
    Raise(Expr),
    /// A statement form the engine does not implement, by its keyword.
    Unsupported(String),
}

} // verus!
