//! The tree-walking evaluator's decisions on operators: which operand types
//! an operator takes, what it gives when the answer needs no floating point
//! (equality, string concatenation, negation of truth), and the runtime
//! error otherwise. Arithmetic and comparison of numbers is handed to the
//! caller as a `NumberOp` on the operands' bit patterns.
use vstd::prelude::*;

use crate::ast::{BinaryOp, LogicalOp, UnaryOp};
use crate::interpreter::value::{truthy, values_equal, Value};
use crate::text::{append_str, owned};

verus! {

/// An arithmetic or comparison of two numbers, which the caller computes.
#[derive(Debug, Clone, Copy, PartialEq, Eq, Structural)]
pub enum NumberOp {
    Add,
    Subtract,
    Multiply,
    Divide,
    Less,
    LessEqual,
    Greater,
    GreaterEqual,
}

/// What an operator application comes to.
#[derive(Debug)]
pub enum Outcome {
    /// The value of the expression.
    Value(Value),
    /// Compute `a op b` on the numbers with these bit patterns.
    Numbers { op: NumberOp, a: u64, b: u64 },
    /// Compute the negation of the number with this bit pattern.
    Negate(u64),
    /// A runtime error with this message.
    Error(String),
}

/// The number operation a binary operator stands for, when it needs two numbers.
pub open spec fn number_op(op: BinaryOp) -> Option<NumberOp> {
    match op {
        BinaryOp::Subtract => Some(NumberOp::Subtract),
        BinaryOp::Multiply => Some(NumberOp::Multiply),
        BinaryOp::Divide => Some(NumberOp::Divide),
        BinaryOp::Less => Some(NumberOp::Less),
        BinaryOp::LessEqual => Some(NumberOp::LessEqual),
        BinaryOp::Greater => Some(NumberOp::Greater),
        BinaryOp::GreaterEqual => Some(NumberOp::GreaterEqual),
        _ => None,
    }
}

/// What `left op right` comes to: `==` and `!=` by Lox equality; `+` on two
/// strings their concatenation, on two numbers a sum for the caller; the
/// other operators a number operation on two numbers; otherwise an error.
pub open spec fn binary_outcome_is(op: BinaryOp, left: Value, right: Value, out: Outcome) -> bool {
    match op {
        BinaryOp::Equal => out == Outcome::Value(Value::Bool(values_equal(left, right))),
        BinaryOp::NotEqual => out == Outcome::Value(Value::Bool(!values_equal(left, right))),
        BinaryOp::Add => match (left, right) {
            (Value::Str(x), Value::Str(y)) => out matches Outcome::Value(Value::Str(s)) && s@ == x@ + y@,
            (Value::Number(a), Value::Number(b)) => out == Outcome::Numbers { op: NumberOp::Add, a, b },
            _ => out matches Outcome::Error(m) && m@ == "operands must be two numbers or two strings"@,
        },
        _ => match (left, right) {
            (Value::Number(a), Value::Number(b)) => out == Outcome::Numbers { op: number_op(op)->Some_0, a, b },
            _ => out matches Outcome::Error(m) && m@ == "operands must be numbers"@,
        },
    }
}

/// Decide `left op right`.
pub fn binary_outcome(op: BinaryOp, left: &Value, right: &Value) -> (out: Outcome)
    ensures
        binary_outcome_is(op, *left, *right, out),
{
    match op {
        BinaryOp::Equal => Outcome::Value(Value::Bool(left.is_equal(right))),
        BinaryOp::NotEqual => Outcome::Value(Value::Bool(!left.is_equal(right))),
        BinaryOp::Add => match (left, right) {
            (Value::Str(x), Value::Str(y)) => {
                let mut s = x.clone();
                append_str(&mut s, y.as_str());
                Outcome::Value(Value::Str(s))
            },
            (Value::Number(a), Value::Number(b)) => Outcome::Numbers { op: NumberOp::Add, a: *a, b: *b },
            _ => Outcome::Error(owned("operands must be two numbers or two strings")),
        },
        _ => {
            let nop = match op {
                BinaryOp::Subtract => NumberOp::Subtract,
                BinaryOp::Multiply => NumberOp::Multiply,
                BinaryOp::Divide => NumberOp::Divide,
                BinaryOp::Less => NumberOp::Less,
                BinaryOp::LessEqual => NumberOp::LessEqual,
                BinaryOp::Greater => NumberOp::Greater,
                _ => NumberOp::GreaterEqual,
            };
            match (left, right) {
                (Value::Number(a), Value::Number(b)) => Outcome::Numbers { op: nop, a: *a, b: *b },
                _ => Outcome::Error(owned("operands must be numbers")),
            }
        },
    }
}

/// What `op operand` comes to: `!` the negation of its truth, `-` a
/// negation of a number for the caller, or an error on anything else.
pub open spec fn unary_outcome_is(op: UnaryOp, v: Value, out: Outcome) -> bool {
    match op {
        UnaryOp::Not => out == Outcome::Value(Value::Bool(!truthy(v))),
        UnaryOp::Negate => match v {
            Value::Number(a) => out == Outcome::Negate(a),
            _ => out matches Outcome::Error(m) && m@ == "operand must be a number"@,
        },
    }
}

/// Decide `op operand`.
pub fn unary_outcome(op: UnaryOp, v: &Value) -> (out: Outcome)
    ensures
        unary_outcome_is(op, *v, out),
{
    match op {
        UnaryOp::Not => Outcome::Value(Value::Bool(!v.is_truthy())),
        UnaryOp::Negate => match v {
            Value::Number(a) => Outcome::Negate(*a),
            _ => Outcome::Error(owned("operand must be a number")),
        },
    }
}

/// Whether `left op right` is `left` without evaluating `right`: `or` on a
/// true left operand, `and` on a false one.
pub fn short_circuits(op: LogicalOp, left: &Value) -> (r: bool)
    ensures
        r == match op {
            LogicalOp::Or => truthy(*left),
            LogicalOp::And => !truthy(*left),
        },
{
    match op {
        LogicalOp::Or => left.is_truthy(),
        LogicalOp::And => !left.is_truthy(),
    }
}

/// The operator a number operation computes, as written in Lox.
pub open spec fn number_symbol(n: NumberOp) -> Seq<char> {
    match n {
        NumberOp::Add => "+"@,
        NumberOp::Subtract => "-"@,
        NumberOp::Multiply => "*"@,
        NumberOp::Divide => "/"@,
        NumberOp::Less => "<"@,
        NumberOp::LessEqual => "<="@,
        NumberOp::Greater => ">"@,
        NumberOp::GreaterEqual => ">="@,
    }
}

/// Law: the number work handed out for `left op right` on two numbers is
/// the operator `op` itself: its symbol is the operator's, and two different
/// operators never hand out the same work.
pub proof fn number_work_is_the_operator(op: BinaryOp, other: BinaryOp, a: u64, b: u64, out: Outcome, out2: Outcome)
    requires
        op != BinaryOp::Equal && op != BinaryOp::NotEqual,
        binary_outcome_is(op, Value::Number(a), Value::Number(b), out),
        binary_outcome_is(other, Value::Number(a), Value::Number(b), out2),
    ensures
        out matches Outcome::Numbers { op: n, a: x, b: y } && number_symbol(n) == op.symbol() && x == a && y == b,
        out2 == out ==> other == op,
{
}

} // verus!
