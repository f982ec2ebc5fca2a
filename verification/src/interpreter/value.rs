//! Lox runtime values as plain data.
use vstd::prelude::*;

use crate::interpreter::callable::NativeFunction;

verus! {

/// A Lox runtime value.
///
/// Numbers are held as the IEEE-754 bit pattern of the `f64` they denote, so
/// that they can be stored, compared and copied as plain integers; heap objects
/// (functions, classes, instances) are handles into the evaluator's object tables.
#[derive(Debug, Clone)]
pub enum Value {
    Number(u64),
    Str(String),
    Bool(bool),
    Nil,
    Function(usize),
    Class(usize),
    Instance(usize),
    /// A built-in function.
    Native(NativeFunction),
}

/// The bit pattern is a NaN: exponent all ones and a nonzero mantissa.
pub open spec fn is_nan_bits(b: u64) -> bool {
    (b & 0x7FF0_0000_0000_0000u64) == 0x7FF0_0000_0000_0000u64
        && (b & 0x000F_FFFF_FFFF_FFFFu64) != 0
}

/// The bit pattern is positive or negative zero.
pub open spec fn is_zero_bits(b: u64) -> bool {
    (b & 0x7FFF_FFFF_FFFF_FFFFu64) == 0
}

/// IEEE-754 equality of two `f64` given by their bit patterns: NaN equals
/// nothing, the two zeros are equal, otherwise equal bit patterns.
pub open spec fn number_eq(a: u64, b: u64) -> bool {
    !is_nan_bits(a) && !is_nan_bits(b) && (a == b || (is_zero_bits(a) && is_zero_bits(b)))
}

/// Lox equality of two values.
pub open spec fn values_equal(a: Value, b: Value) -> bool {
    match (a, b) {
        (Value::Nil, Value::Nil) => true,
        (Value::Bool(x), Value::Bool(y)) => x == y,
        (Value::Number(x), Value::Number(y)) => number_eq(x, y),
        (Value::Str(x), Value::Str(y)) => x@ == y@,
        (Value::Function(x), Value::Function(y)) => x == y,
        (Value::Class(x), Value::Class(y)) => x == y,
        (Value::Instance(x), Value::Instance(y)) => x == y,
        (Value::Native(x), Value::Native(y)) => x == y,
        _ => false,
    }
}

/// Lox truthiness: everything but `nil` and `false` is true.
pub open spec fn truthy(v: Value) -> bool {
    !(v is Nil || v == Value::Bool(false))
}

impl Value {
    /// Whether the value counts as true in a condition.
    pub fn is_truthy(&self) -> (r: bool)
        ensures
            r == truthy(*self),
    {
        match self {
            Value::Nil => false,
            Value::Bool(b) => *b,
            _ => true,
        }
    }

    /// Lox `==`.
    pub fn is_equal(&self, other: &Value) -> (r: bool)
        ensures
            r == values_equal(*self, *other),
    {
        match (self, other) {
            (Value::Nil, Value::Nil) => true,
            (Value::Bool(x), Value::Bool(y)) => *x == *y,
            (Value::Number(x), Value::Number(y)) => {
                let nan_x = (*x & 0x7FF0_0000_0000_0000u64) == 0x7FF0_0000_0000_0000u64
                    && (*x & 0x000F_FFFF_FFFF_FFFFu64) != 0;
                let nan_y = (*y & 0x7FF0_0000_0000_0000u64) == 0x7FF0_0000_0000_0000u64
                    && (*y & 0x000F_FFFF_FFFF_FFFFu64) != 0;
                let zero_x = (*x & 0x7FFF_FFFF_FFFF_FFFFu64) == 0;
                let zero_y = (*y & 0x7FFF_FFFF_FFFF_FFFFu64) == 0;
                !nan_x && !nan_y && (*x == *y || (zero_x && zero_y))
            },
            (Value::Str(x), Value::Str(y)) => *x == *y,
            (Value::Function(x), Value::Function(y)) => *x == *y,
            (Value::Class(x), Value::Class(y)) => *x == *y,
            (Value::Instance(x), Value::Instance(y)) => *x == *y,
            (Value::Native(x), Value::Native(y)) => *x == *y,
            _ => false,
        }
    }

    /// A copy of the value.
    pub fn duplicate(&self) -> (r: Value)
        ensures
            r == *self,
    {
        match self {
            Value::Number(n) => Value::Number(*n),
            Value::Str(s) => Value::Str(s.clone()),
            Value::Bool(b) => Value::Bool(*b),
            Value::Nil => Value::Nil,
            Value::Function(f) => Value::Function(*f),
            Value::Class(c) => Value::Class(*c),
            Value::Instance(i) => Value::Instance(*i),
            Value::Native(f) => Value::Native(*f),
        }
    }
}

} // verus!
