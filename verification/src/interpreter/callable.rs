//! The built-in functions of the interpreter.
use vstd::prelude::*;

verus! {

/// A built-in function.
#[derive(Debug, Clone, Copy, PartialEq, Eq, Structural)]
pub enum NativeFunction {
    /// Seconds since the Unix epoch.
    Clock,
    /// One line of standard input, or `nil` at its end.
    ReadLine,
    /// A string read as a number, or `nil` when it is not one.
    ToNumber,
}

impl NativeFunction {
    pub open spec fn spec_name(self) -> Seq<char> {
        match self {
            NativeFunction::Clock => "clock"@,
            NativeFunction::ReadLine => "readLine"@,
            NativeFunction::ToNumber => "toNumber"@,
        }
    }

    pub open spec fn spec_arity(self) -> nat {
        match self {
            NativeFunction::Clock => 0,
            NativeFunction::ReadLine => 0,
            NativeFunction::ToNumber => 1,
        }
    }

    /// The name the function is bound to.
    pub fn name(&self) -> (s: &'static str)
        ensures
            s@ == self.spec_name(),
    {
        match self {
            NativeFunction::Clock => "clock",
            NativeFunction::ReadLine => "readLine",
            NativeFunction::ToNumber => "toNumber",
        }
    }

    /// The number of arguments the function takes.
    pub fn arity(&self) -> (n: usize)
        ensures
            n == self.spec_arity(),
    {
        match self {
            NativeFunction::Clock => 0,
            NativeFunction::ReadLine => 0,
            NativeFunction::ToNumber => 1,
        }
    }
}

} // verus!
