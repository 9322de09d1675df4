//! Functions that the host provides.

use vstd::prelude::*;

verus! {

/// A function of the host, known by its name.
#[derive(Clone, Copy, Debug, PartialEq, Eq, Structural)]
pub enum NativeFunction {
    /// The time in seconds since the Unix epoch.
    Clock,
}

impl NativeFunction {
    /// The number of arguments that the function takes.
    pub open spec fn spec_arity(self) -> nat {
        match self {
            NativeFunction::Clock => 0,
        }
    }

    /// The name under which the function is bound.
    pub open spec fn spec_name(self) -> Seq<char> {
        match self {
            NativeFunction::Clock => "clock"@,
        }
    }

    /// The number of arguments that the function takes.
    pub fn arity(&self) -> (r: usize)
        ensures
            r == self.spec_arity(),
    {
        match self {
            NativeFunction::Clock => 0,
        }
    }

    /// The name under which the function is bound.
    pub fn name(&self) -> (r: &'static str)
        ensures
            r@ == self.spec_name(),
    {
        match self {
            NativeFunction::Clock => "clock",
        }
    }
}

} // verus!
