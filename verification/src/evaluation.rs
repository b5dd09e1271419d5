//! What the constant evaluator reports when a value has no primitive reading.
use vstd::prelude::*;

verus! {

/// A value that an evaluator helper cannot read: no string form, no truthiness.
#[derive(Clone, Copy, Debug, PartialEq, Eq, Structural)]
pub enum Unhandled {
    AnyToString,
    IsTruthy,
}

impl Unhandled {
    /// The message the evaluator reports.
    pub fn message(&self) -> (r: &'static str)
        ensures
            r@ == match *self {
                Unhandled::AnyToString => "Unhandled case in AnyToString"@,
                Unhandled::IsTruthy => "Unhandled case in IsTruthy"@,
            },
    {
        match self {
            Unhandled::AnyToString => "Unhandled case in AnyToString",
            Unhandled::IsTruthy => "Unhandled case in IsTruthy",
        }
    }
}

} // verus!
